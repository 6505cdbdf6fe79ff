use apigen::{
    render_field_type, render_fields, render_interfaces, ApiDocsModel, ApiDocsModelObject,
    ApiDocsModelObjectType, ModelCatalog, RenderErrorKind, SortedMap,
};

fn scalar(kind: ApiDocsModelObjectType, required: bool) -> ApiDocsModel {
    ApiDocsModel {
        kind,
        fields: None,
        model: None,
        members: None,
        required,
    }
}

#[test]
fn scalar_kinds_render_to_their_names() {
    assert_eq!(
        render_field_type(&scalar(ApiDocsModelObjectType::String, true)).unwrap(),
        "string"
    );
    assert_eq!(
        render_field_type(&scalar(ApiDocsModelObjectType::Number, true)).unwrap(),
        "number"
    );
    assert_eq!(
        render_field_type(&scalar(ApiDocsModelObjectType::Boolean, true)).unwrap(),
        "boolean"
    );
    assert_eq!(
        render_field_type(&scalar(ApiDocsModelObjectType::String, false)).unwrap(),
        "Optional<string>"
    );
}

#[test]
fn fields_render_in_name_order_not_insertion_order() {
    let mut first: ApiDocsModelObject = SortedMap::new();
    first.insert("foo".to_string(), scalar(ApiDocsModelObjectType::String, true));
    first.insert("bar".to_string(), scalar(ApiDocsModelObjectType::Boolean, true));
    let mut second: ApiDocsModelObject = SortedMap::new();
    second.insert("bar".to_string(), scalar(ApiDocsModelObjectType::Boolean, true));
    second.insert("foo".to_string(), scalar(ApiDocsModelObjectType::String, true));
    let rendered_first = render_fields(&first).unwrap();
    let rendered_second = render_fields(&second).unwrap();
    assert_eq!(rendered_first, "bar: boolean,foo: string,");
    assert_eq!(rendered_first, rendered_second);
}

#[test]
fn inserting_the_same_name_twice_keeps_the_last_schema() {
    let mut obj: ApiDocsModelObject = SortedMap::new();
    obj.insert("a".to_string(), scalar(ApiDocsModelObjectType::String, true));
    obj.insert("a".to_string(), scalar(ApiDocsModelObjectType::Boolean, true));
    assert_eq!(obj.len(), 1);
    assert_eq!(render_fields(&obj).unwrap(), "a: boolean,");
}

#[test]
fn object_field_renders_its_fields_in_braces() {
    let mut fields: ApiDocsModelObject = SortedMap::new();
    fields.insert("foo".to_string(), scalar(ApiDocsModelObjectType::String, true));
    fields.insert("bar".to_string(), scalar(ApiDocsModelObjectType::Boolean, true));
    let obj = ApiDocsModel {
        kind: ApiDocsModelObjectType::Object,
        fields: Some(fields),
        model: None,
        members: None,
        required: true,
    };
    assert_eq!(render_field_type(&obj).unwrap(), "{ bar: boolean,foo: string, }");
}

#[test]
fn model_names_become_pascal_case() {
    let mut underscored: ModelCatalog = SortedMap::new();
    underscored.insert("foo_bar".to_string(), SortedMap::new());
    assert_eq!(render_interfaces(&underscored).unwrap(), "interface FooBar {  }");
    let mut hyphenated: ModelCatalog = SortedMap::new();
    hyphenated.insert("foo-bar".to_string(), SortedMap::new());
    assert_eq!(render_interfaces(&hyphenated).unwrap(), "interface FooBar {  }");
}

#[test]
fn rendering_twice_gives_identical_output() {
    let mut obj: ApiDocsModelObject = SortedMap::new();
    obj.insert("baz".to_string(), scalar(ApiDocsModelObjectType::Boolean, false));
    let mut models: ModelCatalog = SortedMap::new();
    models.insert("foo_model".to_string(), obj);
    let once = render_interfaces(&models).unwrap();
    let again = render_interfaces(&models).unwrap();
    assert_eq!(once, again);
}

#[test]
fn catalog_entries_render_in_name_order() {
    let mut models: ModelCatalog = SortedMap::new();
    models.insert("zeta".to_string(), SortedMap::new());
    models.insert("alpha".to_string(), SortedMap::new());
    assert_eq!(
        render_interfaces(&models).unwrap(),
        "interface Alpha {  }interface Zeta {  }"
    );
}

#[test]
fn array_without_element_schema_is_an_error() {
    let broken = ApiDocsModel {
        kind: ApiDocsModelObjectType::Array,
        fields: None,
        model: None,
        members: None,
        required: true,
    };
    let err = render_field_type(&broken).unwrap_err();
    assert_eq!(err.kind, RenderErrorKind::MissingSubschema);
    assert_eq!(err.field, None);
    assert_eq!(err.model, None);
}

#[test]
fn object_without_fields_is_an_error() {
    let broken = ApiDocsModel {
        kind: ApiDocsModelObjectType::Object,
        fields: None,
        model: None,
        members: None,
        required: true,
    };
    let err = render_field_type(&broken).unwrap_err();
    assert_eq!(err.kind, RenderErrorKind::MissingFields);
}

#[test]
fn enum_schema_is_an_unsupported_kind_error() {
    let broken = ApiDocsModel {
        kind: ApiDocsModelObjectType::Enum,
        fields: None,
        model: None,
        members: Some(Vec::new()),
        required: true,
    };
    let err = render_field_type(&broken).unwrap_err();
    assert_eq!(err.kind, RenderErrorKind::UnsupportedKind);
}

#[test]
fn errors_carry_the_model_and_innermost_field_name() {
    let mut inner_fields: ApiDocsModelObject = SortedMap::new();
    inner_fields.insert(
        "inner".to_string(),
        ApiDocsModel {
            kind: ApiDocsModelObjectType::Array,
            fields: None,
            model: None,
            members: None,
            required: true,
        },
    );
    let mut obj: ApiDocsModelObject = SortedMap::new();
    obj.insert(
        "outer".to_string(),
        ApiDocsModel {
            kind: ApiDocsModelObjectType::Object,
            fields: Some(inner_fields),
            model: None,
            members: None,
            required: true,
        },
    );
    let mut models: ModelCatalog = SortedMap::new();
    models.insert("my_model".to_string(), obj);
    let err = render_interfaces(&models).unwrap_err();
    assert_eq!(err.kind, RenderErrorKind::MissingSubschema);
    assert_eq!(err.field, Some("inner".to_string()));
    assert_eq!(err.model, Some("my_model".to_string()));
    assert_eq!(
        err.message(),
        "`model` must be present if `type` is `array` (model `my_model`) (field `inner`)"
    );
}

#[test]
fn a_failing_model_stops_the_whole_catalog() {
    let mut obj: ApiDocsModelObject = SortedMap::new();
    obj.insert("bad".to_string(), scalar(ApiDocsModelObjectType::Enum, true));
    let mut models: ModelCatalog = SortedMap::new();
    models.insert("fine".to_string(), SortedMap::new());
    models.insert("broken".to_string(), obj);
    let err = render_interfaces(&models).unwrap_err();
    assert_eq!(err.kind, RenderErrorKind::UnsupportedKind);
    assert_eq!(err.model, Some("broken".to_string()));
    assert_eq!(err.field, Some("bad".to_string()));
}

#[test]
fn optional_wraps_composite_types_too() {
    let arr = ApiDocsModel {
        kind: ApiDocsModelObjectType::Array,
        fields: None,
        model: Some(Box::new(scalar(ApiDocsModelObjectType::Number, true))),
        members: None,
        required: false,
    };
    assert_eq!(render_field_type(&arr).unwrap(), "Optional<Array<number>>");
    let mut fields: ApiDocsModelObject = SortedMap::new();
    fields.insert("n".to_string(), scalar(ApiDocsModelObjectType::Number, true));
    let obj = ApiDocsModel {
        kind: ApiDocsModelObjectType::Object,
        fields: Some(fields),
        model: None,
        members: None,
        required: false,
    };
    assert_eq!(render_field_type(&obj).unwrap(), "Optional<{ n: number, }>");
}

#[test]
fn end_to_end_single_boolean_model() {
    let mut obj: ApiDocsModelObject = SortedMap::new();
    obj.insert("baz".to_string(), scalar(ApiDocsModelObjectType::Boolean, true));
    let mut models: ModelCatalog = SortedMap::new();
    models.insert("Foo".to_string(), obj);
    assert_eq!(
        render_interfaces(&models).unwrap(),
        "interface Foo { baz: boolean, }"
    );
}
