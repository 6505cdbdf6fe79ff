use apigen::{
    render_field, render_field_type, render_interface, render_interfaces, ApiDocsModel,
    ApiDocsModelObject, ApiDocsModelObjectType, ModelCatalog, SortedMap,
};

#[test]
fn test_render_field_type_string() {
    let rendered = render_field_type(&ApiDocsModel {
        kind: ApiDocsModelObjectType::String,
        fields: None,
        model: None,
        members: None,
        required: true,
    })
    .unwrap();
    assert_eq!(rendered, "string");
}

#[test]
fn test_render_field_type_number() {
    let rendered = render_field_type(&ApiDocsModel {
        kind: ApiDocsModelObjectType::Number,
        fields: None,
        model: None,
        members: None,
        required: false,
    })
    .unwrap();
    assert_eq!(rendered, "Optional<number>");
}

#[test]
fn test_render_field_type_boolean() {
    let rendered = render_field_type(&ApiDocsModel {
        kind: ApiDocsModelObjectType::Boolean,
        fields: None,
        model: None,
        members: None,
        required: false,
    })
    .unwrap();
    assert_eq!(rendered, "Optional<boolean>");
}

#[test]
fn test_render_field_type_array_of_scalar() {
    let rendered = render_field_type(&ApiDocsModel {
        kind: ApiDocsModelObjectType::Array,
        fields: None,
        members: None,
        model: Some(Box::new(ApiDocsModel {
            kind: ApiDocsModelObjectType::Boolean,
            fields: None,
            model: None,
            members: None,
            required: true,
        })),
        required: true,
    })
    .unwrap();
    assert_eq!(rendered, "Array<boolean>");
}

#[test]
fn test_render_field_type_array_of_object() {
    let mut fields: ApiDocsModelObject = SortedMap::new();
    fields.insert(
        "foo".to_string(),
        ApiDocsModel {
            kind: ApiDocsModelObjectType::String,
            fields: None,
            members: None,
            model: None,
            required: true,
        },
    );
    fields.insert(
        "bar".to_string(),
        ApiDocsModel {
            kind: ApiDocsModelObjectType::Boolean,
            fields: None,
            members: None,
            model: None,
            required: true,
        },
    );
    let rendered = render_field_type(&ApiDocsModel {
        kind: ApiDocsModelObjectType::Array,
        fields: None,
        members: None,
        model: Some(Box::new(ApiDocsModel {
            kind: ApiDocsModelObjectType::Object,
            members: None,
            model: None,
            fields: Some(fields),
            required: true,
        })),
        required: false,
    })
    .unwrap();
    assert_eq!(rendered, "Optional<Array<{ bar: boolean,foo: string, }>>");
}

#[test]
fn test_render_field_type_array_of_array() {
    let rendered = render_field_type(&ApiDocsModel {
        kind: ApiDocsModelObjectType::Array,
        fields: None,
        members: None,
        model: Some(Box::new(ApiDocsModel {
            kind: ApiDocsModelObjectType::Array,
            fields: None,
            members: None,
            model: Some(Box::new(ApiDocsModel {
                kind: ApiDocsModelObjectType::String,
                fields: None,
                members: None,
                model: None,
                required: true,
            })),
            required: true,
        })),
        required: false,
    })
    .unwrap();
    assert_eq!(rendered, "Optional<Array<Array<string>>>");
}

#[test]
fn test_render_required_field() {
    let rendered = render_field(
        "foo",
        &ApiDocsModel {
            kind: ApiDocsModelObjectType::Boolean,
            fields: None,
            model: None,
            members: None,
            required: true,
        },
    )
    .unwrap();
    assert_eq!(rendered, "foo: boolean,");
}

#[test]
fn test_render_non_required_field() {
    let rendered = render_field(
        "foo",
        &ApiDocsModel {
            kind: ApiDocsModelObjectType::Boolean,
            fields: None,
            model: None,
            members: None,
            required: false,
        },
    )
    .unwrap();
    assert_eq!(rendered, "foo?: Optional<boolean>,");
}

#[test]
fn test_render_interface_simple() {
    let mut obj: ApiDocsModelObject = SortedMap::new();
    obj.insert(
        "foo".to_string(),
        ApiDocsModel {
            kind: ApiDocsModelObjectType::String,
            fields: None,
            members: None,
            model: None,
            required: true,
        },
    );
    obj.insert(
        "bar".to_string(),
        ApiDocsModel {
            kind: ApiDocsModelObjectType::Boolean,
            fields: None,
            members: None,
            model: None,
            required: true,
        },
    );
    let rendered = render_interface("Foo", &obj).unwrap();
    assert_eq!(rendered, "interface Foo { bar: boolean,foo: string, }");
}

#[test]
fn test_render_interface_with_nested_objects() {
    let mut inner: ApiDocsModelObject = SortedMap::new();
    inner.insert(
        "foo".to_string(),
        ApiDocsModel {
            kind: ApiDocsModelObjectType::String,
            fields: None,
            members: None,
            model: None,
            required: true,
        },
    );
    inner.insert(
        "bar".to_string(),
        ApiDocsModel {
            kind: ApiDocsModelObjectType::Boolean,
            fields: None,
            members: None,
            model: None,
            required: true,
        },
    );
    let mut obj: ApiDocsModelObject = SortedMap::new();
    obj.insert(
        "foo".to_string(),
        ApiDocsModel {
            kind: ApiDocsModelObjectType::String,
            fields: None,
            members: None,
            model: None,
            required: true,
        },
    );
    obj.insert(
        "bar".to_string(),
        ApiDocsModel {
            kind: ApiDocsModelObjectType::Object,
            fields: Some(inner),
            members: None,
            model: None,
            required: true,
        },
    );
    let rendered = render_interface("Foo", &obj).unwrap();
    assert_eq!(
        rendered,
        "interface Foo { bar: { bar: boolean,foo: string, },foo: string, }"
    );
}

#[test]
fn test_render_models_simple() {
    let mut obj: ApiDocsModelObject = SortedMap::new();
    obj.insert(
        "baz".to_string(),
        ApiDocsModel {
            kind: ApiDocsModelObjectType::Boolean,
            required: true,
            fields: None,
            members: None,
            model: None,
        },
    );
    let mut models: ModelCatalog = SortedMap::new();
    models.insert("Foo".to_string(), obj);
    let rendered = render_interfaces(&models).unwrap();
    assert_eq!(rendered, "interface Foo { baz: boolean, }");
}
