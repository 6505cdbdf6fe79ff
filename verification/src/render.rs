//! The rendering engine: walks a schema tree and emits interface
//! declarations, one per catalog entry.

use vstd::prelude::*;
use vstd::string::StringExecFns;

use crate::schema::{
    ApiDocsModel, ApiDocsModelObject, ApiDocsModelObjectType, ModelCatalog, RenderError,
    RenderErrorKind, RenderErrorView,
};

verus! {

/// Wraps a type expression in `Optional<...>` when the schema is not required.
pub open spec fn spec_wrap_optional(required: bool, t: Seq<char>) -> Seq<char> {
    if required {
        t
    } else {
        "Optional<"@ + t + ">"@
    }
}

/// The type expression a schema renders to: the kind's bare name for scalars,
/// `Array<...>` and `{ ... }` for the composite kinds, wrapped in
/// `Optional<...>` when the schema is not required; or the error rendering
/// stops with.
pub open spec fn spec_render_field_type(m: ApiDocsModel) -> Result<Seq<char>, RenderErrorView>
    decreases m, 0int, 0int,
{
    let inner: Result<Seq<char>, RenderErrorView> = match m.kind {
        ApiDocsModelObjectType::String => Ok("string"@),
        ApiDocsModelObjectType::Number => Ok("number"@),
        ApiDocsModelObjectType::Boolean => Ok("boolean"@),
        ApiDocsModelObjectType::Array => (match m.model {
            Some(elem) => (match spec_render_field_type(*elem) {
                Ok(t) => Ok("Array<"@ + t + ">"@),
                Err(e) => Err(e),
            }),
            None => Err(
                RenderErrorView {
                    kind: RenderErrorKind::MissingSubschema,
                    field: None,
                    model: None,
                },
            ),
        }),
        ApiDocsModelObjectType::Object => (match m.fields {
            Some(fs) => (match spec_render_fields_from(fs.entries, 0) {
                Ok(t) => Ok("{ "@ + t + " }"@),
                Err(e) => Err(e),
            }),
            None => Err(
                RenderErrorView { kind: RenderErrorKind::MissingFields, field: None, model: None },
            ),
        }),
        ApiDocsModelObjectType::Enum => Err(
            RenderErrorView { kind: RenderErrorKind::UnsupportedKind, field: None, model: None },
        ),
    };
    match inner {
        Ok(t) => Ok(spec_wrap_optional(m.required, t)),
        Err(e) => Err(e),
    }
}

/// One field declaration line, `name[?]: type,`; an error coming up from the
/// field's type is given this field's name when it carries none yet.
pub open spec fn spec_render_field(name: Seq<char>, m: ApiDocsModel) -> Result<
    Seq<char>,
    RenderErrorView,
>
    decreases m, 1int, 0int,
{
    match spec_render_field_type(m) {
        Ok(t) => Ok(
            name + (if m.required {
                Seq::<char>::empty()
            } else {
                "?"@
            }) + ": "@ + t + ","@,
        ),
        Err(e) => Err(
            RenderErrorView {
                kind: e.kind,
                field: if e.field is Some {
                    e.field
                } else {
                    Some(name)
                },
                model: e.model,
            },
        ),
    }
}

/// The field lines of the entries from position `i` on, concatenated in
/// entry order; or the first error, in entry order.
pub open spec fn spec_render_fields_from(
    entries: Vec<(String, ApiDocsModel)>,
    i: int,
) -> Result<Seq<char>, RenderErrorView>
    decreases entries, 2int, entries@.len() - i,
{
    if i < 0 || i >= entries@.len() {
        Ok(Seq::<char>::empty())
    } else {
        match spec_render_field(entries@[i].0@, entries@[i].1) {
            Ok(line) => (match spec_render_fields_from(entries, i + 1) {
                Ok(rest) => Ok(line + rest),
                Err(e) => Err(e),
            }),
            Err(e) => Err(e),
        }
    }
}

/// Renders a schema's type expression.
pub fn render_field_type(m: &ApiDocsModel) -> (r: Result<String, RenderError>)
    ensures
        (match r {
            Ok(s) => spec_render_field_type(*m) == Ok::<Seq<char>, RenderErrorView>(s@),
            Err(e) => spec_render_field_type(*m) == Err::<Seq<char>, RenderErrorView>(e@),
        }),
    decreases *m, 0int, 0int,
{
    let inner: Result<String, RenderError> = match m.kind {
        ApiDocsModelObjectType::String => Ok("string".to_owned()),
        ApiDocsModelObjectType::Number => Ok("number".to_owned()),
        ApiDocsModelObjectType::Boolean => Ok("boolean".to_owned()),
        ApiDocsModelObjectType::Array => (match &m.model {
            Some(elem) => (match render_field_type(&**elem) {
                Ok(t) => {
                    let mut s = "Array<".to_owned();
                    s.append(t.as_str());
                    s.append(">");
                    Ok(s)
                },
                Err(e) => Err(e),
            }),
            None => Err(
                RenderError { kind: RenderErrorKind::MissingSubschema, field: None, model: None },
            ),
        }),
        ApiDocsModelObjectType::Object => (match &m.fields {
            Some(fs) => (match render_fields(fs) {
                Ok(t) => {
                    let mut s = "{ ".to_owned();
                    s.append(t.as_str());
                    s.append(" }");
                    Ok(s)
                },
                Err(e) => Err(e),
            }),
            None => Err(
                RenderError { kind: RenderErrorKind::MissingFields, field: None, model: None },
            ),
        }),
        ApiDocsModelObjectType::Enum => Err(
            RenderError { kind: RenderErrorKind::UnsupportedKind, field: None, model: None },
        ),
    };
    match inner {
        Ok(t) => {
            if m.required {
                Ok(t)
            } else {
                let mut s = "Optional<".to_owned();
                s.append(t.as_str());
                s.append(">");
                Ok(s)
            }
        },
        Err(e) => Err(e),
    }
}

/// Renders one named field as a field declaration line.
pub fn render_field(name: &str, model: &ApiDocsModel) -> (r: Result<String, RenderError>)
    ensures
        (match r {
            Ok(s) => spec_render_field(name@, *model) == Ok::<Seq<char>, RenderErrorView>(s@),
            Err(e) => spec_render_field(name@, *model) == Err::<Seq<char>, RenderErrorView>(e@),
        }),
    decreases *model, 1int, 0int,
{
    match render_field_type(model) {
        Ok(t) => {
            let mut s = name.to_owned();
            if !model.required {
                s.append("?");
            }
            s.append(": ");
            s.append(t.as_str());
            s.append(",");
            proof {
                assert(s@ =~= name@ + (if model.required {
                    Seq::<char>::empty()
                } else {
                    "?"@
                }) + ": "@ + t@ + ","@);
            }
            Ok(s)
        },
        Err(e) => {
            let field = match e.field {
                Some(f) => Some(f),
                None => Some(name.to_owned()),
            };
            Err(RenderError { kind: e.kind, field, model: e.model })
        },
    }
}

/// Renders all fields of one model, in ascending field-name order.
pub fn render_fields(obj: &ApiDocsModelObject) -> (r: Result<String, RenderError>)
    ensures
        (match r {
            Ok(s) => spec_render_fields_from(obj.entries, 0) == Ok::<
                Seq<char>,
                RenderErrorView,
            >(s@),
            Err(e) => spec_render_fields_from(obj.entries, 0) == Err::<
                Seq<char>,
                RenderErrorView,
            >(e@),
        }),
    decreases obj.entries, 2int, 0int,
{
    let mut out = String::new();
    let n = obj.entries.len();
    let mut i: usize = 0;
    while i < n
        invariant
            0 <= i <= n,
            n == obj.entries@.len(),
            (match spec_render_fields_from(obj.entries, i as int) {
                Ok(rest) => spec_render_fields_from(obj.entries, 0) == Ok::<
                    Seq<char>,
                    RenderErrorView,
                >(out@ + rest),
                Err(e) => spec_render_fields_from(obj.entries, 0) == Err::<
                    Seq<char>,
                    RenderErrorView,
                >(e),
            }),
        decreases n - i,
    {
        let entry = &obj.entries[i];
        match render_field(entry.0.as_str(), &entry.1) {
            Ok(line) => {
                proof {
                    match spec_render_fields_from(obj.entries, i as int + 1) {
                        Ok(rest) => {
                            assert(out@ + (line@ + rest) =~= (out@ + line@) + rest);
                        },
                        Err(e) => {},
                    }
                }
                out.append(line.as_str());
            },
            Err(e) => {
                return Err(e);
            },
        }
        i += 1;
    }
    proof {
        assert(out@ + Seq::<char>::empty() =~= out@);
    }
    Ok(out)
}

/// What a model name becomes as an interface name: its upper-camel-case form.
pub uninterp spec fn pascal_of(s: Seq<char>) -> Seq<char>;

/// Relies on heck's `AsPascalCase`: converts a name to upper camel case,
/// a pure function of the name's characters alone.
#[verifier::external_body]
fn to_pascal_case(name: &str) -> (r: String)
    ensures
        r@ == pascal_of(name@),
{
    heck::AsPascalCase(name).to_string()
}

/// One interface declaration, `interface <Name> { <fields> }`. The name must
/// already be in display casing; `spec_render_interfaces` converts it.
pub open spec fn spec_render_interface(name: Seq<char>, obj: ApiDocsModelObject) -> Result<
    Seq<char>,
    RenderErrorView,
> {
    match spec_render_fields_from(obj.entries, 0) {
        Ok(t) => Ok("interface "@ + name + " { "@ + t + " }"@),
        Err(e) => Err(e),
    }
}

/// The interface declarations of the catalog entries from position `i` on,
/// each under its model name's upper-camel-case form, concatenated in entry
/// order; or the first error, given its model's name when it carries none.
pub open spec fn spec_render_interfaces_from(
    models: Vec<(String, ApiDocsModelObject)>,
    i: int,
) -> Result<Seq<char>, RenderErrorView>
    decreases models@.len() - i,
{
    if i < 0 || i >= models@.len() {
        Ok(Seq::<char>::empty())
    } else {
        match spec_render_interface(pascal_of(models@[i].0@), models@[i].1) {
            Ok(decl) => (match spec_render_interfaces_from(models, i + 1) {
                Ok(rest) => Ok(decl + rest),
                Err(e) => Err(e),
            }),
            Err(e) => Err(
                RenderErrorView {
                    kind: e.kind,
                    field: e.field,
                    model: if e.model is Some {
                        e.model
                    } else {
                        Some(models@[i].0@)
                    },
                },
            ),
        }
    }
}

/// The whole output text of a catalog: every model's interface declaration,
/// in ascending model-name order when the catalog is well formed.
pub open spec fn spec_render_interfaces(models: ModelCatalog) -> Result<
    Seq<char>,
    RenderErrorView,
> {
    spec_render_interfaces_from(models.entries, 0)
}

/// Renders one named interface declaration.
pub fn render_interface(name: &str, obj: &ApiDocsModelObject) -> (r: Result<String, RenderError>)
    ensures
        (match r {
            Ok(s) => spec_render_interface(name@, *obj) == Ok::<Seq<char>, RenderErrorView>(s@),
            Err(e) => spec_render_interface(name@, *obj) == Err::<Seq<char>, RenderErrorView>(e@),
        }),
{
    match render_fields(obj) {
        Ok(t) => {
            let mut s = "interface ".to_owned();
            s.append(name);
            s.append(" { ");
            s.append(t.as_str());
            s.append(" }");
            Ok(s)
        },
        Err(e) => Err(e),
    }
}

/// Renders the whole catalog: one interface declaration per model, model
/// names converted to upper camel case.
pub fn render_interfaces(models: &ModelCatalog) -> (r: Result<String, RenderError>)
    ensures
        (match r {
            Ok(s) => spec_render_interfaces(*models) == Ok::<Seq<char>, RenderErrorView>(s@),
            Err(e) => spec_render_interfaces(*models) == Err::<Seq<char>, RenderErrorView>(e@),
        }),
{
    let mut out = String::new();
    let n = models.entries.len();
    let mut i: usize = 0;
    while i < n
        invariant
            0 <= i <= n,
            n == models.entries@.len(),
            (match spec_render_interfaces_from(models.entries, i as int) {
                Ok(rest) => spec_render_interfaces_from(models.entries, 0) == Ok::<
                    Seq<char>,
                    RenderErrorView,
                >(out@ + rest),
                Err(e) => spec_render_interfaces_from(models.entries, 0) == Err::<
                    Seq<char>,
                    RenderErrorView,
                >(e),
            }),
        decreases n - i,
    {
        let entry = &models.entries[i];
        let display_name = to_pascal_case(entry.0.as_str());
        match render_interface(display_name.as_str(), &entry.1) {
            Ok(decl) => {
                proof {
                    match spec_render_interfaces_from(models.entries, i as int + 1) {
                        Ok(rest) => {
                            assert(out@ + (decl@ + rest) =~= (out@ + decl@) + rest);
                        },
                        Err(e) => {},
                    }
                }
                out.append(decl.as_str());
            },
            Err(e) => {
                let model = match e.model {
                    Some(m) => Some(m),
                    None => Some(entry.0.clone()),
                };
                return Err(RenderError { kind: e.kind, field: e.field, model });
            },
        }
        i += 1;
    }
    proof {
        assert(out@ + Seq::<char>::empty() =~= out@);
    }
    Ok(out)
}

} // verus!
