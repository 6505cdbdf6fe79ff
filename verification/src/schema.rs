//! The in-memory form of the schema document: a catalog of named models,
//! each model a sorted mapping from field names to field schemas.

use vstd::prelude::*;
use vstd::string::StringExecFns;

use crate::sorted_map::SortedMap;

verus! {

/// Relies on serde_json::Value as an opaque carrier for the literal members
/// of an `Enum` schema; the renderer never reads inside one.
#[verifier::external_type_specification]
#[verifier::external_body]
pub struct ExJsonValue(serde_json::Value);

/// The closed set of schema kinds.
#[derive(Clone, Copy, PartialEq, Eq, Structural, Debug)]
pub enum ApiDocsModelObjectType {
    String,
    Number,
    Boolean,
    Object,
    Array,
    Enum,
}

/// One field's or value's schema: its kind, the structure belonging to that
/// kind (`fields` for `Object`, `model` for `Array`, `members` for `Enum`),
/// and whether the value is required. A schema whose kind's structure is
/// absent is malformed input; rendering reports it rather than assuming a
/// default.
pub struct ApiDocsModel {
    pub kind: ApiDocsModelObjectType,
    /// Field map, present when `kind` is `Object`.
    pub fields: Option<ApiDocsModelObject>,
    /// Element schema, present when `kind` is `Array`.
    pub model: Option<Box<ApiDocsModel>>,
    /// Literal members, present when `kind` is `Enum`.
    pub members: Option<Vec<serde_json::Value>>,
    pub required: bool,
}

/// The named field set of one model, sorted by field name.
pub type ApiDocsModelObject = SortedMap<ApiDocsModel>;

/// All named models of the schema document, sorted by model name.
pub type ModelCatalog = SortedMap<ApiDocsModelObject>;

/// What went wrong while rendering.
#[derive(Clone, Copy, PartialEq, Eq, Structural, Debug)]
pub enum RenderErrorKind {
    /// An `Array` schema has no element schema.
    MissingSubschema,
    /// An `Object` schema has no field map.
    MissingFields,
    /// An `Enum` schema was met; no rendering is defined for one.
    UnsupportedKind,
}

/// A rendering error, carrying the innermost field name at which rendering
/// failed and the model name under which it failed, where those are known.
#[derive(Debug)]
pub struct RenderError {
    pub kind: RenderErrorKind,
    pub field: Option<String>,
    pub model: Option<String>,
}

/// The mathematical content of a `RenderError`: the names as character
/// sequences.
pub struct RenderErrorView {
    pub kind: RenderErrorKind,
    pub field: Option<Seq<char>>,
    pub model: Option<Seq<char>>,
}

impl View for RenderError {
    type V = RenderErrorView;

    open spec fn view(&self) -> RenderErrorView {
        RenderErrorView { kind: self.kind, field: self.field.deep_view(), model: self.model.deep_view() }
    }
}

impl RenderErrorKind {
    /// The wording of each error kind.
    pub open spec fn spec_text(self) -> Seq<char> {
        match self {
            RenderErrorKind::MissingSubschema => "`model` must be present if `type` is `array`"@,
            RenderErrorKind::MissingFields => "`fields` must be set if `type` is `object`"@,
            RenderErrorKind::UnsupportedKind => "no rendering is defined for `type` `enum`"@,
        }
    }

    pub fn text(&self) -> (r: &'static str)
        ensures
            r@ == self.spec_text(),
    {
        match self {
            RenderErrorKind::MissingSubschema => "`model` must be present if `type` is `array`",
            RenderErrorKind::MissingFields => "`fields` must be set if `type` is `object`",
            RenderErrorKind::UnsupportedKind => "no rendering is defined for `type` `enum`",
        }
    }
}

impl RenderErrorView {
    /// The kind's wording, then the model and field names where they are known.
    pub open spec fn spec_message(self) -> Seq<char> {
        self.kind.spec_text() + (match self.model {
            Some(m) => " (model `"@ + m + "`)"@,
            None => Seq::<char>::empty(),
        }) + (match self.field {
            Some(f) => " (field `"@ + f + "`)"@,
            None => Seq::<char>::empty(),
        })
    }
}

impl RenderError {
    /// One line locating the faulty input: what is wrong, and under which
    /// model and field name it was found.
    pub fn message(&self) -> (r: String)
        ensures
            r@ == self@.spec_message(),
    {
        let mut s = self.kind.text().to_owned();
        if let Some(m) = &self.model {
            s.append(" (model `");
            s.append(m.as_str());
            s.append("`)");
        }
        if let Some(f) = &self.field {
            s.append(" (field `");
            s.append(f.as_str());
            s.append("`)");
        }
        proof {
            assert(s@ =~= self@.spec_message());
        }
        s
    }
}

} // verus!
