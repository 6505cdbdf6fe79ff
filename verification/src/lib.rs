//! Generates textual type-interface declarations from a JSON-described API
//! schema: a catalog of named models, each a sorted mapping from field names
//! to recursive field schemas.

pub mod laws;
pub mod render;
pub mod schema;
pub mod sorted_map;
pub mod text_order;

pub use render::{render_field, render_field_type, render_fields, render_interface, render_interfaces};
pub use schema::{
    ApiDocsModel, ApiDocsModelObject, ApiDocsModelObjectType, ModelCatalog, RenderError,
    RenderErrorKind,
};
pub use sorted_map::SortedMap;
