//! The data side of a small textured-mesh renderer: the vertex layout that the
//! vertex shader reads, the binding of shader variables to the renderer's
//! parameters, and the per-frame parameter set.
pub mod layout;
pub mod link;
pub mod params;

pub use layout::{packed_layout, vertex_attributes, vertex_fields, AttributeFormat, VertexField, ELEM_SIZE};
pub use link::{create_link, LinkError, ParamLink, ProgramVars};
pub use params::{ParamTable, ShaderParams};
