//! Conversion of a scene tree into a PDF object graph: a recursive node
//! dispatcher, a group compositor, a reference allocator and scoped resource
//! dictionaries, with contracts proved by Verus.
pub mod model;
pub mod resources;
pub mod context;
pub mod render;
pub mod laws;
