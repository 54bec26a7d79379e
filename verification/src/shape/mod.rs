//! Shapes: how the outline of each is put together.
pub mod polygon;
