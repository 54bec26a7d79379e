//! Point sets: which indices each one has, and what whole numbers place them.
pub mod lattice;
pub mod poisson_disk;
pub mod vogel;
