//! The discrete core of a generator of procedural 2D vector art.
//!
//! A picture is made of points and of shapes drawn at each point. Where the
//! points lie and how a shape bulges is arithmetic on real numbers, and is
//! left to the caller. What this crate holds is everything that can be said
//! in whole numbers: which indices a point set has and in which order, how
//! many basis steps a lattice point lies from the origin, the bookkeeping of
//! blue-noise sampling, which corners and side points each curve of a
//! polygon's outline runs through, and how colors are read and written.
//! Every function carries a contract that Verus checks.
pub mod canvas;
pub mod color;
pub mod decimal;
pub mod hex;
mod lemmas;
pub mod point_set;
pub mod shape;
pub mod utils;

