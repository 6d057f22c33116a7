//! Combinatorial core of Dual Marching Cubes: cell and edge indexing, the
//! sign pattern of each cell, the zero-crossing edges of a sampled field, and
//! the emission of dual quads over a vertex cache keyed by (edge partition, cell).
//!
//! Everything that works on field values (sampling, locating a crossing on an
//! edge, placing a vertex by minimising its quadratic error) takes place outside
//! this crate, which sees the field only through the signs of its samples.
use vstd::prelude::*;

pub mod index;
pub mod cube;
pub mod grid;
pub mod configs;
pub mod topology;
pub mod laws;
