//! Tensor programs: what a model computes, as a list of typed tensor
//! operations that a backend carries out one after another.

pub mod meaning;
pub mod op;
pub mod program;
