//! Quantized tensors: their storage, their products with f32 tensors, and the
//! 8-bit blocks that activations are packed into.

pub mod command;
pub mod q8k;
pub mod elements;
pub mod matmul;
pub mod storage;
