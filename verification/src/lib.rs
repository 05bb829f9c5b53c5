//! Host-side logic of a WebGPU tensor backend, with its contracts proved.

pub mod analysis;
pub mod bytes;
pub mod cpu_storage;
pub mod device;
pub mod dtype;
pub mod error;
pub mod flash_attn;
pub mod gemma4;
pub mod layout;
pub mod ops;
pub mod quantized;
pub mod storage;
pub mod tensor;
pub mod text;
