//! Element types of tensors and block types of quantized tensors.

use vstd::prelude::*;

verus! {

/// Element type of a tensor.
#[derive(Clone, Copy, Debug, PartialEq, Eq, Structural)]
pub enum DType {
    U8,
    U32,
    I16,
    I32,
    I64,
    BF16,
    F16,
    F32,
    F64,
    F8E4M3,
    F6E2M3,
    F6E3M2,
    F4,
    F8E8M0,
}

impl DType {
    /// Bytes of one element; zero for the types packed below one byte.
    pub open spec fn spec_size_in_bytes(self) -> nat {
        match self {
            DType::U8 | DType::F8E4M3 | DType::F8E8M0 => 1,
            DType::I16 | DType::BF16 | DType::F16 => 2,
            DType::U32 | DType::I32 | DType::F32 => 4,
            DType::I64 | DType::F64 => 8,
            DType::F6E2M3 | DType::F6E3M2 | DType::F4 => 0,
        }
    }

    /// Bytes of one element; zero for the types packed below one byte.
    pub fn size_in_bytes(&self) -> (r: usize)
        ensures
            r == self.spec_size_in_bytes(),
    {
        match *self {
            DType::U8 | DType::F8E4M3 | DType::F8E8M0 => 1,
            DType::I16 | DType::BF16 | DType::F16 => 2,
            DType::U32 | DType::I32 | DType::F32 => 4,
            DType::I64 | DType::F64 => 8,
            DType::F6E2M3 | DType::F6E3M2 | DType::F4 => 0,
        }
    }
}

/// Block type of a quantized tensor.
#[derive(Clone, Copy, Debug, PartialEq, Eq, Structural)]
pub enum GgmlDType {
    F32,
    F16,
    BF16,
    Q4_0,
    Q4_1,
    Q5_0,
    Q5_1,
    Q8_0,
    Q8_1,
    Q2K,
    Q3K,
    Q4K,
    Q5K,
    Q6K,
    Q8K,
}

impl GgmlDType {
    /// Bytes of one block.
    pub open spec fn spec_type_size(self) -> nat {
        match self {
            GgmlDType::F32 => 4,
            GgmlDType::F16 | GgmlDType::BF16 => 2,
            GgmlDType::Q4_0 => 18,
            GgmlDType::Q4_1 => 20,
            GgmlDType::Q5_0 => 22,
            GgmlDType::Q5_1 => 24,
            GgmlDType::Q8_0 => 34,
            GgmlDType::Q8_1 => 36,
            GgmlDType::Q2K => 84,
            GgmlDType::Q3K => 110,
            GgmlDType::Q4K => 144,
            GgmlDType::Q5K => 176,
            GgmlDType::Q6K => 210,
            GgmlDType::Q8K => 292,
        }
    }

    /// Elements of one block.
    pub open spec fn spec_block_size(self) -> nat {
        match self {
            GgmlDType::F32 | GgmlDType::F16 | GgmlDType::BF16 => 1,
            GgmlDType::Q4_0 | GgmlDType::Q4_1 | GgmlDType::Q5_0 | GgmlDType::Q5_1
            | GgmlDType::Q8_0 | GgmlDType::Q8_1 => 32,
            _ => 256,
        }
    }

    /// Whether elements come in blocks that share a scale.
    pub open spec fn is_block_quantized(self) -> bool {
        !(self is F32 || self is F16 || self is BF16)
    }

    /// Bytes of one block.
    pub fn type_size(&self) -> (r: usize)
        ensures
            r == self.spec_type_size(),
            r > 0,
    {
        match *self {
            GgmlDType::F32 => 4,
            GgmlDType::F16 | GgmlDType::BF16 => 2,
            GgmlDType::Q4_0 => 18,
            GgmlDType::Q4_1 => 20,
            GgmlDType::Q5_0 => 22,
            GgmlDType::Q5_1 => 24,
            GgmlDType::Q8_0 => 34,
            GgmlDType::Q8_1 => 36,
            GgmlDType::Q2K => 84,
            GgmlDType::Q3K => 110,
            GgmlDType::Q4K => 144,
            GgmlDType::Q5K => 176,
            GgmlDType::Q6K => 210,
            GgmlDType::Q8K => 292,
        }
    }

    /// Elements of one block.
    pub fn block_size(&self) -> (r: usize)
        ensures
            r == self.spec_block_size(),
            r > 0,
    {
        match *self {
            GgmlDType::F32 | GgmlDType::F16 | GgmlDType::BF16 => 1,
            GgmlDType::Q4_0
            | GgmlDType::Q4_1
            | GgmlDType::Q5_0
            | GgmlDType::Q5_1
            | GgmlDType::Q8_0
            | GgmlDType::Q8_1 => 32,
            _ => 256,
        }
    }
}

} // verus!
