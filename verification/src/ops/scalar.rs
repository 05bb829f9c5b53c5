//! Scalar types of the element-wise kernels, and how operands become them.

use crate::dtype::DType;
use crate::layout::{Layout, LayoutView};
use crate::ops::dispatch::Lift;
use vstd::prelude::*;

verus! {

/// Scalar type that a kernel is compiled for.
#[derive(Clone, Copy, Debug, PartialEq, Eq, Structural)]
pub enum ScalarDType {
    F32,
    F16,
}

impl ScalarDType {
    /// Name of the type in shaders.
    pub open spec fn spec_wgsl_name(self) -> Seq<char> {
        match self {
            ScalarDType::F32 => "f32"@,
            ScalarDType::F16 => "f16"@,
        }
    }

    /// Name of the type in shaders.
    pub fn wgsl_name(self) -> (r: &'static str)
        ensures
            r@ == self.spec_wgsl_name(),
    {
        match self {
            ScalarDType::F32 => "f32",
            ScalarDType::F16 => "f16",
        }
    }

    /// The dtype of tensors of the type.
    pub fn dtype(self) -> (r: DType)
        ensures
            r == match self {
                ScalarDType::F32 => DType::F32,
                ScalarDType::F16 => DType::F16,
            },
    {
        match self {
            ScalarDType::F32 => DType::F32,
            ScalarDType::F16 => DType::F16,
        }
    }

    /// Bytes of one scalar.
    pub fn elem_bytes(self) -> (r: u64)
        ensures
            r == match self {
                ScalarDType::F32 => 4u64,
                ScalarDType::F16 => 2u64,
            },
    {
        match self {
            ScalarDType::F32 => 4,
            ScalarDType::F16 => 2,
        }
    }
}

/// The layout by which an f32 kernel reads an operand: widening a bf16
/// operand leaves a contiguous tensor, an f32 operand is read in place.
pub open spec fn widened(dtype: DType, l: LayoutView) -> LayoutView {
    if dtype is BF16 {
        l.contiguous()
    } else {
        l
    }
}

/// How an f32 kernel takes an operand of dtype `dtype`.
pub open spec fn lift_of(dtype: DType) -> Lift {
    if dtype is BF16 {
        Lift::Widen
    } else {
        Lift::AsIs
    }
}

/// A copy of `v`.
pub fn copy_dims(v: &Vec<usize>) -> (r: Vec<usize>)
    ensures
        r@ == v@,
{
    let mut out: Vec<usize> = Vec::new();
    let mut i: usize = 0;
    while i < v.len()
        invariant
            0 <= i <= v@.len(),
            out@ == v@.take(i as int),
        decreases v.len() - i,
    {
        out.push(v[i]);
        proof {
            assert(v@.take(i + 1) =~= v@.take(i as int).push(v@[i as int]));
        }
        i = i + 1;
    }
    proof {
        assert(v@.take(i as int) =~= v@);
    }
    out
}

/// Whether two shapes are equal.
pub fn same_dims(a: &Vec<usize>, b: &Vec<usize>) -> (r: bool)
    ensures
        r == (a@ == b@),
{
    if a.len() != b.len() {
        return false;
    }
    let mut i: usize = 0;
    while i < a.len()
        invariant
            0 <= i <= a@.len(),
            a@.len() == b@.len(),
            forall|j: int| 0 <= j < i ==> a@[j] == b@[j],
        decreases a.len() - i,
    {
        if a[i] != b[i] {
            return false;
        }
        i = i + 1;
    }
    proof {
        assert(a@ =~= b@);
    }
    true
}

/// The layout by which an f32 kernel reads the operand, and how it takes it.
pub fn scalar_for(dtype: DType, layout: &Layout) -> (r: (Layout, Lift))
    requires
        layout@.wf(),
    ensures
        r.0@ == widened(dtype, layout@),
        r.0@.wf(),
        r.1 == lift_of(dtype),
{
    match dtype {
        DType::BF16 => (Layout::contiguous(copy_dims(&layout.dims)), Lift::Widen),
        _ => (
            Layout {
                dims: copy_dims(&layout.dims),
                stride: copy_dims(&layout.stride),
                start_offset: layout.start_offset,
            },
            Lift::AsIs,
        ),
    }
}

} // verus!
