//! `mul * x + add` for every element `x`.

use crate::dtype::DType;
use crate::error::{Error, Op, Quantity};
use crate::layout::{product, Layout, LayoutView};
use crate::ops::dispatch::{
    find_wide, first_wide, is_wide, lemma_axes_fit, linear_dispatch, linear_groups, out_storage,
    output_storage, padded4, push_padded, Dispatch, DispatchView, Kernel, KernelView, Lift,
    MAX_RANK, Substitution, Template,
};
use crate::ops::scalar::{lift_of, scalar_for, widened};
use crate::storage::{StorageView, WgpuStorage};
use vstd::prelude::*;

verus! {

/// The dispatch on a tensor of layout `l`; `mul` and `add` are the bit
/// patterns of the two f32 numbers.
pub open spec fn affine_dispatch(src: StorageView, l: LayoutView, mul: u32, add: u32)
    -> DispatchView {
    let n = product(l.dims);
    let view = widened(src.dtype, l);
    DispatchView {
        kernel: KernelView {
            key: "affine:f32"@,
            template: Template::Affine,
            substitutions: seq![("__SCALAR_T__"@, "f32"@)],
            meta: seq![n as u32, l.dims.len() as u32, view.start_offset as u32, 0u32] + padded4(
                l.dims,
                1,
            ) + padded4(view.stride, 0) + seq![mul, add, 0u32, 0u32],
            groups: linear_groups(n),
        },
        lifts: seq![lift_of(src.dtype)],
        output: out_storage("wgpu-affine-out"@, n, DType::F32, src.device),
        result_dtype: src.dtype,
    }
}

/// Why a tensor of layout `l` is refused, if it is; the first of several
/// reasons counts.
pub open spec fn affine_refusal(dtype: DType, l: LayoutView) -> Option<Error> {
    let view = widened(dtype, l);
    let op = Op::Affine;
    if dtype is F16 {
        Some(Error::F16Unsupported { op })
    } else if !(dtype is F32 || dtype is BF16) {
        Some(Error::UnsupportedDType { op, dtype })
    } else if l.dims.len() > MAX_RANK {
        Some(Error::RankTooLarge { op, rank: l.dims.len() as usize })
    } else if product(l.dims) == 0 {
        Some(Error::Empty { op })
    } else if product(l.dims) > u32::MAX {
        Some(
            Error::ExceedsU32 {
                op,
                what: Quantity::ElementCount,
                value: product(l.dims) as usize,
            },
        )
    } else if first_wide(view.stride, 0) is Some {
        let axis = first_wide(view.stride, 0)->0 as usize;
        Some(
            Error::ExceedsU32 {
                op,
                what: Quantity::Stride { axis },
                value: view.stride[axis as int],
            },
        )
    } else if view.start_offset > u32::MAX {
        Some(Error::ExceedsU32 { op, what: Quantity::StartOffset, value: view.start_offset })
    } else {
        None
    }
}

/// The dispatch on the tensor that `layout` describes in `src`; `mul` and
/// `add` are the bit patterns of the two f32 numbers. A bf16 tensor is
/// widened, and the result narrowed.
pub fn affine(src: &WgpuStorage, layout: &Layout, mul: u32, add: u32) -> (r: Result<
    Dispatch,
    Error,
>)
    requires
        layout@.wf(),
    ensures
        match r {
            Ok(d) => affine_refusal(src.dtype, layout@) is None && d@ == affine_dispatch(
                src@,
                layout@,
                mul,
                add,
            ),
            Err(e) => affine_refusal(src.dtype, layout@) == Some(e),
        },
{
    let op: Op = Op::Affine;
    match src.dtype {
        DType::F32 | DType::BF16 => {},
        DType::F16 => {
            return Err(Error::F16Unsupported { op });
        },
        other => {
            return Err(Error::UnsupportedDType { op, dtype: other });
        },
    }
    let rank: usize = layout.dims.len();
    if rank > MAX_RANK {
        return Err(Error::RankTooLarge { op, rank });
    }
    let n: usize = layout.elem_count();
    if n == 0 {
        return Err(Error::Empty { op });
    }
    if is_wide(n) {
        return Err(Error::ExceedsU32 { op, what: Quantity::ElementCount, value: n });
    }
    proof {
        lemma_axes_fit(layout@.dims);
    }
    let (view, lift): (Layout, Lift) = scalar_for(src.dtype, layout);
    if let Some(axis) = find_wide(view.stride.as_slice()) {
        return Err(
            Error::ExceedsU32 { op, what: Quantity::Stride { axis }, value: view.stride[axis] },
        );
    }
    if is_wide(view.start_offset) {
        return Err(
            Error::ExceedsU32 { op, what: Quantity::StartOffset, value: view.start_offset },
        );
    }
    let mut meta: Vec<u32> = Vec::new();
    meta.push(n as u32);
    meta.push(rank as u32);
    meta.push(view.start_offset as u32);
    meta.push(0);
    push_padded(&mut meta, layout.dims.as_slice(), 1);
    push_padded(&mut meta, view.stride.as_slice(), 0);
    meta.push(mul);
    meta.push(add);
    meta.push(0);
    meta.push(0);
    let mut substitutions: Vec<Substitution> = Vec::new();
    substitutions.push(Substitution { marker: "__SCALAR_T__", text: "f32" });
    let mut lifts: Vec<Lift> = Vec::new();
    lifts.push(lift);
    let d = Dispatch {
        kernel: Kernel {
            key: "affine:f32".to_owned(),
            template: Template::Affine,
            substitutions,
            meta,
            groups: linear_dispatch(n as u32),
        },
        lifts,
        output: output_storage("wgpu-affine-out", n, DType::F32, src.device),
        result_dtype: src.dtype,
    };
    proof {
        let want = affine_dispatch(src@, layout@, mul, add);
        assert(d@.kernel.meta =~= want.kernel.meta);
        assert(d@ =~= want);
    }
    Ok(d)
}

} // verus!
