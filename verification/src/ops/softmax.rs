//! Softmax along the last axis, one workgroup per row.

use crate::dtype::DType;
use crate::error::{Error, Op};
use crate::layout::{product, Layout, LayoutView};
use crate::ops::dispatch::{
    out_storage, output_storage, Dispatch, DispatchView, Groups, Kernel, KernelView, Lift, Outcome,
    OutcomeView, Substitution, Template,
};
use crate::ops::scalar::{copy_dims, lift_of, scalar_for, widened};
use crate::storage::{zeroed, StorageView, WgpuStorage};
use vstd::prelude::*;

verus! {

/// What a softmax asks of the GPU.
pub open spec fn softmax_outcome(src: StorageView, l: LayoutView) -> OutcomeView {
    let n_rows = product(l.dims.drop_last());
    let n = product(l.dims);
    let view = widened(src.dtype, l);
    if n == 0 {
        OutcomeView::Ready(zeroed(src.device, src.dtype, l.dims))
    } else {
        OutcomeView::Run(
            DispatchView {
                kernel: KernelView {
                    key: "softmax_last_dim:f32"@,
                    template: Template::Softmax,
                    substitutions: seq![("__SCALAR_T__"@, "f32"@)],
                    meta: seq![
                        n_rows as usize as u32,
                        l.dims.last() as u32,
                        view.start_offset as u32,
                        0u32,
                    ],
                    groups: Groups { x: n_rows as usize as u32, y: 1, z: 1 },
                },
                lifts: seq![lift_of(src.dtype)],
                output: out_storage("wgpu-softmax-out"@, n, DType::F32, src.device),
                result_dtype: src.dtype,
            },
        )
    }
}

/// Why a softmax is refused, if it is; the first of several reasons counts.
pub open spec fn softmax_refusal(dtype: DType, l: LayoutView) -> Option<Error> {
    let op = Op::Softmax;
    if dtype is F16 {
        Some(Error::F16Unsupported { op })
    } else if !(dtype is F32 || dtype is BF16) {
        Some(Error::UnsupportedDType { op, dtype })
    } else if !l.is_contiguous() {
        Some(Error::NotContiguous { op })
    } else if l.dims.len() == 0 {
        Some(Error::BadRank { op, rank: 0 })
    } else {
        None
    }
}

/// The softmax along the last axis of the contiguous tensor that `layout`
/// describes in `src`, and the shape of its result. A bf16 tensor is widened,
/// and the result narrowed.
pub fn softmax_last_dim(src: &WgpuStorage, layout: &Layout) -> (r: Result<
    (Outcome, Vec<usize>),
    Error,
>)
    requires
        layout@.wf(),
        product(layout@.dims) * 4 <= u64::MAX - 3,
    ensures
        match r {
            Ok((o, shape)) => softmax_refusal(src.dtype, layout@) is None && o@ == softmax_outcome(
                src@,
                layout@,
            ) && shape@ == layout@.dims,
            Err(e) => softmax_refusal(src.dtype, layout@) == Some(e),
        },
{
    let op: Op = Op::Softmax;
    match src.dtype {
        DType::F32 | DType::BF16 => {},
        DType::F16 => {
            return Err(Error::F16Unsupported { op });
        },
        other => {
            return Err(Error::UnsupportedDType { op, dtype: other });
        },
    }
    let (view, lift): (Layout, Lift) = scalar_for(src.dtype, layout);
    if !layout.is_contiguous() {
        return Err(Error::NotContiguous { op });
    }
    let rank: usize = layout.dims.len();
    if rank == 0 {
        return Err(Error::BadRank { op, rank });
    }
    let row_len: usize = layout.dims[rank - 1];
    let n: usize = layout.elem_count();
    if n == 0 {
        return match WgpuStorage::alloc_zeros(src.device, src.dtype, layout.dims.as_slice()) {
            Ok(s) => Ok((Outcome::Ready(s), copy_dims(&layout.dims))),
            Err(e) => Err(e),
        };
    }
    let ghost rows = product(layout@.dims.drop_last());
    proof {
        let d = row_len as nat;
        assert(d > 0 && (rows * d) / d == rows) by (nonlinear_arith)
            requires
                rows * d > 0,
        ;
    }
    let n_rows: usize = n / row_len;
    let mut meta: Vec<u32> = Vec::new();
    let n_rows_word: u32 = #[verifier::truncate]
    (n_rows as u32);
    meta.push(n_rows_word);
    meta.push(
        #[verifier::truncate]
        (row_len as u32),
    );
    meta.push(
        #[verifier::truncate]
        (view.start_offset as u32),
    );
    meta.push(0);
    let mut substitutions: Vec<Substitution> = Vec::new();
    substitutions.push(Substitution { marker: "__SCALAR_T__", text: "f32" });
    let mut lifts: Vec<Lift> = Vec::new();
    lifts.push(lift);
    let d = Dispatch {
        kernel: Kernel {
            key: "softmax_last_dim:f32".to_owned(),
            template: Template::Softmax,
            substitutions,
            meta,
            groups: Groups { x: n_rows_word, y: 1, z: 1 },
        },
        lifts,
        output: output_storage("wgpu-softmax-out", n, DType::F32, src.device),
        result_dtype: src.dtype,
    };
    proof {
        let want = softmax_outcome(src@, layout@)->Run_0;
        assert(d@.kernel.meta =~= want.kernel.meta);
        assert(d@.kernel.substitutions =~= want.kernel.substitutions);
        assert(d@ =~= want);
    }
    Ok((Outcome::Run(d), copy_dims(&layout.dims)))
}

} // verus!
