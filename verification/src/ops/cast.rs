//! Conversions between element types.

use crate::dtype::DType;
use crate::error::{Error, Op, Quantity};
use crate::layout::{product, Layout, LayoutView};
use crate::ops::dispatch::{
    is_wide, linear_dispatch, linear_groups, out_storage, output_storage, Dispatch, DispatchView,
    Kernel, KernelView, Lift, Outcome, OutcomeView, Substitution, Template,
};
use crate::storage::{zeroed, StorageView, WgpuStorage};
use vstd::prelude::*;
use vstd::string::*;

verus! {

/// Name of the dtype in shaders, where it has one.
pub open spec fn shader_type(dtype: DType) -> Option<Seq<char>> {
    match dtype {
        DType::F32 => Some("f32"@),
        DType::U32 => Some("u32"@),
        DType::I32 => Some("i32"@),
        _ => None,
    }
}

/// Name of the dtype in shaders.
pub fn wgsl_type(dtype: DType) -> (r: Result<&'static str, Error>)
    ensures
        match r {
            Ok(s) => shader_type(dtype) == Some(s@),
            Err(e) => shader_type(dtype) is None && e == (Error::UnsupportedDType {
                op: Op::Cast,
                dtype,
            }),
        },
{
    match dtype {
        DType::F32 => Ok("f32"),
        DType::U32 => Ok("u32"),
        DType::I32 => Ok("i32"),
        _ => Err(Error::UnsupportedDType { op: Op::Cast, dtype }),
    }
}

/// Whether there is a kernel for the conversion: between f32 and either
/// integer type.
pub open spec fn castable(from: DType, to: DType) -> bool {
    ||| (from is U32 || from is I32) && to is F32
    ||| from is F32 && (to is U32 || to is I32)
}

/// What a conversion asks of the GPU.
pub open spec fn cast_outcome(src: StorageView, l: LayoutView, to: DType) -> OutcomeView {
    let n = product(l.dims);
    let (a, b) = (shader_type(src.dtype)->0, shader_type(to)->0);
    if n == 0 {
        OutcomeView::Ready(zeroed(src.device, to, l.dims))
    } else {
        OutcomeView::Run(
            DispatchView {
                kernel: KernelView {
                    key: "cast:"@ + a + ":"@ + b,
                    template: Template::Cast,
                    substitutions: seq![("__SRC_T__"@, a), ("__DST_T__"@, b)],
                    meta: seq![n as u32, l.start_offset as u32, 0u32, 0u32],
                    groups: linear_groups(n),
                },
                lifts: seq![Lift::AsIs],
                output: out_storage("wgpu-cast-out"@, n, to, src.device),
                result_dtype: to,
            },
        )
    }
}

/// Why a conversion is refused, if it is; the first of several reasons
/// counts.
pub open spec fn cast_refusal(from: DType, l: LayoutView, to: DType) -> Option<Error> {
    let op = Op::Cast;
    if !l.is_contiguous() {
        Some(Error::NotContiguous { op })
    } else if shader_type(from) is None {
        Some(Error::UnsupportedDType { op, dtype: from })
    } else if shader_type(to) is None {
        Some(Error::UnsupportedDType { op, dtype: to })
    } else if product(l.dims) == 0 {
        None
    } else if product(l.dims) > u32::MAX {
        Some(
            Error::ExceedsU32 {
                op,
                what: Quantity::ElementCount,
                value: product(l.dims) as usize,
            },
        )
    } else if !castable(from, to) {
        Some(Error::UnsupportedCast { from, to })
    } else {
        None
    }
}

/// The conversion of the contiguous tensor that `layout` describes in `src`.
pub fn to_dtype(src: &WgpuStorage, layout: &Layout, to: DType) -> (r: Result<Outcome, Error>)
    requires
        layout@.wf(),
    ensures
        match r {
            Ok(o) => cast_refusal(src.dtype, layout@, to) is None && o@ == cast_outcome(
                src@,
                layout@,
                to,
            ),
            Err(e) => cast_refusal(src.dtype, layout@, to) == Some(e),
        },
{
    let op: Op = Op::Cast;
    if !layout.is_contiguous() {
        return Err(Error::NotContiguous { op });
    }
    let from_type: &'static str = match wgsl_type(src.dtype) {
        Ok(s) => s,
        Err(e) => {
            return Err(e);
        },
    };
    let to_type: &'static str = match wgsl_type(to) {
        Ok(s) => s,
        Err(e) => {
            return Err(e);
        },
    };
    let n: usize = layout.elem_count();
    if n == 0 {
        return match WgpuStorage::alloc_zeros(src.device, to, layout.dims.as_slice()) {
            Ok(s) => Ok(Outcome::Ready(s)),
            Err(e) => Err(e),
        };
    }
    if is_wide(n) {
        return Err(Error::ExceedsU32 { op, what: Quantity::ElementCount, value: n });
    }
    let known: bool = match (src.dtype, to) {
        (DType::U32, DType::F32) => true,
        (DType::I32, DType::F32) => true,
        (DType::F32, DType::U32) => true,
        (DType::F32, DType::I32) => true,
        _ => false,
    };
    if !known {
        return Err(Error::UnsupportedCast { from: src.dtype, to });
    }
    let mut key: String = "cast:".to_owned();
    key.append(from_type);
    key.append(":");
    key.append(to_type);
    let mut meta: Vec<u32> = Vec::new();
    meta.push(n as u32);
    meta.push(
        #[verifier::truncate]
        (layout.start_offset as u32),
    );
    meta.push(0);
    meta.push(0);
    let mut substitutions: Vec<Substitution> = Vec::new();
    substitutions.push(Substitution { marker: "__SRC_T__", text: from_type });
    substitutions.push(Substitution { marker: "__DST_T__", text: to_type });
    let mut lifts: Vec<Lift> = Vec::new();
    lifts.push(Lift::AsIs);
    let d = Dispatch {
        kernel: Kernel {
            key,
            template: Template::Cast,
            substitutions,
            meta,
            groups: linear_dispatch(n as u32),
        },
        lifts,
        output: output_storage("wgpu-cast-out", n, to, src.device),
        result_dtype: to,
    };
    proof {
        let want = cast_outcome(src@, layout@, to)->Run_0;
        assert(d@.kernel.meta =~= want.kernel.meta);
        assert(d@.kernel.substitutions =~= want.kernel.substitutions);
        assert(d@ =~= want);
    }
    Ok(Outcome::Run(d))
}

} // verus!
