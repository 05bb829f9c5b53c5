//! Rotary position embeddings.
//!
//! The three flavours share one shader and differ in a word of the uniform.
//! The tables of cosines and sines have shape (T, D/2), or (B, T, D/2) where
//! each batch entry has its own.

use crate::dtype::DType;
use crate::error::{Error, Op, Quantity};
use crate::layout::{lemma_axis_at_most_product, product, Layout, LayoutView};
use crate::ops::copy::{copy_refusal, copy_strided_src};
use crate::ops::dispatch::{
    is_wide, linear_dispatch, linear_groups, out_storage, output_storage, Dispatch, DispatchView,
    Kernel, KernelView, Lift, Substitution, Template,
};
use crate::ops::scalar::{copy_dims, same_dims};
use crate::storage::{StorageView, WgpuStorage};
use vstd::prelude::*;

verus! {

/// Which pairs of a head are rotated together, and how the source is laid
/// out.
#[derive(Clone, Copy, Debug, PartialEq, Eq, Structural)]
pub enum RopeVariant {
    /// Neighbours, in a (B, H, T, D) tensor.
    Interleaved,
    /// The first half with the second, in a (B, H, T, D) tensor.
    SplitHalves,
    /// The first half with the second, in a (B, T, H, D) tensor.
    SplitHalvesThd,
}

impl RopeVariant {
    /// Number of the variant in the uniform.
    pub open spec fn spec_id(self) -> u32 {
        match self {
            RopeVariant::Interleaved => 0,
            RopeVariant::SplitHalves => 1,
            RopeVariant::SplitHalvesThd => 2,
        }
    }

    /// Key of the variant's pipeline.
    pub open spec fn spec_key(self) -> Seq<char> {
        match self {
            RopeVariant::Interleaved => "rope:f32:int"@,
            RopeVariant::SplitHalves => "rope:f32:split"@,
            RopeVariant::SplitHalvesThd => "rope:f32:thd"@,
        }
    }

    /// Number of the variant in the uniform.
    pub fn id(self) -> (r: u32)
        ensures
            r == self.spec_id(),
    {
        match self {
            RopeVariant::Interleaved => 0,
            RopeVariant::SplitHalves => 1,
            RopeVariant::SplitHalvesThd => 2,
        }
    }
}

/// Key of the variant's pipeline.
pub fn pipeline_key(variant: RopeVariant) -> (r: &'static str)
    ensures
        r@ == variant.spec_key(),
{
    match variant {
        RopeVariant::Interleaved => "rope:f32:int",
        RopeVariant::SplitHalves => "rope:f32:split",
        RopeVariant::SplitHalvesThd => "rope:f32:thd",
    }
}

/// Batch, heads, positions and head width of a source of shape `dims`.
pub struct RopeShape {
    pub b: usize,
    pub h: usize,
    pub t: usize,
    pub d: usize,
}

/// The shape of a rank-four source.
pub open spec fn rope_shape(variant: RopeVariant, dims: Seq<usize>) -> RopeShape {
    match variant {
        RopeVariant::SplitHalvesThd => RopeShape { b: dims[0], h: dims[2], t: dims[1], d: dims[3] },
        _ => RopeShape { b: dims[0], h: dims[1], t: dims[2], d: dims[3] },
    }
}

/// Every byte of the tensor has a 64-bit address.
pub open spec fn addressable(l: LayoutView) -> bool {
    &&& l.wf()
    &&& product(l.dims) * 4 <= u64::MAX
    &&& l.start_offset * 4 <= u64::MAX
}

/// How a contiguous f32 operand is bound. The kernel reads every buffer from
/// its first element on, so that a tensor that starts later in its storage is
/// gathered first; otherwise `in_place` says how.
pub open spec fn bound(in_place: Lift, l: LayoutView) -> Lift {
    if l.start_offset == 0 {
        in_place
    } else {
        Lift::Gather
    }
}

/// How an operand is brought to contiguous f32 where one of the three is
/// bf16, or why it cannot be.
pub open spec fn lifted(dtype: DType, l: LayoutView) -> Result<Lift, Error> {
    if dtype is F32 && l.is_contiguous() {
        Ok(bound(Lift::Clone, l))
    } else if dtype is F32 {
        match copy_refusal(DType::F32, DType::F32, 0, l) {
            Some(e) => Err(e),
            None => Ok(Lift::Gather),
        }
    } else if dtype is BF16 {
        Ok(Lift::Widen)
    } else {
        Err(Error::UnsupportedDType { op: Op::Rope, dtype })
    }
}

/// How each operand is bound, or why the operands' dtypes and layouts are
/// refused.
pub open spec fn rope_lifts(
    src: DType,
    src_l: LayoutView,
    cos: DType,
    cos_l: LayoutView,
    sin: DType,
    sin_l: LayoutView,
) -> Result<Seq<Lift>, Error> {
    if src is BF16 || cos is BF16 || sin is BF16 {
        match (lifted(src, src_l), lifted(cos, cos_l), lifted(sin, sin_l)) {
            (Err(e), _, _) => Err(e),
            (_, Err(e), _) => Err(e),
            (_, _, Err(e)) => Err(e),
            (Ok(a), Ok(b), Ok(c)) => Ok(seq![a, b, c]),
        }
    } else if src is F32 && cos is F32 && sin is F32 {
        if src_l.is_contiguous() && cos_l.is_contiguous() && sin_l.is_contiguous() {
            Ok(seq![bound(Lift::AsIs, src_l), bound(Lift::AsIs, cos_l), bound(Lift::AsIs, sin_l)])
        } else {
            Err(Error::NotContiguous { op: Op::Rope })
        }
    } else if src is F16 || cos is F16 || sin is F16 {
        Err(Error::F16Unsupported { op: Op::Rope })
    } else {
        Err(
            Error::UnsupportedDType {
                op: Op::Rope,
                dtype: if !(src is F32) {
                    src
                } else if !(cos is F32) {
                    cos
                } else {
                    sin
                },
            },
        )
    }
}

/// Why the shapes do not describe a rotation, if they do not; the first of
/// several reasons counts.
pub open spec fn rope_shape_refusal(
    variant: RopeVariant,
    dims: Seq<usize>,
    cos: Seq<usize>,
    sin: Seq<usize>,
) -> Option<Error> {
    let op = Op::Rope;
    let s = rope_shape(variant, dims);
    if dims.len() != 4 {
        Some(Error::BadRank { op, rank: dims.len() as usize })
    } else if s.d % 2 != 0 {
        Some(Error::OddHeadDim { dim: s.d })
    } else if cos.len() != 2 && cos.len() != 3 {
        Some(Error::BadRank { op, rank: cos.len() as usize })
    } else if sin != cos || cos.last() != s.d / 2 || (cos.len() == 3 && cos[0] != s.b)
        || cos[cos.len() - 2] != s.t {
        Some(Error::ShapeMismatch { op })
    } else if product(dims) == 0 {
        Some(Error::Empty { op })
    } else if product(dims) / 2 > u32::MAX {
        Some(
            Error::ExceedsU32 {
                op,
                what: Quantity::PairCount,
                value: (product(dims) / 2) as usize,
            },
        )
    } else if s.d > u32::MAX {
        Some(Error::ExceedsU32 { op, what: Quantity::Dim { axis: 3 }, value: s.d })
    } else {
        None
    }
}

/// The dispatch of a rotation, one thread per pair.
pub open spec fn rope_dispatch(
    variant: RopeVariant,
    src: StorageView,
    dims: Seq<usize>,
    per_batch: bool,
    lifts: Seq<Lift>,
) -> DispatchView {
    let s = rope_shape(variant, dims);
    let n_pairs = product(dims) / 2;
    DispatchView {
        kernel: KernelView {
            key: variant.spec_key(),
            template: Template::Rope,
            substitutions: seq![("__SCALAR_T__"@, "f32"@)],
            meta: seq![
                n_pairs as u32,
                s.b as u32,
                s.h as u32,
                s.t as u32,
                s.d as u32,
                if per_batch {
                    1u32
                } else {
                    0u32
                },
                variant.spec_id(),
                0u32,
            ],
            groups: linear_groups(n_pairs),
        },
        lifts,
        output: out_storage("wgpu-rope-out"@, product(dims), DType::F32, src.device),
        result_dtype: if src.dtype is BF16 {
            DType::BF16
        } else {
            DType::F32
        },
    }
}

/// How a contiguous f32 operand is bound.
fn bind(in_place: Lift, l: &Layout) -> (r: Lift)
    ensures
        r == bound(in_place, l@),
{
    if l.start_offset == 0 {
        in_place
    } else {
        Lift::Gather
    }
}

/// How an operand is brought to contiguous f32, or why it cannot be.
fn lift(s: &WgpuStorage, l: &Layout) -> (r: Result<Lift, Error>)
    requires
        addressable(l@),
    ensures
        r == lifted(s.dtype, l@),
{
    match s.dtype {
        DType::F32 => {
            if l.is_contiguous() {
                return Ok(bind(Lift::Clone, l));
            }
            match copy_strided_src(s, s, 0, l) {
                Ok(_) => Ok(Lift::Gather),
                Err(e) => Err(e),
            }
        },
        DType::BF16 => Ok(Lift::Widen),
        other => Err(Error::UnsupportedDType { op: Op::Rope, dtype: other }),
    }
}

fn is_bf16(dtype: DType) -> (r: bool)
    ensures
        r == (dtype is BF16),
{
    match dtype {
        DType::BF16 => true,
        _ => false,
    }
}

/// How the operands are bound, or why their dtypes and layouts are refused.
fn lift_operands(
    src: &WgpuStorage,
    src_l: &Layout,
    cos: &WgpuStorage,
    cos_l: &Layout,
    sin: &WgpuStorage,
    sin_l: &Layout,
) -> (r: Result<Vec<Lift>, Error>)
    requires
        addressable(src_l@),
        addressable(cos_l@),
        addressable(sin_l@),
    ensures
        match r {
            Ok(v) => rope_lifts(src.dtype, src_l@, cos.dtype, cos_l@, sin.dtype, sin_l@) == Ok::<
                Seq<Lift>,
                Error,
            >(v@),
            Err(e) => rope_lifts(src.dtype, src_l@, cos.dtype, cos_l@, sin.dtype, sin_l@) == Err::<
                Seq<Lift>,
                Error,
            >(e),
        },
{
    let mut lifts: Vec<Lift> = Vec::new();
    if is_bf16(src.dtype) || is_bf16(cos.dtype) || is_bf16(sin.dtype) {
        match lift(src, src_l) {
            Ok(l) => lifts.push(l),
            Err(e) => {
                return Err(e);
            },
        }
        match lift(cos, cos_l) {
            Ok(l) => lifts.push(l),
            Err(e) => {
                return Err(e);
            },
        }
        match lift(sin, sin_l) {
            Ok(l) => lifts.push(l),
            Err(e) => {
                return Err(e);
            },
        }
        proof {
            assert(lifts@ =~= seq![lifts@[0], lifts@[1], lifts@[2]]);
        }
        return Ok(lifts);
    }
    if src.dtype != DType::F32 || cos.dtype != DType::F32 || sin.dtype != DType::F32 {
        if src.dtype == DType::F16 || cos.dtype == DType::F16 || sin.dtype == DType::F16 {
            return Err(Error::F16Unsupported { op: Op::Rope });
        }
        let dtype: DType = if src.dtype != DType::F32 {
            src.dtype
        } else if cos.dtype != DType::F32 {
            cos.dtype
        } else {
            sin.dtype
        };
        return Err(Error::UnsupportedDType { op: Op::Rope, dtype });
    }
    if !src_l.is_contiguous() || !cos_l.is_contiguous() || !sin_l.is_contiguous() {
        return Err(Error::NotContiguous { op: Op::Rope });
    }
    lifts.push(bind(Lift::AsIs, src_l));
    lifts.push(bind(Lift::AsIs, cos_l));
    lifts.push(bind(Lift::AsIs, sin_l));
    proof {
        assert(lifts@ =~= seq![
            bound(Lift::AsIs, src_l@),
            bound(Lift::AsIs, cos_l@),
            bound(Lift::AsIs, sin_l@),
        ]);
    }
    Ok(lifts)
}

/// The dispatch of the rotation of the tensor that `src_l` describes in
/// `src`, and the shape of its result, which is the source's. Position `t`
/// takes the row of the tables that their layouts describe. Where an operand
/// is bf16, all three are brought to contiguous f32 first, and the result
/// takes the source's dtype.
pub fn rope(
    variant: RopeVariant,
    src: &WgpuStorage,
    src_l: &Layout,
    cos: &WgpuStorage,
    cos_l: &Layout,
    sin: &WgpuStorage,
    sin_l: &Layout,
) -> (r: Result<(Dispatch, Vec<usize>), Error>)
    requires
        addressable(src_l@),
        addressable(cos_l@),
        addressable(sin_l@),
    ensures
        match (rope_lifts(src.dtype, src_l@, cos.dtype, cos_l@, sin.dtype, sin_l@), r) {
            (Err(e), _) => r is Err && r->Err_0 == e,
            (Ok(lifts), Ok((d, shape))) => {
                &&& rope_shape_refusal(variant, src_l@.dims, cos_l@.dims, sin_l@.dims) is None
                &&& d@ == rope_dispatch(
                    variant,
                    src@,
                    src_l@.dims,
                    cos_l@.dims.len() == 3,
                    lifts,
                )
                &&& shape@ == src_l@.dims
            },
            (Ok(_), Err(e)) => rope_shape_refusal(variant, src_l@.dims, cos_l@.dims, sin_l@.dims)
                == Some(e),
        },
{
    let op: Op = Op::Rope;
    let lifts: Vec<Lift> = match lift_operands(src, src_l, cos, cos_l, sin, sin_l) {
        Ok(v) => v,
        Err(e) => {
            return Err(e);
        },
    };
    let dims: &Vec<usize> = &src_l.dims;
    if dims.len() != 4 {
        return Err(Error::BadRank { op, rank: dims.len() });
    }
    let s: RopeShape = match variant {
        RopeVariant::Interleaved | RopeVariant::SplitHalves => RopeShape {
            b: dims[0],
            h: dims[1],
            t: dims[2],
            d: dims[3],
        },
        RopeVariant::SplitHalvesThd => RopeShape {
            b: dims[0],
            h: dims[2],
            t: dims[1],
            d: dims[3],
        },
    };
    if s.d % 2 != 0 {
        return Err(Error::OddHeadDim { dim: s.d });
    }
    let table: &Vec<usize> = &cos_l.dims;
    let table_rank: usize = table.len();
    if table_rank != 2 && table_rank != 3 {
        return Err(Error::BadRank { op, rank: table_rank });
    }
    if !same_dims(&sin_l.dims, table) {
        return Err(Error::ShapeMismatch { op });
    }
    if table[table_rank - 1] != s.d / 2 {
        return Err(Error::ShapeMismatch { op });
    }
    if table_rank == 3 && table[0] != s.b {
        return Err(Error::ShapeMismatch { op });
    }
    if table[table_rank - 2] != s.t {
        return Err(Error::ShapeMismatch { op });
    }
    let n: usize = src_l.elem_count();
    if n == 0 {
        return Err(Error::Empty { op });
    }
    let n_pairs: usize = n / 2;
    if is_wide(n_pairs) {
        return Err(Error::ExceedsU32 { op, what: Quantity::PairCount, value: n_pairs });
    }
    if is_wide(s.d) {
        return Err(Error::ExceedsU32 { op, what: Quantity::Dim { axis: 3 }, value: s.d });
    }
    proof {
        lemma_rope_extents(src_l@.dims);
    }
    let mut meta: Vec<u32> = Vec::new();
    meta.push(n_pairs as u32);
    meta.push(s.b as u32);
    meta.push(s.h as u32);
    meta.push(s.t as u32);
    meta.push(s.d as u32);
    meta.push(
        if table_rank == 3 {
            1
        } else {
            0
        },
    );
    meta.push(variant.id());
    meta.push(0);
    let mut substitutions: Vec<Substitution> = Vec::new();
    substitutions.push(Substitution { marker: "__SCALAR_T__", text: "f32" });
    let result_dtype: DType = if is_bf16(src.dtype) {
        DType::BF16
    } else {
        DType::F32
    };
    let ghost lifted_view = lifts@;
    let d = Dispatch {
        kernel: Kernel {
            key: pipeline_key(variant).to_owned(),
            template: Template::Rope,
            substitutions,
            meta,
            groups: linear_dispatch(n_pairs as u32),
        },
        lifts,
        output: output_storage("wgpu-rope-out", n, DType::F32, src.device),
        result_dtype,
    };
    proof {
        let want = rope_dispatch(
            variant,
            src@,
            src_l@.dims,
            cos_l@.dims.len() == 3,
            lifted_view,
        );
        assert(d@.kernel.meta =~= want.kernel.meta);
        assert(d@.kernel.substitutions =~= want.kernel.substitutions);
        assert(d@ =~= want);
    }
    Ok((d, copy_dims(&src_l.dims)))
}

/// With an even head width and at most `u32::MAX` pairs, no other extent of
/// the source exceeds the number of pairs.
proof fn lemma_rope_extents(dims: Seq<usize>)
    requires
        dims.len() == 4,
        dims[3] % 2 == 0,
        product(dims) > 0,
    ensures
        dims[0] <= product(dims) / 2,
        dims[1] <= product(dims) / 2,
        dims[2] <= product(dims) / 2,
        product(dims) == dims[0] * dims[1] * dims[2] * dims[3],
{
    let head = dims.drop_last();
    lemma_product_four(dims);
    let p = product(head);
    let half = (dims[3] / 2) as nat;
    assert(p * (2 * half) == product(dims));
    assert(p > 0 && half > 0 && (p * (2 * half)) / 2 == p * half && p * half >= p)
        by (nonlinear_arith)
        requires
            p * (2 * half) > 0,
    ;
    lemma_axis_at_most_product(head, 0);
    lemma_axis_at_most_product(head, 1);
    lemma_axis_at_most_product(head, 2);
}

proof fn lemma_product_four(dims: Seq<usize>)
    requires
        dims.len() == 4,
    ensures
        product(dims) == dims[0] * dims[1] * dims[2] * dims[3],
{
    let c = dims.drop_last();
    let b = c.drop_last();
    let a = b.drop_last();
    assert(a.drop_last() =~= Seq::<usize>::empty());
    assert(product(a) == dims[0]) by {
        assert(product(a.drop_last()) == 1);
        assert(product(a) == product(a.drop_last()) * (a.last() as nat));
    }
    assert(product(b) == dims[0] * dims[1]);
    assert(product(c) == dims[0] * dims[1] * dims[2]);
}

/// A rotation reads the tensors that the layouts describe: an operand is
/// bound in its own buffer only where that starts with the tensor, and is
/// gathered, or widened, everywhere else.
pub proof fn law_bound_as_described(
    src: DType,
    src_l: LayoutView,
    cos: DType,
    cos_l: LayoutView,
    sin: DType,
    sin_l: LayoutView,
)
    ensures
        rope_lifts(src, src_l, cos, cos_l, sin, sin_l) matches Ok(lifts) ==> {
            let ls = seq![src_l, cos_l, sin_l];
            &&& lifts.len() == 3
            &&& forall|i: int|
                0 <= i < 3 && ((#[trigger] lifts[i]) is AsIs || lifts[i] is Clone)
                    ==> ls[i].is_contiguous() && ls[i].start_offset == 0
        },
{
}

/// A rotation has one thread for each pair of the source, and every element
/// of the source is in one pair.
pub proof fn law_pairs_cover_source(variant: RopeVariant, dims: Seq<usize>)
    requires
        dims.len() == 4,
        dims[3] % 2 == 0,
        product(dims) > 0,
    ensures
        ({
            let s = rope_shape(variant, dims);
            &&& product(dims) / 2 == s.b * s.h * s.t * (s.d / 2)
            &&& 2 * (product(dims) / 2) == product(dims)
        }),
{
    lemma_product_four(dims);
    let s = rope_shape(variant, dims);
    let (b, h, t, d) = (s.b as int, s.h as int, s.t as int, (s.d / 2) as int);
    assert(b * h * t * (2 * d) == b * t * h * (2 * d) && b * h * t * (2 * d) == 2 * (b * h * t * d))
        by (nonlinear_arith);
    assert(s.d == 2 * d);
}

} // verus!
