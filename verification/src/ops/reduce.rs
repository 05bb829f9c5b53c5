//! Reductions over a set of axes.
//!
//! A reduced axis stays in the output's shape with one entry. A mean is a sum
//! followed by an affine operation.

use crate::dtype::DType;
use crate::error::{Error, Op, Quantity};
use crate::layout::{countable, lemma_product_positive, product, Layout, LayoutView};
use crate::ops::dispatch::{
    find_wide_pair, first_wide_pair, is_wide, linear_dispatch, linear_groups, out_storage,
    output_storage, padded4, push_padded, Dispatch, DispatchView, Kernel, KernelView, Lift,
    MAX_RANK, Substitution, Template,
};
use crate::ops::scalar::{lift_of, scalar_for, widened};
use crate::storage::{StorageView, WgpuStorage};
use vstd::prelude::*;

verus! {

/// Reductions that a tensor can be asked for.
#[derive(Clone, Copy, Debug, PartialEq, Eq, Structural)]
pub enum ReduceOp {
    Sum,
    Min,
    Max,
    ArgMin,
    ArgMax,
}

/// Reductions that have a kernel.
#[derive(Clone, Copy, Debug, PartialEq, Eq, Structural)]
pub enum ReduceKind {
    Sum,
    Min,
    Max,
}

impl ReduceKind {
    /// Key of the reduction's pipeline.
    pub open spec fn spec_cache_key(self) -> Seq<char> {
        match self {
            ReduceKind::Sum => "reduce:sum:f32"@,
            ReduceKind::Min => "reduce:min:f32"@,
            ReduceKind::Max => "reduce:max:f32"@,
        }
    }

    /// Shader expression that the accumulator starts with.
    pub open spec fn spec_init_expr(self) -> Seq<char> {
        match self {
            ReduceKind::Sum => "0.0"@,
            ReduceKind::Max => "-1.0e38"@,
            ReduceKind::Min => "1.0e38"@,
        }
    }

    /// Shader code that takes an element into the accumulator.
    pub open spec fn spec_combine_body(self) -> Seq<char> {
        match self {
            ReduceKind::Sum => "return acc + v;"@,
            ReduceKind::Max => "return max(acc, v);"@,
            ReduceKind::Min => "return min(acc, v);"@,
        }
    }

    /// Number of the reduction in the uniform.
    pub open spec fn spec_op_id(self) -> u32 {
        match self {
            ReduceKind::Sum => 0,
            ReduceKind::Min => 1,
            ReduceKind::Max => 2,
        }
    }

    /// Key of the reduction's pipeline.
    pub fn cache_key(self) -> (r: &'static str)
        ensures
            r@ == self.spec_cache_key(),
    {
        match self {
            ReduceKind::Sum => "reduce:sum:f32",
            ReduceKind::Min => "reduce:min:f32",
            ReduceKind::Max => "reduce:max:f32",
        }
    }

    /// Shader expression that the accumulator starts with. The extremes are
    /// finite, so that no infinity enters a reduction.
    pub fn init_expr(self) -> (r: &'static str)
        ensures
            r@ == self.spec_init_expr(),
    {
        match self {
            ReduceKind::Sum => "0.0",
            ReduceKind::Max => "-1.0e38",
            ReduceKind::Min => "1.0e38",
        }
    }

    /// Shader code that takes an element into the accumulator.
    pub fn combine_body(self) -> (r: &'static str)
        ensures
            r@ == self.spec_combine_body(),
    {
        match self {
            ReduceKind::Sum => "return acc + v;",
            ReduceKind::Max => "return max(acc, v);",
            ReduceKind::Min => "return min(acc, v);",
        }
    }

    /// Shader code that makes the result of the accumulator: nothing is done
    /// to it.
    pub fn finalize_body(self) -> (r: &'static str)
        ensures
            r@ == "return acc;"@,
    {
        "return acc;"
    }

    /// Number of the reduction in the uniform.
    pub fn op_id(self) -> (r: u32)
        ensures
            r == self.spec_op_id(),
    {
        match self {
            ReduceKind::Sum => 0,
            ReduceKind::Min => 1,
            ReduceKind::Max => 2,
        }
    }
}

/// Product of the axes of `dims` that are among `axes`, or of those that are
/// not.
pub open spec fn axes_product(dims: Seq<usize>, axes: Seq<usize>, among: bool) -> nat
    decreases dims.len(),
{
    if dims.len() == 0 {
        1
    } else {
        axes_product(dims.drop_last(), axes, among) * (if axes.contains((dims.len() - 1) as usize)
            == among {
            dims.last() as nat
        } else {
            1
        })
    }
}

/// Multiplying either group of axes from the front never leaves 32 or 64
/// bits, whichever `usize` has.
pub open spec fn reducible(dims: Seq<usize>, axes: Seq<usize>) -> bool {
    forall|i: int|
        0 <= i <= dims.len() ==> axes_product(#[trigger] dims.take(i), axes, true) <= usize::MAX
            && axes_product(dims.take(i), axes, false) <= usize::MAX
}

/// The reduced axes and the kept ones together make up the tensor: every
/// output element takes in the same number of input elements, and none is
/// left out.
pub proof fn law_reduction_partitions(dims: Seq<usize>, axes: Seq<usize>)
    ensures
        axes_product(dims, axes, false) * axes_product(dims, axes, true) == product(dims),
    decreases dims.len(),
{
    if dims.len() > 0 {
        let init = dims.drop_last();
        law_reduction_partitions(init, axes);
        let a = axes_product(init, axes, false);
        let b = axes_product(init, axes, true);
        let d = dims.last() as nat;
        let x = axes_product(dims, axes, false);
        let y = axes_product(dims, axes, true);
        let whole = product(dims);
        if axes.contains((dims.len() - 1) as usize) {
            assert(x * y == whole) by (nonlinear_arith)
                requires
                    x == a * 1,
                    y == b * d,
                    whole == (a * b) * d,
            ;
        } else {
            assert(x * y == whole) by (nonlinear_arith)
                requires
                    x == a * d,
                    y == b * 1,
                    whole == (a * b) * d,
            ;
        }
    } else {
        assert(axes_product(dims, axes, false) == 1 && axes_product(dims, axes, true) == 1);
        assert(product(dims) == 1);
    }
}

/// A tensor without empty axes can be reduced over any axes.
pub proof fn law_nonempty_is_reducible(dims: Seq<usize>, axes: Seq<usize>)
    requires
        countable(dims),
        product(dims) > 0,
    ensures
        reducible(dims, axes),
{
    lemma_product_positive(dims);
    assert forall|i: int| 0 <= i <= dims.len() implies axes_product(
        #[trigger] dims.take(i),
        axes,
        true,
    ) <= usize::MAX && axes_product(dims.take(i), axes, false) <= usize::MAX by {
        let head = dims.take(i);
        law_reduction_partitions(head, axes);
        assert(forall|j: int| 0 <= j < head.len() ==> head[j] == dims[j]);
        lemma_product_positive(head);
        let a = axes_product(head, axes, false);
        let b = axes_product(head, axes, true);
        assert(a <= a * b && b <= a * b) by (nonlinear_arith)
            requires
                a * b > 0,
        ;
        assert(product(head) <= usize::MAX);
    }
}

/// `dims` with the axes in `axes` cut to one entry, or with all others cut.
pub open spec fn cut(dims: Seq<usize>, axes: Seq<usize>, among: bool) -> Seq<usize> {
    Seq::new(
        dims.len(),
        |i: int|
            if axes.contains(i as usize) == among {
                1usize
            } else {
                dims[i]
            },
    )
}

/// One for each axis in `axes`, zero for the others.
pub open spec fn mask(rank: nat, axes: Seq<usize>) -> Seq<usize> {
    Seq::new(
        rank,
        |i: int|
            if axes.contains(i as usize) {
                1usize
            } else {
                0usize
            },
    )
}

/// Bit pattern of the divisor one.
pub const ONE_F32: u32 = 0x3f80_0000;

/// The dispatch of the reduction of a tensor over `axes`.
pub open spec fn reduce_dispatch(
    src: StorageView,
    l: LayoutView,
    axes: Seq<usize>,
    kind: ReduceKind,
) -> DispatchView {
    let n_out = axes_product(l.dims, axes, false);
    let view = widened(src.dtype, l);
    DispatchView {
        kernel: KernelView {
            key: kind.spec_cache_key(),
            template: Template::Reduce,
            substitutions: seq![
                ("__SCALAR_T__"@, "f32"@),
                ("__INIT__"@, kind.spec_init_expr()),
                ("__COMBINE__"@, kind.spec_combine_body()),
                ("__FINALIZE__"@, "return acc;"@),
            ],
            meta: seq![n_out as u32, l.dims.len() as u32, view.start_offset as u32, kind.spec_op_id()]
                + padded4(l.dims, 1) + padded4(view.stride, 0) + padded4(cut(l.dims, axes, true), 1)
                + padded4(mask(l.dims.len(), axes), 0) + padded4(cut(l.dims, axes, false), 1) + seq![
                ONE_F32,
                axes_product(l.dims, axes, true) as u32,
                0u32,
                0u32,
            ],
            groups: linear_groups(n_out),
        },
        lifts: seq![lift_of(src.dtype)],
        output: out_storage("wgpu-reduce-out"@, n_out, DType::F32, src.device),
        result_dtype: src.dtype,
    }
}

/// The first entry of `axes` from `from` on that is no axis of a tensor of
/// the given rank.
pub open spec fn first_outside(axes: Seq<usize>, rank: nat, from: nat) -> Option<usize>
    decreases axes.len() - from,
{
    if from >= axes.len() {
        None
    } else if axes[from as int] >= rank {
        Some(axes[from as int])
    } else {
        first_outside(axes, rank, from + 1)
    }
}

/// Why a tensor of layout `l` cannot be reduced over `axes`, if it cannot;
/// the first of several reasons counts.
pub open spec fn reduce_refusal(dtype: DType, l: LayoutView, axes: Seq<usize>) -> Option<Error> {
    let view = widened(dtype, l);
    let total = axes_product(l.dims, axes, true);
    let n_out = axes_product(l.dims, axes, false);
    let rank = l.dims.len();
    let op = Op::Reduce;
    if dtype is F16 {
        Some(Error::F16Unsupported { op })
    } else if !(dtype is F32 || dtype is BF16) {
        Some(Error::UnsupportedDType { op, dtype })
    } else if rank > MAX_RANK {
        Some(Error::RankTooLarge { op, rank: rank as usize })
    } else if rank == 0 {
        Some(Error::BadRank { op, rank: 0 })
    } else if first_outside(axes, rank, 0) is Some {
        Some(
            Error::DimOutOfRange { op, dim: first_outside(axes, rank, 0)->0, rank: rank as usize },
        )
    } else if first_wide_pair(l.dims, view.stride, 0) is Some {
        let (i, second) = first_wide_pair(l.dims, view.stride, 0)->0;
        let axis = i as usize;
        Some(
            if second {
                Error::ExceedsU32 {
                    op,
                    what: Quantity::Stride { axis },
                    value: view.stride[axis as int],
                }
            } else {
                Error::ExceedsU32 { op, what: Quantity::Dim { axis }, value: l.dims[axis as int] }
            },
        )
    } else if total > u32::MAX {
        Some(Error::ExceedsU32 { op, what: Quantity::ReduceTotal, value: total as usize })
    } else if n_out > u32::MAX {
        Some(Error::ExceedsU32 { op, what: Quantity::OutputCount, value: n_out as usize })
    } else if total == 0 {
        Some(Error::EmptyReduction)
    } else if n_out == 0 {
        Some(Error::Empty { op })
    } else if view.start_offset > u32::MAX {
        Some(Error::ExceedsU32 { op, what: Quantity::StartOffset, value: view.start_offset })
    } else {
        None
    }
}

/// The two lists hold the same axes, in whatever order and however often.
pub open spec fn same_axes(a: Seq<usize>, b: Seq<usize>) -> bool {
    forall|d: usize| a.contains(d) <==> b.contains(d)
}

/// A reduction depends on its axes as a set: neither their order nor
/// repetitions matter to its dispatch, and it is refused for the one list
/// exactly where it is for the other; for the same reason, unless that names
/// an axis that the tensor does not have.
pub proof fn law_axes_are_a_set(
    src: StorageView,
    l: LayoutView,
    a: Seq<usize>,
    b: Seq<usize>,
    kind: ReduceKind,
)
    requires
        same_axes(a, b),
    ensures
        reduce_dispatch(src, l, a, kind) == reduce_dispatch(src, l, b, kind),
        reducible(l.dims, a) == reducible(l.dims, b),
        match (reduce_refusal(src.dtype, l, a), reduce_refusal(src.dtype, l, b)) {
            (None, None) => true,
            (Some(Error::DimOutOfRange { .. }), Some(Error::DimOutOfRange { .. })) => true,
            (Some(e), Some(f)) => e == f,
            _ => false,
        },
{
    lemma_same_product(l.dims, a, b, true);
    lemma_same_product(l.dims, a, b, false);
    assert(cut(l.dims, a, true) =~= cut(l.dims, b, true));
    assert(cut(l.dims, a, false) =~= cut(l.dims, b, false));
    assert(mask(l.dims.len(), a) =~= mask(l.dims.len(), b));
    lemma_first_outside(a, l.dims.len(), 0);
    lemma_first_outside(b, l.dims.len(), 0);
    assert forall|i: int| 0 <= i <= l.dims.len() implies axes_product(
        #[trigger] l.dims.take(i),
        a,
        true,
    ) == axes_product(l.dims.take(i), b, true) && axes_product(l.dims.take(i), a, false)
        == axes_product(l.dims.take(i), b, false) by {
        lemma_same_product(l.dims.take(i), a, b, true);
        lemma_same_product(l.dims.take(i), a, b, false);
    }
    if first_outside(a, l.dims.len(), 0) is Some {
        let d = first_outside(a, l.dims.len(), 0)->0;
        assert(b.contains(d));
    }
    if first_outside(b, l.dims.len(), 0) is Some {
        let d = first_outside(b, l.dims.len(), 0)->0;
        assert(a.contains(d));
    }
}

proof fn lemma_same_product(dims: Seq<usize>, a: Seq<usize>, b: Seq<usize>, among: bool)
    requires
        same_axes(a, b),
    ensures
        axes_product(dims, a, among) == axes_product(dims, b, among),
    decreases dims.len(),
{
    if dims.len() > 0 {
        lemma_same_product(dims.drop_last(), a, b, among);
        assert(a.contains((dims.len() - 1) as usize) == b.contains((dims.len() - 1) as usize));
    }
}

proof fn lemma_first_outside(axes: Seq<usize>, rank: nat, from: nat)
    ensures
        match first_outside(axes, rank, from) {
            Some(d) => axes.contains(d) && d >= rank,
            None => forall|i: int| from <= i < axes.len() ==> #[trigger] axes[i] < rank,
        },
    decreases axes.len() - from,
{
    if from < axes.len() {
        if axes[from as int] < rank {
            lemma_first_outside(axes, rank, from + 1);
        }
    }
}

/// A reduction over no axes gives every element of the tensor its own result.
pub proof fn law_no_axes_keep_all(dims: Seq<usize>)
    ensures
        axes_product(dims, Seq::<usize>::empty(), false) == product(dims),
        axes_product(dims, Seq::<usize>::empty(), true) == 1,
        cut(dims, Seq::<usize>::empty(), true) == dims,
    decreases dims.len(),
{
    if dims.len() > 0 {
        law_no_axes_keep_all(dims.drop_last());
    }
    assert(cut(dims, Seq::<usize>::empty(), true) =~= dims);
}

/// Whether `axis` is among `axes`.
fn is_reduced(axes: &[usize], axis: usize) -> (r: bool)
    ensures
        r == axes@.contains(axis),
{
    let mut i: usize = 0;
    while i < axes.len()
        invariant
            0 <= i <= axes@.len(),
            forall|j: int| 0 <= j < i ==> axes@[j] != axis,
        decreases axes.len() - i,
    {
        if axes[i] == axis {
            proof {
                assert(axes@[i as int] == axis);
            }
            return true;
        }
        i = i + 1;
    }
    false
}

/// The first entry of `axes` that is no axis of a tensor of the given rank.
fn find_outside(axes: &[usize], rank: usize) -> (r: Option<usize>)
    ensures
        r == first_outside(axes@, rank as nat, 0),
{
    let mut i: usize = 0;
    while i < axes.len()
        invariant
            0 <= i <= axes@.len(),
            first_outside(axes@, rank as nat, 0) == first_outside(axes@, rank as nat, i as nat),
        decreases axes.len() - i,
    {
        if axes[i] >= rank {
            return Some(axes[i]);
        }
        i = i + 1;
    }
    None
}

/// The axes of a reduction, sorted into what is kept and what is reduced.
struct Partition {
    out_shape: Vec<usize>,
    reduce_shape: Vec<usize>,
    reduce_mask: Vec<usize>,
    total: usize,
    n_out: usize,
}

fn partition(dims: &Vec<usize>, axes: &[usize]) -> (r: Partition)
    requires
        reducible(dims@, axes@),
    ensures
        r.out_shape@ == cut(dims@, axes@, true),
        r.reduce_shape@ == cut(dims@, axes@, false),
        r.reduce_mask@ == mask(dims@.len(), axes@),
        r.total == axes_product(dims@, axes@, true),
        r.n_out == axes_product(dims@, axes@, false),
{
    let mut out_shape: Vec<usize> = Vec::new();
    let mut reduce_shape: Vec<usize> = Vec::new();
    let mut reduce_mask: Vec<usize> = Vec::new();
    let mut total: usize = 1;
    let mut n_out: usize = 1;
    let mut i: usize = 0;
    while i < dims.len()
        invariant
            0 <= i <= dims@.len(),
            reducible(dims@, axes@),
            out_shape@ == cut(dims@, axes@, true).take(i as int),
            reduce_shape@ == cut(dims@, axes@, false).take(i as int),
            reduce_mask@ == mask(dims@.len(), axes@).take(i as int),
            total == axes_product(dims@.take(i as int), axes@, true),
            n_out == axes_product(dims@.take(i as int), axes@, false),
        decreases dims.len() - i,
    {
        let d: usize = dims[i];
        let reduced: bool = is_reduced(axes, i);
        proof {
            assert(dims@.take(i + 1).drop_last() =~= dims@.take(i as int));
            assert(dims@.take(i + 1).last() == d);
            assert(axes_product(dims@.take(i + 1), axes@, true) == total * (if reduced {
                d as nat
            } else {
                1
            }));
            assert(axes_product(dims@.take(i + 1), axes@, false) == n_out * (if !reduced {
                d as nat
            } else {
                1
            }));
        }
        if reduced {
            out_shape.push(1);
            reduce_shape.push(d);
            reduce_mask.push(1);
            total = total * d;
        } else {
            out_shape.push(d);
            reduce_shape.push(1);
            reduce_mask.push(0);
            n_out = n_out * d;
        }
        proof {
            assert(out_shape@ =~= cut(dims@, axes@, true).take(i + 1));
            assert(reduce_shape@ =~= cut(dims@, axes@, false).take(i + 1));
            assert(reduce_mask@ =~= mask(dims@.len(), axes@).take(i + 1));
        }
        i = i + 1;
    }
    proof {
        assert(dims@.take(i as int) =~= dims@);
        assert(out_shape@ =~= cut(dims@, axes@, true));
        assert(reduce_shape@ =~= cut(dims@, axes@, false));
        assert(reduce_mask@ =~= mask(dims@.len(), axes@));
    }
    Partition { out_shape, reduce_shape, reduce_mask, total, n_out }
}

/// The dispatch of the reduction of the tensor that `layout` describes in
/// `src`, over `axes`. A bf16 tensor is widened, and the result narrowed.
pub fn reduce(src: &WgpuStorage, layout: &Layout, axes: &[usize], kind: ReduceKind) -> (r: Result<
    Dispatch,
    Error,
>)
    requires
        layout@.wf(),
        reducible(layout@.dims, axes@),
    ensures
        match r {
            Ok(d) => reduce_refusal(src.dtype, layout@, axes@) is None && d@ == reduce_dispatch(
                src@,
                layout@,
                axes@,
                kind,
            ),
            Err(e) => reduce_refusal(src.dtype, layout@, axes@) == Some(e),
        },
{
    let op: Op = Op::Reduce;
    match src.dtype {
        DType::F32 | DType::BF16 => {},
        DType::F16 => {
            return Err(Error::F16Unsupported { op });
        },
        other => {
            return Err(Error::UnsupportedDType { op, dtype: other });
        },
    }
    let rank: usize = layout.dims.len();
    if rank > MAX_RANK {
        return Err(Error::RankTooLarge { op, rank });
    }
    if rank == 0 {
        return Err(Error::BadRank { op, rank });
    }
    if let Some(dim) = find_outside(axes, rank) {
        return Err(Error::DimOutOfRange { op, dim, rank });
    }
    let (view, lift): (Layout, Lift) = scalar_for(src.dtype, layout);
    if let Some((axis, second)) = find_wide_pair(
        layout.dims.as_slice(),
        view.stride.as_slice(),
    ) {
        if second {
            return Err(
                Error::ExceedsU32 { op, what: Quantity::Stride { axis }, value: view.stride[axis] },
            );
        }
        return Err(
            Error::ExceedsU32 { op, what: Quantity::Dim { axis }, value: layout.dims[axis] },
        );
    }
    let p: Partition = partition(&layout.dims, axes);
    if is_wide(p.total) {
        return Err(Error::ExceedsU32 { op, what: Quantity::ReduceTotal, value: p.total });
    }
    if is_wide(p.n_out) {
        return Err(Error::ExceedsU32 { op, what: Quantity::OutputCount, value: p.n_out });
    }
    if p.total == 0 {
        return Err(Error::EmptyReduction);
    }
    if p.n_out == 0 {
        return Err(Error::Empty { op });
    }
    if is_wide(view.start_offset) {
        return Err(
            Error::ExceedsU32 { op, what: Quantity::StartOffset, value: view.start_offset },
        );
    }
    let mut meta: Vec<u32> = Vec::new();
    meta.push(p.n_out as u32);
    meta.push(rank as u32);
    meta.push(view.start_offset as u32);
    meta.push(kind.op_id());
    push_padded(&mut meta, layout.dims.as_slice(), 1);
    push_padded(&mut meta, view.stride.as_slice(), 0);
    push_padded(&mut meta, p.out_shape.as_slice(), 1);
    push_padded(&mut meta, p.reduce_mask.as_slice(), 0);
    push_padded(&mut meta, p.reduce_shape.as_slice(), 1);
    meta.push(ONE_F32);
    meta.push(p.total as u32);
    meta.push(0);
    meta.push(0);
    let mut substitutions: Vec<Substitution> = Vec::new();
    substitutions.push(Substitution { marker: "__SCALAR_T__", text: "f32" });
    substitutions.push(Substitution { marker: "__INIT__", text: kind.init_expr() });
    substitutions.push(Substitution { marker: "__COMBINE__", text: kind.combine_body() });
    substitutions.push(Substitution { marker: "__FINALIZE__", text: kind.finalize_body() });
    let mut lifts: Vec<Lift> = Vec::new();
    lifts.push(lift);
    let d = Dispatch {
        kernel: Kernel {
            key: kind.cache_key().to_owned(),
            template: Template::Reduce,
            substitutions,
            meta,
            groups: linear_dispatch(p.n_out as u32),
        },
        lifts,
        output: output_storage("wgpu-reduce-out", p.n_out, DType::F32, src.device),
        result_dtype: src.dtype,
    };
    proof {
        let want = reduce_dispatch(src@, layout@, axes@, kind);
        assert(d@.kernel.meta =~= want.kernel.meta);
        assert(d@.kernel.substitutions =~= want.kernel.substitutions);
        assert(d@ =~= want);
    }
    Ok(d)
}

/// The kernel behind a reduction, where there is one.
pub open spec fn kind_of(op: ReduceOp) -> Option<ReduceKind> {
    match op {
        ReduceOp::Sum => Some(ReduceKind::Sum),
        ReduceOp::Min => Some(ReduceKind::Min),
        ReduceOp::Max => Some(ReduceKind::Max),
        ReduceOp::ArgMin | ReduceOp::ArgMax => None,
    }
}

/// The dispatch of a reduction; those that give indices are refused.
pub fn reduce_op(src: &WgpuStorage, op: ReduceOp, layout: &Layout, axes: &[usize]) -> (r: Result<
    Dispatch,
    Error,
>)
    requires
        layout@.wf(),
        reducible(layout@.dims, axes@),
    ensures
        match (kind_of(op), r) {
            (None, _) => r is Err && r->Err_0 == Error::ArgReduction,
            (Some(kind), Ok(d)) => reduce_refusal(src.dtype, layout@, axes@) is None && d@
                == reduce_dispatch(src@, layout@, axes@, kind),
            (Some(_), Err(e)) => reduce_refusal(src.dtype, layout@, axes@) == Some(e),
        },
{
    match op {
        ReduceOp::Sum => reduce(src, layout, axes, ReduceKind::Sum),
        ReduceOp::Min => reduce(src, layout, axes, ReduceKind::Min),
        ReduceOp::Max => reduce(src, layout, axes, ReduceKind::Max),
        ReduceOp::ArgMin | ReduceOp::ArgMax => Err(Error::ArgReduction),
    }
}

} // verus!
