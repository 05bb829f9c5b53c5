//! Which elements the element-wise kernels work on, and what reductions and
//! conversions do to them.

use crate::analysis::{larger, smaller, Functions};
use crate::dtype::DType;
use crate::layout::{lemma_contiguous_is_linear, product, strided_offset, LayoutView};
use crate::ops::affine::{affine_dispatch, affine_refusal};
use crate::ops::binary::{binary_dispatch, binary_refusal, BinaryOp};
use crate::ops::cast::{cast_outcome, cast_refusal};
use crate::ops::dispatch::{
    first_wide, first_wide_pair, law_padding_keeps_addresses, lemma_axes_fit, padded4, Lift,
    OutcomeView,
};
use crate::ops::formulas::number_0_0;
use crate::ops::reduce::{reduce_dispatch, ReduceKind};
use crate::ops::scalar::widened;
use crate::ops::shader::{computes, greatest, least, number, sum_of, var, Code, Name, Term};
use crate::ops::unary::{unary_dispatch, unary_refusal, UnaryOp};
use crate::storage::StorageView;
use vstd::prelude::*;
use vstd::string::*;

verus! {

/// Four words of a uniform.
pub open spec fn words(meta: Seq<u32>, from: int) -> Seq<usize> {
    meta.subrange(from, from + 4).map_values(|w: u32| w as usize)
}

/// The element that a kernel reads for element `i` of its output, where the
/// uniform has the shape at word `dims`, the strides at word `strides` and the
/// offset at word `start`.
pub open spec fn read_at(meta: Seq<u32>, start: int, dims: int, strides: int, i: nat) -> int {
    meta[start] + strided_offset(words(meta, dims), words(meta, strides), i)
}

/// The place of element `i` of a tensor in the buffer that is bound: in the
/// tensor's own, or in the contiguous copy that a bf16 tensor is widened into.
pub open spec fn bound_at(dtype: DType, l: LayoutView, i: nat) -> nat {
    if dtype is BF16 {
        i
    } else {
        l.address(i)
    }
}

proof fn lemma_narrow(s: Seq<usize>, from: nat)
    requires
        first_wide(s, from) is None,
    ensures
        forall|i: int| from <= i < s.len() ==> s[i] <= u32::MAX,
    decreases s.len() - from,
{
    if from < s.len() {
        lemma_narrow(s, from + 1);
    }
}

proof fn lemma_narrow_pair(a: Seq<usize>, b: Seq<usize>, from: nat)
    requires
        first_wide_pair(a, b, from) is None,
        a.len() == b.len(),
    ensures
        forall|i: int| from <= i < a.len() ==> a[i] <= u32::MAX && b[i] <= u32::MAX,
    decreases a.len() - from,
{
    if from < a.len() {
        lemma_narrow_pair(a, b, from + 1);
    }
}

proof fn lemma_padded(l: LayoutView, dtype: DType, i: nat)
    requires
        l.wf(),
        l.dims.len() <= 4,
        0 < product(l.dims) <= u32::MAX,
        i < product(l.dims),
        widened(dtype, l).start_offset <= u32::MAX,
        forall|j: int| 0 <= j < l.dims.len() ==> widened(dtype, l).stride[j] <= u32::MAX,
    ensures
        ({
            let v = widened(dtype, l);
            v.start_offset as u32 + strided_offset(
                padded4(l.dims, 1).map_values(|w: u32| w as usize),
                padded4(v.stride, 0).map_values(|w: u32| w as usize),
                i,
            ) == bound_at(dtype, l, i)
        }),
{
    let v = widened(dtype, l);
    lemma_axes_fit(l.dims);
    law_padding_keeps_addresses(l.dims, v.stride, i);
    if dtype is BF16 {
        let c = crate::layout::contiguous_strides(l.dims);
        assert forall|j: int| 0 <= j < l.dims.len() && l.dims[j] > 1 implies #[trigger] v.stride[j]
            == c[j] by {
            lemma_stride_fits(l.dims, j);
        }
        lemma_contiguous_is_linear(l.dims, v.stride, i);
    }
}

proof fn lemma_stride_fits(dims: Seq<usize>, j: int)
    requires
        0 <= j < dims.len(),
        0 < product(dims) <= u32::MAX,
    ensures
        product(dims.skip(j + 1)) <= usize::MAX,
{
    crate::layout::lemma_product_split(dims, j + 1);
    let (a, b) = (product(dims.take(j + 1)), product(dims.skip(j + 1)));
    assert(b <= a * b) by (nonlinear_arith)
        requires
            a * b > 0,
    ;
}

/// Where an operation on one tensor is dispatched, the kernel makes as many
/// elements as the tensor has, and element `i` of its own is made of element
/// `i` of the tensor.
pub proof fn law_unary_reads(src: StorageView, l: LayoutView, op: UnaryOp, i: nat)
    requires
        l.wf(),
        unary_refusal(src.dtype, l, true) is None,
        i < product(l.dims),
    ensures
        ({
            let d = unary_dispatch(src, l, op);
            &&& d.kernel.meta[0] == product(l.dims) && d.output.len == product(l.dims)
            &&& read_at(d.kernel.meta, 2, 4, 8, i) == bound_at(src.dtype, l, i)
            &&& d.lifts[0] == (if src.dtype is BF16 {
                Lift::Widen
            } else {
                Lift::AsIs
            })
            &&& d.result_dtype == src.dtype
        }),
{
    let v = widened(src.dtype, l);
    lemma_narrow(v.stride, 0);
    lemma_padded(l, src.dtype, i);
    let m = unary_dispatch(src, l, op).kernel.meta;
    assert(m.subrange(4, 8) =~= padded4(l.dims, 1));
    assert(m.subrange(8, 12) =~= padded4(v.stride, 0));
}

/// Where `mul * x + add` is dispatched, the kernel is given both numbers, in
/// that order, and element `i` of its output is made of element `i` of the
/// tensor.
pub proof fn law_affine_reads(src: StorageView, l: LayoutView, mul: u32, add: u32, i: nat)
    requires
        l.wf(),
        affine_refusal(src.dtype, l) is None,
        i < product(l.dims),
    ensures
        ({
            let d = affine_dispatch(src, l, mul, add);
            &&& d.kernel.meta[0] == product(l.dims) && d.output.len == product(l.dims)
            &&& read_at(d.kernel.meta, 2, 4, 8, i) == bound_at(src.dtype, l, i)
            &&& d.kernel.meta[12] == mul && d.kernel.meta[13] == add
            &&& d.result_dtype == src.dtype
        }),
{
    let v = widened(src.dtype, l);
    lemma_narrow(v.stride, 0);
    lemma_padded(l, src.dtype, i);
    let m = affine_dispatch(src, l, mul, add).kernel.meta;
    assert(m.subrange(4, 8) =~= padded4(l.dims, 1));
    assert(m.subrange(8, 12) =~= padded4(v.stride, 0));
}

/// Where an operation on two tensors is dispatched, element `i` of the output
/// is made of element `i` of the first tensor, on the left, and of element `i`
/// of the second.
pub proof fn law_binary_reads(
    lhs: StorageView,
    rhs: DType,
    a: LayoutView,
    b: LayoutView,
    op: BinaryOp,
    i: nat,
)
    requires
        a.wf(),
        b.wf(),
        binary_refusal(lhs.dtype, rhs, a, b, true) is None,
        i < product(a.dims),
    ensures
        ({
            let d = binary_dispatch(lhs, a, b, op);
            &&& d.kernel.meta[0] == product(a.dims) && d.output.len == product(a.dims)
            &&& read_at(d.kernel.meta, 2, 4, 8, i) == bound_at(lhs.dtype, a, i)
            &&& read_at(d.kernel.meta, 3, 4, 12, i) == bound_at(lhs.dtype, b, i)
            &&& d.result_dtype == lhs.dtype
        }),
{
    let (av, bv) = (widened(lhs.dtype, a), widened(lhs.dtype, b));
    lemma_narrow_pair(av.stride, bv.stride, 0);
    lemma_padded(a, lhs.dtype, i);
    lemma_padded(b, lhs.dtype, i);
    let m = binary_dispatch(lhs, a, b, op).kernel.meta;
    assert(m.subrange(4, 8) =~= padded4(a.dims, 1));
    assert(m.subrange(8, 12) =~= padded4(av.stride, 0));
    assert(m.subrange(12, 16) =~= padded4(bv.stride, 0));
}

/// A conversion that is not refused and has elements to convert runs on values
/// of the source's type and gives values of the other type, one for each; and
/// the conversions that run are those between floats and either kind of
/// integers.
pub proof fn law_cast_types(src: StorageView, l: LayoutView, to: DType)
    requires
        cast_refusal(src.dtype, l, to) is None,
        product(l.dims) > 0,
    ensures
        cast_outcome(src, l, to) matches OutcomeView::Run(d) && {
            let (from_type, to_type) = (d.kernel.substitutions[0], d.kernel.substitutions[1]);
            &&& from_type.0 == "__SRC_T__"@ && to_type.0 == "__DST_T__"@
            &&& from_type.1 == (match src.dtype {
                DType::F32 => "f32"@,
                DType::U32 => "u32"@,
                _ => "i32"@,
            })
            &&& to_type.1 == (match to {
                DType::F32 => "f32"@,
                DType::U32 => "u32"@,
                _ => "i32"@,
            })
            &&& src.dtype is F32 || src.dtype is U32 || src.dtype is I32
            &&& to is F32 || to is U32 || to is I32
            &&& src.dtype is F32 <==> !(to is F32)
            &&& d.output.dtype == to && d.result_dtype == to && d.output.len == product(l.dims)
            &&& d.kernel.meta[0] == product(l.dims)
            &&& l.start_offset <= u32::MAX ==> d.kernel.meta[1] == l.start_offset
        },
{
}

/// What the names stand for where an element is taken into an accumulator.
pub open spec fn taken(acc: real, v: real) -> spec_fn(Name) -> real {
    |n: Name|
        if n is Acc {
            acc
        } else if n is V {
            v
        } else {
            0real
        }
}

/// A sum starts with zero and adds elements; the smallest and the largest start
/// with a number beyond all others that matter, on the side that loses, and
/// take an element where it wins. What is accumulated is the result.
pub proof fn law_reduce_computes(
    src: StorageView,
    l: LayoutView,
    axes: Seq<usize>,
    kind: ReduceKind,
    m: Functions,
    acc: real,
    v: real,
)
    ensures
        ({
            let subs = reduce_dispatch(src, l, axes, kind).kernel.substitutions;
            let (start, code, end) = (subs[1], subs[2], subs[3]);
            &&& start.0 == "__INIT__"@ && code.0 == "__COMBINE__"@ && end.0 == "__FINALIZE__"@
            &&& computes(end.1, m, taken(acc, v), acc)
            &&& match kind {
                ReduceKind::Sum => number(start.1, 1) == 0real && computes(
                    code.1,
                    m,
                    taken(acc, v),
                    acc + v,
                ),
                ReduceKind::Max => start.1[0] == '-' && computes(
                    code.1,
                    m,
                    taken(acc, v),
                    larger(acc, v),
                ),
                ReduceKind::Min => start.1[0] == '1' && computes(
                    code.1,
                    m,
                    taken(acc, v),
                    smaller(acc, v),
                ),
            }
        }),
{
    reveal_strlit("return acc + v;");
    reveal_strlit("return max(acc, v);");
    reveal_strlit("return min(acc, v);");
    reveal_strlit("return acc;");
    reveal_strlit("return ");
    reveal_strlit("acc");
    reveal_strlit("v");
    reveal_strlit(" + ");
    reveal_strlit("max(");
    reveal_strlit("min(");
    reveal_strlit(", ");
    reveal_strlit(")");
    reveal_strlit(";");
    reveal_strlit("-1.0e38");
    reveal_strlit("1.0e38");
    reveal_with_fuel(Term::text, 3);
    reveal_with_fuel(Term::value, 3);
    reveal_with_fuel(Term::wf, 3);
    number_0_0();
    let (a, b) = (var(Name::Acc), var(Name::V));
    let done = Code::Return(a);
    assert(done.text() =~= "return acc;"@);
    assert(done.wf() && done.value(m, taken(acc, v)) == acc);
    match kind {
        ReduceKind::Sum => {
            let c = Code::Return(sum_of(a, b));
            assert(c.text() =~= kind.spec_combine_body());
            assert(c.wf() && c.value(m, taken(acc, v)) == acc + v);
        },
        ReduceKind::Max => {
            let c = Code::Return(greatest(a, b));
            assert(c.text() =~= kind.spec_combine_body());
            assert(c.wf() && c.value(m, taken(acc, v)) == larger(acc, v));
        },
        ReduceKind::Min => {
            let c = Code::Return(least(a, b));
            assert(c.text() =~= kind.spec_combine_body());
            assert(c.wf() && c.value(m, taken(acc, v)) == smaller(acc, v));
        },
    }
}

} // verus!
