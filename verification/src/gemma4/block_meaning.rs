//! What the blocks of the decoder layers compute, in real numbers.

use crate::analysis::{lemma_sum_equal, lemma_tanh, lemma_tanh_monotone, sum};
use crate::dtype::DType;
use crate::gemma4::block::{each_of, internal_of, norm_of, v_norm_of, Norm};
use crate::gemma4::config::F64Bits;
use crate::gemma4::ends::{capped_of, looked_up_of};
use crate::tensor::meaning::{
    mean_bin, mean_leaf, mean_square, mean_un, meaning, place3, spread_to, with_last, World,
};
use crate::tensor::op::{
    bin, contiguous, leaf, linear, scaled, un, BinOp, Expr, Leaf, MapOp, Scalar, TOp, TopTensor,
};
use vstd::prelude::*;

verus! {

/// The place is one of a tensor of shape `d`.
pub open spec fn inside(i: Seq<int>, d: Seq<int>) -> bool {
    i.len() == d.len() && d.len() > 0 && forall|j: int|
        0 <= j < d.len() ==> 0 <= #[trigger] i[j] < d[j]
}

/// A place inside is the one that is read of a column along the last axis.
pub proof fn lemma_spread_column(i: Seq<int>, d: Seq<int>)
    requires
        inside(i, d),
    ensures
        spread_to(i, with_last(d, 1)) == with_last(i, 0),
        forall|k: int| #[trigger] with_last(with_last(i, 0), k) == with_last(i, k),
{
    let c = with_last(d, 1);
    assert forall|j: int| 0 <= j < c.len() implies #[trigger] spread_to(i, c)[j] == with_last(
        i,
        0,
    )[j] by {
        if j < c.len() - 1 {
            assert(c[j] == d[j]);
            assert(0 <= i[j] < d[j]);
        }
    }
    assert(spread_to(i, c) =~= with_last(i, 0));
    assert forall|k: int| #[trigger] with_last(with_last(i, 0), k) == with_last(i, k) by {
        assert(with_last(with_last(i, 0), k) =~= with_last(i, k));
    }
}

/// A place inside is read of a row by its last entry.
proof fn lemma_spread_row(i: Seq<int>, d: Seq<int>)
    requires
        inside(i, d),
    ensures
        spread_to(i, seq![d.last()]) == seq![i.last()],
{
    assert(0 <= i[d.len() - 1] < d[d.len() - 1]);
    assert(spread_to(i, seq![d.last()]) =~= seq![i.last()]);
}

/// A learned normalization divides every number by the root of the mean square
/// of its row, plus a small number, and multiplies it by the weight of its
/// column, or by one and the weight.
pub proof fn law_norm(
    w: World,
    kind: Norm,
    dtype: DType,
    eps: F64Bits,
    n: usize,
    x: Expr,
    weight: Leaf,
    i: Seq<int>,
)
    requires
        inside(i, meaning(w, x).dims),
        meaning(w, x).dims.last() == n,
        (w.leaf)(weight).dims == seq![n as int],
    ensures
        meaning(w, norm_of(kind, dtype, eps, n, x, weight)).dims == meaning(w, x).dims,
        (meaning(w, norm_of(kind, dtype, eps, n, x, weight)).at)(i) == (meaning(w, x).at)(i) / (
        w.m.sqrt)(mean_square(meaning(w, x), i) + (w.number)(eps)) * (match kind {
            Norm::Offset => 1real + ((w.leaf)(weight).at)(seq![i.last()]),
            Norm::Fused => ((w.leaf)(weight).at)(seq![i.last()]),
        }),
{
    let mx = meaning(w, x);
    mean_leaf(w, weight);
    match kind {
        Norm::Fused => {
            mean_bin(w, TOp::RmsNorm(eps), x, leaf(weight));
        },
        Norm::Offset => {
            let xi = un(TOp::Cast(internal_of(dtype)), x);
            let sq = each_of(MapOp::Sqr, xi);
            let total = un(TOp::SumKeepLast, sq);
            let mean = each_of(MapOp::Div(Scalar::Count(n)), total);
            let shifted = each_of(MapOp::Add(Scalar::Bits(eps)), mean);
            let root = each_of(MapOp::Sqrt, shifted);
            let normed = bin(TOp::ZipBroadcast(BinOp::Div), xi, root);
            let back = un(TOp::Cast(dtype), normed);
            let gain = each_of(MapOp::Add(Scalar::One), leaf(weight));
            mean_un(w, TOp::Cast(internal_of(dtype)), x);
            mean_un(w, TOp::Each(MapOp::Sqr), xi);
            mean_un(w, TOp::SumKeepLast, sq);
            mean_un(w, TOp::Each(MapOp::Div(Scalar::Count(n))), total);
            mean_un(w, TOp::Each(MapOp::Add(Scalar::Bits(eps))), mean);
            mean_un(w, TOp::Each(MapOp::Sqrt), shifted);
            mean_bin(w, TOp::ZipBroadcast(BinOp::Div), xi, root);
            mean_un(w, TOp::Cast(dtype), normed);
            mean_un(w, TOp::Each(MapOp::Add(Scalar::One)), leaf(weight));
            mean_bin(w, TOp::ZipBroadcast(BinOp::Mul), back, gain);
            lemma_spread_column(i, mx.dims);
            lemma_spread_row(i, mx.dims);
            let f = |k: int| (meaning(w, sq).at)(with_last(with_last(i, 0), k));
            let g = |k: int| (mx.at)(with_last(i, k)) * (mx.at)(with_last(i, k));
            assert forall|k: int| 0 <= k < mx.dims.last() implies #[trigger] f(k) == g(k) by {
                assert(with_last(with_last(i, 0), k) == with_last(i, k));
            }
            lemma_sum_equal(mx.dims.last() as nat, f, g);
            assert((meaning(w, total).at)(with_last(i, 0)) == sum(mx.dims.last() as nat, f));
            assert((meaning(w, root).at)(with_last(i, 0)) == (w.m.sqrt)(
                mean_square(mx, i) + (w.number)(eps),
            ));
        },
    }
}

/// A normalization without a weight divides every number by the root of the
/// mean square of its row, plus a small number.
pub proof fn law_v_norm(w: World, kind: Norm, dtype: DType, eps: F64Bits, x: Expr, i: Seq<int>)
    requires
        inside(i, meaning(w, x).dims),
    ensures
        meaning(w, v_norm_of(kind, dtype, eps, x)).dims == meaning(w, x).dims,
        (meaning(w, v_norm_of(kind, dtype, eps, x)).at)(i) == (meaning(w, x).at)(i) / (w.m.sqrt)(
            mean_square(meaning(w, x), i) + (w.number)(eps),
        ),
{
    let mx = meaning(w, x);
    mean_un(w, TOp::Each(MapOp::Contiguous), x);
    mean_un(w, TOp::Cast(DType::F32), x);
    mean_un(w, TOp::Cast(DType::F32), contiguous(x));
    let xi = match kind {
        Norm::Offset => un(TOp::Cast(DType::F32), x),
        Norm::Fused => un(TOp::Cast(DType::F32), contiguous(x)),
    };
    let sq = each_of(MapOp::Sqr, xi);
    let mean = un(TOp::MeanKeepLast, sq);
    let shifted = each_of(MapOp::Add(Scalar::Bits(eps)), mean);
    let root = each_of(MapOp::Sqrt, shifted);
    let normed = bin(TOp::ZipBroadcast(BinOp::Div), xi, root);
    mean_un(w, TOp::Each(MapOp::Sqr), xi);
    mean_un(w, TOp::MeanKeepLast, sq);
    mean_un(w, TOp::Each(MapOp::Add(Scalar::Bits(eps))), mean);
    mean_un(w, TOp::Each(MapOp::Sqrt), shifted);
    mean_bin(w, TOp::ZipBroadcast(BinOp::Div), xi, root);
    mean_un(w, TOp::Cast(dtype), normed);
    mean_un(w, TOp::Each(MapOp::Contiguous), normed);
    mean_un(w, TOp::Cast(dtype), contiguous(normed));
    lemma_spread_column(i, mx.dims);
    let f = |k: int| (meaning(w, sq).at)(with_last(with_last(i, 0), k));
    let g = |k: int| (mx.at)(with_last(i, k)) * (mx.at)(with_last(i, k));
    assert forall|k: int| 0 <= k < mx.dims.last() implies #[trigger] f(k) == g(k) by {
        assert(with_last(with_last(i, 0), k) == with_last(i, k));
    }
    lemma_sum_equal(mx.dims.last() as nat, f, g);
    assert((meaning(w, mean).at)(with_last(i, 0)) == sum(mx.dims.last() as nat, f)
        / mx.dims.last() as real);
}

/// A product with a weight sums, over the entries of a row, each entry times
/// that of the weight's row for the column.
pub proof fn law_linear(w: World, x: Expr, weight: Leaf, i: Seq<int>)
    ensures
        meaning(w, linear(x, weight)).dims == with_last(
            meaning(w, x).dims,
            (w.leaf)(weight).dims[0],
        ),
        (meaning(w, linear(x, weight)).at)(i) == sum(
            meaning(w, x).dims.last() as nat,
            |k: int|
                (meaning(w, x).at)(with_last(i, k)) * ((w.leaf)(weight).at)(seq![i.last(), k]),
        ),
{
    mean_leaf(w, weight);
    mean_bin(w, TOp::Linear, x, leaf(weight));
}

/// A capped number stays below the cap in size, has the sign of the number,
/// and grows with it.
pub proof fn law_capped(w: World, cap: F64Bits, x: Expr, i: Seq<int>, j: Seq<int>)
    requires
        w.m.wf(),
        (w.number)(cap) > 0real,
    ensures
        ({
            let (c, mx) = ((w.number)(cap), meaning(w, x));
            let y = meaning(w, capped_of(cap, x));
            &&& y.dims == mx.dims
            &&& (y.at)(i) == w.m.tanh((mx.at)(i) / c) * c
            &&& -c < (y.at)(i) < c
            &&& (mx.at)(i) < (mx.at)(j) ==> (y.at)(i) < (y.at)(j)
        }),
{
    let small = each_of(MapOp::Div(Scalar::Bits(cap)), x);
    let bounded = each_of(MapOp::Tanh, small);
    mean_un(w, TOp::Each(MapOp::Div(Scalar::Bits(cap))), x);
    mean_un(w, TOp::Each(MapOp::Tanh), small);
    mean_un(w, TOp::Each(MapOp::Mul(Scalar::Bits(cap))), bounded);
    let c = (w.number)(cap);
    let (a, b) = ((meaning(w, x).at)(i), (meaning(w, x).at)(j));
    lemma_tanh(w.m, a / c);
    let (s, t) = (w.m.tanh(a / c), w.m.tanh(b / c));
    assert(-c < s * c < c) by (nonlinear_arith)
        requires
            -1real < s < 1real,
            c > 0real,
    ;
    if a < b {
        assert(a / c < b / c) by (nonlinear_arith)
            requires
                a < b,
                c > 0real,
        ;
        lemma_tanh_monotone(w.m, a / c, b / c);
        assert(s * c < t * c) by (nonlinear_arith)
            requires
                s < t,
                c > 0real,
        ;
    }
}

/// Embeddings that are looked up and scaled by the root of a count are the
/// tokens' rows of the table, times the number that is not negative and that,
/// times itself, is the count.
pub proof fn law_scaled_rows(w: World, n: usize, b: int, t: int, k: int)
    requires
        w.m.wf(),
    ensures
        ({
            let e = scaled(looked_up_of(TopTensor::TokenEmbedding), Scalar::Sqrt(n));
            let s = (w.m.sqrt)(n as real);
            &&& s >= 0real && s * s == n as real
            &&& (meaning(w, e).at)(place3(b, t, k)) == ((w.leaf)(
                Leaf::Top(TopTensor::TokenEmbedding),
            ).at)(seq![(w.token)(seq![b, t]), k]) * s
        }),
{
    let e = looked_up_of(TopTensor::TokenEmbedding);
    mean_leaf(w, Leaf::TokenIds);
    mean_leaf(w, Leaf::Top(TopTensor::TokenEmbedding));
    mean_bin(w, TOp::Embed, leaf(Leaf::TokenIds), leaf(Leaf::Top(TopTensor::TokenEmbedding)));
    mean_un(w, TOp::Each(MapOp::Mul(Scalar::Sqrt(n))), e);
    assert(place3(b, t, k).drop_last() =~= seq![b, t]);
}

} // verus!
