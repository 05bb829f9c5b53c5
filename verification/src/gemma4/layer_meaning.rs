//! What the decoder layers compute around their attention, in real numbers.

use crate::analysis::{larger, lemma_sum_equal, sum};
use crate::dtype::DType;
use crate::gemma4::block::{each_of, laurel_of, mlp_of, side_channel_of, sparse_of, Style};
use crate::gemma4::block_meaning::{inside, law_linear, lemma_spread_column};
use crate::gemma4::config::F64Bits;
use crate::gemma4::layer::{classic_of, fed_forward_of, layer_norm_of, merged_laurel_of, LayerBody};
use crate::tensor::meaning::{
    mean_bin, mean_leaf, mean_un, meaning, place3, spread_to, with_last, Tensor, World,
};
use crate::tensor::op::{
    bin, leaf, linear, plus, scaled, times, un, BinOp, Expr, LayerTensor, Leaf, MapOp, Scalar, TOp,
};
use vstd::prelude::*;

verus! {

/// The weight of a layer.
pub open spec fn weight(w: World, layer: usize, t: LayerTensor) -> Tensor {
    (w.leaf)(Leaf::Layer(layer, t))
}

/// What a weight makes of the row of `x` at position `t` of sequence `b`.
pub open spec fn row_by(x: Tensor, m: Tensor, b: int, t: int, o: int) -> real {
    sum(x.dims.last() as nat, |k: int| (x.at)(place3(b, t, k)) * (m.at)(seq![o, k]))
}

/// A product with a weight of the rows of a tensor of three axes.
pub proof fn lemma_linear3(w: World, x: Expr, l: Leaf, b: int, t: int, o: int)
    requires
        meaning(w, x).dims.len() == 3,
    ensures
        (meaning(w, linear(x, l)).at)(place3(b, t, o)) == row_by(
            meaning(w, x),
            (w.leaf)(l),
            b,
            t,
            o,
        ),
        meaning(w, linear(x, l)).dims == with_last(meaning(w, x).dims, (w.leaf)(l).dims[0]),
{
    let i = place3(b, t, o);
    law_linear(w, x, l, i);
    let f = |k: int| (meaning(w, x).at)(with_last(i, k)) * ((w.leaf)(l).at)(seq![i.last(), k]);
    let g = |k: int| (meaning(w, x).at)(place3(b, t, k)) * ((w.leaf)(l).at)(seq![o, k]);
    assert forall|k: int| #[trigger] f(k) == g(k) by {
        assert(with_last(i, k) =~= place3(b, t, k));
    }
    lemma_sum_equal(meaning(w, x).dims.last() as nat, f, g);
}

/// Mean along the last axis.
pub open spec fn mean_of(x: Tensor, i: Seq<int>) -> real {
    sum(x.dims.last() as nat, |k: int| (x.at)(with_last(i, k))) / x.dims.last() as real
}

/// Mean square distance from the mean along the last axis.
pub open spec fn variance_of(x: Tensor, i: Seq<int>) -> real {
    let mean = mean_of(x, i);
    sum(
        x.dims.last() as nat,
        |k: int|
            ((x.at)(with_last(i, k)) - mean) * ((x.at)(with_last(i, k)) - mean),
    ) / x.dims.last() as real
}

/// A sparse gate value is what it is above the threshold, or zero: the
/// threshold lies as many standard deviations of the row above its mean as the
/// layer's number says.
pub proof fn law_sparse(w: World, dtype: DType, z: F64Bits, g: Expr, i: Seq<int>)
    requires
        inside(i, meaning(w, g).dims),
    ensures
        ({
            let x = meaning(w, g);
            let threshold = mean_of(x, i) + (w.m.sqrt)(variance_of(x, i)) * (w.number)(z);
            &&& (meaning(w, sparse_of(dtype, z, g)).at)(i) == larger((x.at)(i) - threshold, 0real)
            &&& meaning(w, sparse_of(dtype, z, g)).dims == x.dims
        }),
{
    let x = meaning(w, g);
    let d = x.dims;
    let n = d.last() as nat;
    let gi = un(TOp::Cast(DType::F32), g);
    let mean = un(TOp::MeanKeepLast, gi);
    let centred = bin(TOp::ZipBroadcast(BinOp::Sub), gi, mean);
    let sq = each_of(MapOp::Sqr, centred);
    let var = un(TOp::MeanKeepLast, sq);
    let std = each_of(MapOp::Sqrt, var);
    let above = scaled(std, Scalar::Bits(z));
    let threshold = plus(mean, above);
    let over = bin(TOp::ZipBroadcast(BinOp::Sub), gi, threshold);
    let zero = each_of(MapOp::ZerosLike, over);
    let cut = bin(TOp::Zip(BinOp::Maximum), over, zero);
    mean_un(w, TOp::Cast(DType::F32), g);
    mean_un(w, TOp::MeanKeepLast, gi);
    mean_bin(w, TOp::ZipBroadcast(BinOp::Sub), gi, mean);
    mean_un(w, TOp::Each(MapOp::Sqr), centred);
    mean_un(w, TOp::MeanKeepLast, sq);
    mean_un(w, TOp::Each(MapOp::Sqrt), var);
    mean_un(w, TOp::Each(MapOp::Mul(Scalar::Bits(z))), std);
    mean_bin(w, TOp::Zip(BinOp::Add), mean, above);
    mean_bin(w, TOp::ZipBroadcast(BinOp::Sub), gi, threshold);
    mean_un(w, TOp::Each(MapOp::ZerosLike), over);
    mean_bin(w, TOp::Zip(BinOp::Maximum), over, zero);
    mean_un(w, TOp::Cast(dtype), cut);
    lemma_spread_column(i, d);
    let i0 = with_last(i, 0);
    let mu = mean_of(x, i);
    assert((meaning(w, mean).at)(i0) == mu) by {
        let f = |k: int| (x.at)(with_last(i0, k));
        let h = |k: int| (x.at)(with_last(i, k));
        lemma_sum_equal(n, f, h);
        assert((meaning(w, mean).at)(i0) == sum(n, f) / d.last() as real);
    }
    let f = |k: int| (meaning(w, sq).at)(with_last(i0, k));
    let h = |k: int| ((x.at)(with_last(i, k)) - mu) * ((x.at)(with_last(i, k)) - mu);
    assert forall|k: int| 0 <= k < n implies #[trigger] f(k) == h(k) by {
        let ik = with_last(i, k);
        assert(with_last(i0, k) == ik);
        assert(inside(ik, d)) by {
            assert forall|j: int| 0 <= j < d.len() implies 0 <= #[trigger] ik[j] < d[j] by {
                assert(0 <= i[j] < d[j]);
                if j == d.len() - 1 {
                    assert(ik[j] == k);
                }
            }
        }
        lemma_spread_column(ik, d);
        assert(with_last(ik, 0) =~= i0);
    }
    lemma_sum_equal(n, f, h);
    assert((meaning(w, var).at)(i0) == sum(n, f) / d.last() as real);
    assert((meaning(w, var).at)(i0) == variance_of(x, i));
    assert(meaning(w, threshold).dims == with_last(d, 1));
}

/// The gated feed-forward block: for every channel of the inner layer the
/// activation of its gate value, cut where the layer has a threshold, times
/// its other value; then down again.
pub proof fn law_mlp(
    w: World,
    c: Style,
    layer: usize,
    z: Option<F64Bits>,
    x: Expr,
    b: int,
    t: int,
    o: int,
)
    requires
        meaning(w, x).dims.len() == 3,
    ensures
        ({
            let mx = meaning(w, x);
            let gate = linear(x, Leaf::Layer(layer, LayerTensor::FfnGate));
            let cut = match z {
                Some(v) => meaning(w, sparse_of(c.dtype, v, gate)),
                None => meaning(w, gate),
            };
            let down = weight(w, layer, LayerTensor::FfnDown);
            let up = weight(w, layer, LayerTensor::FfnUp);
            &&& meaning(w, gate).dims.len() == 3
            &&& (meaning(w, gate).at)(place3(b, t, o)) == row_by(
                mx,
                weight(w, layer, LayerTensor::FfnGate),
                b,
                t,
                o,
            )
            &&& (meaning(w, mlp_of(c, layer, z, x)).at)(place3(b, t, o)) == sum(
                cut.dims.last() as nat,
                |k: int|
                    (w.act)(c.act, (cut.at)(place3(b, t, k))) * row_by(mx, up, b, t, k) * (down.at)(
                        seq![o, k],
                    ),
            )
        }),
{
    let gl = Leaf::Layer(layer, LayerTensor::FfnGate);
    let ul = Leaf::Layer(layer, LayerTensor::FfnUp);
    let dl = Leaf::Layer(layer, LayerTensor::FfnDown);
    let gate = linear(x, gl);
    lemma_linear3(w, x, gl, b, t, o);
    let cut = match z {
        Some(v) => sparse_of(c.dtype, v, gate),
        None => gate,
    };
    if let Some(v) = z {
        lemma_sparse_dims(w, c.dtype, v, gate);
    }
    let lhs = each_of(MapOp::Act(c.act), cut);
    let rhs = linear(x, ul);
    mean_un(w, TOp::Each(MapOp::Act(c.act)), cut);
    mean_bin(w, TOp::Zip(BinOp::Mul), lhs, rhs);
    let prod = times(lhs, rhs);
    lemma_linear3(w, prod, dl, b, t, o);
    let n = meaning(w, cut).dims.last() as nat;
    let f = |k: int| (meaning(w, prod).at)(place3(b, t, k)) * ((w.leaf)(dl).at)(seq![o, k]);
    let g = |k: int|
        (w.act)(c.act, (meaning(w, cut).at)(place3(b, t, k))) * row_by(
            meaning(w, x),
            (w.leaf)(ul),
            b,
            t,
            k,
        ) * ((w.leaf)(dl).at)(seq![o, k]);
    assert forall|k: int| 0 <= k < n implies #[trigger] f(k) == g(k) by {
        lemma_linear3(w, x, ul, b, t, k);
    }
    lemma_sum_equal(n, f, g);
}

proof fn lemma_sparse_dims(w: World, dtype: DType, z: F64Bits, g: Expr)
    ensures
        meaning(w, sparse_of(dtype, z, g)).dims == meaning(w, g).dims,
{
    let gi = un(TOp::Cast(DType::F32), g);
    let mean = un(TOp::MeanKeepLast, gi);
    let var = un(
        TOp::MeanKeepLast,
        each_of(MapOp::Sqr, bin(TOp::ZipBroadcast(BinOp::Sub), gi, mean)),
    );
    let threshold = plus(mean, scaled(each_of(MapOp::Sqrt, var), Scalar::Bits(z)));
    let over = bin(TOp::ZipBroadcast(BinOp::Sub), gi, threshold);
    let zero = each_of(MapOp::ZerosLike, over);
    mean_un(w, TOp::Cast(DType::F32), g);
    mean_bin(w, TOp::ZipBroadcast(BinOp::Sub), gi, threshold);
    mean_bin(w, TOp::Zip(BinOp::Maximum), over, zero);
    mean_un(w, TOp::Cast(dtype), bin(TOp::Zip(BinOp::Maximum), over, zero));
}

/// A sum is the sum of what is added, element by element.
pub proof fn lemma_plus(w: World, x: Expr, y: Expr, i: Seq<int>)
    ensures
        (meaning(w, plus(x, y)).at)(i) == (meaning(w, x).at)(i) + (meaning(w, y).at)(i),
        meaning(w, plus(x, y)).dims == meaning(w, x).dims,
{
    mean_bin(w, TOp::Zip(BinOp::Add), x, y);
}

/// A low-rank residual is its input, and the normalized product of the input
/// with two weights in turn.
pub proof fn law_laurel(w: World, c: Style, layer: usize, x: Expr, i: Seq<int>)
    ensures
        ({
            let low = linear(
                linear(x, Leaf::Layer(layer, LayerTensor::LaurelLeft)),
                Leaf::Layer(layer, LayerTensor::LaurelRight),
            );
            let normed = layer_norm_of(c, layer, LayerTensor::PostLaurelNorm, low);
            (meaning(w, laurel_of(c, layer, x)).at)(i) == (meaning(w, x).at)(i) + (meaning(
                w,
                normed,
            ).at)(i)
        }),
{
    let low = linear(
        linear(x, Leaf::Layer(layer, LayerTensor::LaurelLeft)),
        Leaf::Layer(layer, LayerTensor::LaurelRight),
    );
    lemma_plus(w, x, layer_norm_of(c, layer, LayerTensor::PostLaurelNorm, low), i);
}

/// A low-rank residual is added, and the sum divided by the number that is not
/// negative and that, times itself, is two. Without one nothing is done.
pub proof fn law_merged_laurel(
    w: World,
    c: Style,
    l: LayerBody,
    x: Expr,
    normed: Expr,
    i: Seq<int>,
)
    requires
        w.m.wf(),
    ensures
        ({
            let r = (w.m.sqrt)(2real);
            let y = meaning(w, merged_laurel_of(c, l, x, normed));
            &&& r > 0real && r * r == 2real
            &&& l.laurel is None ==> y == meaning(w, x)
            &&& l.laurel is Some ==> (y.at)(i) * r == (meaning(w, x).at)(i) + (meaning(
                w,
                laurel_of(c, l.layer, normed),
            ).at)(i)
        }),
{
    let r = (w.m.sqrt)(2real);
    assert(r >= 0real && r * r == 2real);
    if r == 0real {
        assert(r * r == 0real);
    }
    let low = laurel_of(c, l.layer, normed);
    let s = plus(x, low);
    lemma_plus(w, x, low, i);
    mean_un(w, TOp::Each(MapOp::Mul(Scalar::RecipSqrt(2))), s);
    let a = (meaning(w, s).at)(i);
    assert(2usize as real == 2real);
    assert(a * (1real / r) * r == a) by (nonlinear_arith)
        requires
            r > 0real,
    ;
}

/// The feed-forward block works on the normalized state, and its normalized
/// response is added to the state.
pub proof fn law_fed_forward(w: World, c: Style, l: LayerBody, x: Expr, i: Seq<int>)
    ensures
        ({
            let before = layer_norm_of(c, l.layer, LayerTensor::PreFeedforwardNorm, x);
            let inner = mlp_of(c, l.layer, l.z, before);
            let after = layer_norm_of(c, l.layer, LayerTensor::PostFeedforwardNorm, inner);
            (meaning(w, fed_forward_of(c, l, x)).at)(i) == (meaning(w, x).at)(i) + (meaning(
                w,
                after,
            ).at)(i)
        }),
{
    let before = layer_norm_of(c, l.layer, LayerTensor::PreFeedforwardNorm, x);
    let inner = mlp_of(c, l.layer, l.z, before);
    lemma_plus(w, x, layer_norm_of(c, l.layer, LayerTensor::PostFeedforwardNorm, inner), i);
}

/// A layer adds to its input what attention made of it, normalized; feeds that
/// forward; adds the gated auxiliary embedding where it has one and was given
/// one; and multiplies all by its gain where it has one.
pub proof fn law_classic(
    w: World,
    c: Style,
    l: LayerBody,
    x: Expr,
    normed: Expr,
    attn: Expr,
    side: Option<Expr>,
)
    ensures
        exists|mid: Expr| #[trigger]
            continues(w, c, l, x, normed, attn, mid) && forall|i: Seq<int>| #[trigger]
                (meaning(w, classic_of(c, l, x, normed, attn, side)).at)(i) == (meaning(
                    w,
                    fed_forward_of(c, l, mid),
                ).at)(i) * gain_at(w, l, i) + side_part(w, c, l, mid, side, i) * gain_at(w, l, i),
{
    let post = layer_norm_of(c, l.layer, LayerTensor::PostAttentionNorm, attn);
    let low = merged_laurel_of(c, l, post, normed);
    let mid = plus(low, x);
    let fed = fed_forward_of(c, l, mid);
    assert forall|i: Seq<int>| #[trigger] (meaning(w, mid).at)(i) == (meaning(w, low).at)(i) + (
    meaning(w, x).at)(i) by {
        lemma_plus(w, low, x, i);
    }
    assert(continues(w, c, l, x, normed, attn, mid));
    let aided = match (l.side, side) {
        (Some(n), Some(s)) => plus(side_channel_of(c, l.layer, l.gate, n, fed, s), fed),
        _ => fed,
    };
    let g = Leaf::Layer(l.layer, LayerTensor::LayerScalar);
    mean_leaf(w, g);
    mean_bin(w, TOp::ZipBroadcast(BinOp::Mul), aided, leaf(g));
    assert forall|i: Seq<int>| #[trigger]
        (meaning(w, classic_of(c, l, x, normed, attn, side)).at)(i) == (meaning(w, fed).at)(i)
            * gain_at(w, l, i) + side_part(w, c, l, mid, side, i) * gain_at(w, l, i) by {
        if let (Some(n), Some(s)) = (l.side, side) {
            lemma_plus(w, side_channel_of(c, l.layer, l.gate, n, fed, s), fed, i);
        }
        let (p, q, k) = (
            (meaning(w, fed).at)(i),
            side_part(w, c, l, mid, side, i),
            gain_at(w, l, i),
        );
        assert((meaning(w, aided).at)(i) == q + p);
        assert((q + p) * k == p * k + q * k) by (nonlinear_arith);
    }
}

/// The state between attention and the feed-forward block: the layer's input,
/// and what attention made of it, normalized and merged with the low-rank
/// residual.
pub open spec fn continues(
    w: World,
    c: Style,
    l: LayerBody,
    x: Expr,
    normed: Expr,
    attn: Expr,
    mid: Expr,
) -> bool {
    let post = layer_norm_of(c, l.layer, LayerTensor::PostAttentionNorm, attn);
    forall|i: Seq<int>| #[trigger]
        (meaning(w, mid).at)(i) == (meaning(w, merged_laurel_of(c, l, post, normed)).at)(i) + (
        meaning(w, x).at)(i)
}

/// The layer's gain of an element, one where it has none.
pub open spec fn gain_at(w: World, l: LayerBody, i: Seq<int>) -> real {
    let g = weight(w, l.layer, LayerTensor::LayerScalar);
    if l.gain is Some {
        (g.at)(spread_to(i, g.dims))
    } else {
        1real
    }
}

/// What the auxiliary embedding adds to an element.
pub open spec fn side_part(
    w: World,
    c: Style,
    l: LayerBody,
    mid: Expr,
    side: Option<Expr>,
    i: Seq<int>,
) -> real {
    match (l.side, side) {
        (Some(n), Some(s)) => (meaning(
            w,
            side_channel_of(c, l.layer, l.gate, n, fed_forward_of(c, l, mid), s),
        ).at)(i),
        _ => 0real,
    }
}

/// The auxiliary embedding is multiplied by the activations of its gate values,
/// which are made of the state, goes through a projection and is normalized.
pub proof fn law_side_channel(
    w: World,
    c: Style,
    layer: usize,
    width: usize,
    x: Expr,
    input: Expr,
    b: int,
    t: int,
    o: int,
)
    requires
        meaning(w, x).dims.len() == 3,
        meaning(w, input).dims.len() == 3,
        weight(w, layer, LayerTensor::PerLayerInputGate).dims[0] == width,
        width > 1,
        inside(place3(b, t, 0), meaning(w, input).dims),
        meaning(w, input).dims[2] == width,
    ensures
        exists|y: Expr|
            side_channel_of(c, layer, width, width, x, input) == #[trigger] layer_norm_of(
                c,
                layer,
                LayerTensor::PostPerLayerInputNorm,
                y,
            ) && (meaning(w, y).at)(place3(b, t, o)) == sum(
                width as nat,
                |k: int|
                    (w.act)(
                        c.act,
                        row_by(
                            meaning(w, x),
                            weight(w, layer, LayerTensor::PerLayerInputGate),
                            b,
                            t,
                            k,
                        ),
                    ) * (meaning(w, input).at)(place3(b, t, k)) * (weight(
                        w,
                        layer,
                        LayerTensor::PerLayerProjection,
                    ).at)(seq![o, k]),
            ),
{
    let gl = Leaf::Layer(layer, LayerTensor::PerLayerInputGate);
    let pl = Leaf::Layer(layer, LayerTensor::PerLayerProjection);
    let raw = linear(x, gl);
    let values = each_of(MapOp::Act(c.act), raw);
    let gated = bin(TOp::ZipBroadcast(BinOp::Mul), values, input);
    let y = linear(gated, pl);
    lemma_linear3(w, x, gl, b, t, 0);
    mean_un(w, TOp::Each(MapOp::Act(c.act)), raw);
    mean_bin(w, TOp::ZipBroadcast(BinOp::Mul), values, input);
    lemma_linear3(w, gated, pl, b, t, o);
    let di = meaning(w, input).dims;
    let f = |k: int| (meaning(w, gated).at)(place3(b, t, k)) * ((w.leaf)(pl).at)(seq![o, k]);
    let g = |k: int|
        (w.act)(c.act, row_by(meaning(w, x), (w.leaf)(gl), b, t, k)) * (meaning(w, input).at)(
            place3(b, t, k),
        ) * ((w.leaf)(pl).at)(seq![o, k]);
    assert forall|k: int| 0 <= k < width implies #[trigger] f(k) == g(k) by {
        lemma_linear3(w, x, gl, b, t, k);
        let i = place3(b, t, k);
        let i0 = place3(b, t, 0);
        assert(i0[0] < di[0] && i0[1] < di[1]);
        assert(spread_to(i, di) =~= i);
    }
    lemma_sum_equal(width as nat, f, g);
    assert(side_channel_of(c, layer, width, width, x, input) == layer_norm_of(
        c,
        layer,
        LayerTensor::PostPerLayerInputNorm,
        y,
    ));
}

} // verus!
