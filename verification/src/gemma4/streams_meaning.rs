//! What is computed with parallel streams, in real numbers.

use crate::analysis::{larger, lemma_sum_equal, sum};
use crate::dtype::DType;
use crate::gemma4::block::{correct_of, each_of, predict_of, router_of, side_channel_of, Style};
use crate::gemma4::block_meaning::{inside, lemma_spread_column};
use crate::gemma4::config::F64Bits;
use crate::gemma4::layer::{
    activated_of, active_of, altup_of, delta_of, fed_forward_of, layer_norm_of, merged_laurel_of,
    LayerBody, Streams,
};
use crate::gemma4::layer_meaning::{lemma_linear3, lemma_plus, row_by, weight};
use crate::gemma4::streams::{
    averaged_of, expanded_of, lifted_of, lowered_of, magnitude_of, projection_of, rescaled_of,
    summed_of, FLOOR, Rescale,
};
use crate::tensor::meaning::{
    mean_bin, mean_leaf, mean_square, mean_un, meaning, meanings, place3, place4, spread_to,
    swapped, with_last, World,
};
use crate::tensor::op::{
    bin, contiguous, leaf, linear, minus, plus, scaled, un, BinOp, Expr, LayerTensor, Leaf, MapOp,
    Scalar, StreamTensor, TOp,
};
use vstd::prelude::*;

verus! {

/// One stream of a stack.
pub proof fn lemma_stream(w: World, stack: Expr, s: usize, b: int, t: int, k: int)
    ensures
        (meaning(w, un(TOp::Select { axis: 0, index: s }, stack)).at)(place3(b, t, k)) == (meaning(
            w,
            stack,
        ).at)(place4(s as int, b, t, k)),
{
    mean_un(w, TOp::Select { axis: 0, index: s }, stack);
    assert(place3(b, t, k).insert(0, s as int) =~= place4(s as int, b, t, k));
}

/// A router's response is the hyperbolic tangent of the product of the
/// normalized state, over the hidden size, with the router's weight.
pub proof fn law_router(w: World, c: Style, layer: usize, x: Expr, b: int, t: int, o: int)
    requires
        meaning(w, x).dims.len() == 3,
        meaning(w, layer_norm_of(c, layer, LayerTensor::AltupRouterNorm, x)).dims == meaning(
            w,
            x,
        ).dims,
    ensures
        ({
            let normed = meaning(w, layer_norm_of(c, layer, LayerTensor::AltupRouterNorm, x));
            (meaning(w, router_of(c, layer, x)).at)(place3(b, t, o)) == w.m.tanh(
                sum(
                    meaning(w, x).dims.last() as nat,
                    |k: int|
                        (normed.at)(place3(b, t, k)) * (1real / c.nominal as real) * (weight(
                            w,
                            layer,
                            LayerTensor::AltupModalityRouter,
                        ).at)(seq![o, k]),
                ),
            )
        }),
        meaning(w, router_of(c, layer, x)).dims.len() == 3,
        meaning(w, router_of(c, layer, x)).dims.last() == weight(
            w,
            layer,
            LayerTensor::AltupModalityRouter,
        ).dims[0],
{
    let normed = layer_norm_of(c, layer, LayerTensor::AltupRouterNorm, x);
    let small = scaled(normed, Scalar::Recip(c.nominal));
    let l = Leaf::Layer(layer, LayerTensor::AltupModalityRouter);
    let routed = linear(small, l);
    mean_un(w, TOp::Each(MapOp::Mul(Scalar::Recip(c.nominal))), normed);
    lemma_linear3(w, small, l, b, t, o);
    mean_un(w, TOp::Each(MapOp::Tanh), routed);
    let n = meaning(w, x).dims.last() as nat;
    let f = |k: int| (meaning(w, small).at)(place3(b, t, k)) * ((w.leaf)(l).at)(seq![o, k]);
    let g = |k: int|
        (meaning(w, normed).at)(place3(b, t, k)) * (1real / c.nominal as real) * ((w.leaf)(l).at)(
            seq![o, k],
        );
    lemma_sum_equal(n, f, g);
}

/// The prediction of a stream is the stream, and a mixture of all streams: the
/// router of the active one says how much of stream `j` goes into stream `s`,
/// by entry `s * n + j` of its coefficients.
pub proof fn law_predict(
    w: World,
    c: Style,
    layer: usize,
    n: usize,
    active: usize,
    stack: Expr,
    s: int,
    b: int,
    t: int,
    k: int,
)
    requires
        meaning(w, stack).dims.len() == 4,
        meaning(w, stack).dims[0] == n,
        meaning(
            w,
            router_of(c, layer, un(TOp::Select { axis: 0, index: active }, stack)),
        ).dims.len() == 3,
    ensures
        ({
            let x = meaning(w, stack);
            let routed = meaning(
                w,
                router_of(c, layer, un(TOp::Select { axis: 0, index: active }, stack)),
            );
            let coefs = weight(w, layer, LayerTensor::AltupPredictionCoefs);
            (meaning(w, predict_of(c, layer, n, active, stack)).at)(place4(s, b, t, k)) == (x.at)(
                place4(s, b, t, k),
            ) + sum(
                n as nat,
                |j: int|
                    (x.at)(place4(j, b, t, k)) * row_by(routed, coefs, b, t, s * n + j),
            )
        }),
{
    let x = meaning(w, stack);
    let modalities = router_of(c, layer, un(TOp::Select { axis: 0, index: active }, stack));
    let l = Leaf::Layer(layer, LayerTensor::AltupPredictionCoefs);
    let flat = linear(modalities, l);
    let split = TOp::SplitLast { outer: n, inner: n };
    let square = un(split, flat);
    let coefs = un(TOp::Transpose { a: 2, b: 3 }, square);
    let there = TOp::Permute4 { a: 1, b: 2, c: 3, d: 0 };
    let back = TOp::Permute4 { a: 3, b: 0, c: 1, d: 2 };
    let permuted = contiguous(un(there, stack));
    let mixed = bin(TOp::Matmul, permuted, contiguous(coefs));
    let predicted = contiguous(un(back, mixed));
    let total = plus(predicted, stack);
    lemma_linear3(w, modalities, l, b, t, 0);
    mean_un(w, split, flat);
    mean_un(w, TOp::Transpose { a: 2, b: 3 }, square);
    mean_un(w, TOp::Each(MapOp::Contiguous), coefs);
    mean_un(w, there, stack);
    mean_un(w, TOp::Each(MapOp::Contiguous), un(there, stack));
    mean_bin(w, TOp::Matmul, permuted, contiguous(coefs));
    mean_un(w, back, mixed);
    mean_un(w, TOp::Each(MapOp::Contiguous), un(back, mixed));
    lemma_plus(w, predicted, stack, place4(s, b, t, k));
    mean_un(w, TOp::Each(MapOp::Contiguous), total);
    let i = place4(s, b, t, k);
    let p = place4(b, t, k, s);
    assert(i.update(3, i[0]).update(0, i[1]).update(1, i[2]).update(2, i[3]) =~= p);
    assert(meaning(w, permuted).dims.last() == n);
    let f = |j: int|
        (meaning(w, permuted).at)(with_last(p, j)) * (meaning(w, contiguous(coefs)).at)(
            p.update(2, j),
        );
    let g = |j: int|
        (x.at)(place4(j, b, t, k)) * row_by(meaning(w, modalities), (w.leaf)(l), b, t, s * n + j);
    assert forall|j: int| 0 <= j < n implies #[trigger] f(j) == g(j) by {
        let q = place4(b, t, k, j);
        assert(with_last(p, j) =~= q);
        assert(q.update(1, q[0]).update(2, q[1]).update(3, q[2]).update(0, q[3]) =~= place4(
            j,
            b,
            t,
            k,
        ));
        assert(p.update(2, j) =~= place4(b, t, j, s));
        assert(swapped(place4(b, t, j, s), 2, 3) =~= place4(b, t, s, j));
        assert(place4(b, t, s, j).drop_last().drop_last().push(s * n + j) =~= place3(
            b,
            t,
            s * n + j,
        ));
        lemma_linear3(w, modalities, l, b, t, s * n + j);
    }
    lemma_sum_equal(n as nat, f, g);
}

/// A corrected stream is its prediction, and a share of what the active stream
/// turned out to be beyond its prediction: one and the entry of the router's
/// coefficients for the stream.
pub proof fn law_correct(
    w: World,
    c: Style,
    layer: usize,
    n: usize,
    active: usize,
    predictions: Expr,
    activated: Expr,
    s: int,
    b: int,
    t: int,
    k: int,
)
    requires
        meaning(w, activated).dims.len() == 3,
        meaning(w, router_of(c, layer, activated)).dims.len() == 3,
        meaning(w, router_of(c, layer, activated)).dims[0] == meaning(w, activated).dims[0],
        meaning(w, router_of(c, layer, activated)).dims[1] == meaning(w, activated).dims[1],
        weight(w, layer, LayerTensor::AltupCorrectionCoefs).dims[0] == n,
        0 <= s < n,
        inside(place3(b, t, k), meaning(w, activated).dims),
    ensures
        ({
            let p = meaning(w, predictions);
            let routed = meaning(w, router_of(c, layer, activated));
            let coefs = weight(w, layer, LayerTensor::AltupCorrectionCoefs);
            (meaning(w, correct_of(c, layer, n, active, predictions, activated)).at)(
                place4(s, b, t, k),
            ) == (p.at)(place4(s, b, t, k)) + ((meaning(w, activated).at)(place3(b, t, k)) - (p.at)(
                place4(active as int, b, t, k),
            )) * (row_by(routed, coefs, b, t, s) + 1real)
        }),
{
    let modalities = router_of(c, layer, activated);
    let l = Leaf::Layer(layer, LayerTensor::AltupCorrectionCoefs);
    let one = un(TOp::Select { axis: 0, index: active }, predictions);
    let surprise = minus(activated, one);
    let column = un(TOp::Unsqueeze { axis: 0 }, surprise);
    let wide = un(TOp::ExpandFirst { n }, column);
    let innovation = contiguous(wide);
    let raw = linear(modalities, l);
    let shares = each_of(MapOp::Add(Scalar::One), raw);
    let turn = TOp::Permute3 { a: 2, b: 0, c: 1 };
    let moved = un(turn, shares);
    let high = un(TOp::Unsqueeze { axis: 3 }, moved);
    let coefs = contiguous(high);
    let part = bin(TOp::ZipBroadcast(BinOp::Mul), innovation, coefs);
    let total = plus(part, predictions);
    lemma_stream(w, predictions, active, b, t, k);
    mean_bin(w, TOp::Zip(BinOp::Sub), activated, one);
    mean_un(w, TOp::Unsqueeze { axis: 0 }, surprise);
    mean_un(w, TOp::ExpandFirst { n }, column);
    mean_un(w, TOp::Each(MapOp::Contiguous), wide);
    lemma_linear3(w, modalities, l, b, t, s);
    mean_un(w, TOp::Each(MapOp::Add(Scalar::One)), raw);
    mean_un(w, turn, shares);
    mean_un(w, TOp::Unsqueeze { axis: 3 }, moved);
    mean_un(w, TOp::Each(MapOp::Contiguous), high);
    mean_bin(w, TOp::ZipBroadcast(BinOp::Mul), innovation, coefs);
    let i = place4(s, b, t, k);
    lemma_plus(w, part, predictions, i);
    mean_un(w, TOp::Each(MapOp::Contiguous), total);
    assert(i.update(0, 0).remove(0) =~= place3(b, t, k));
    let d = meaning(w, activated).dims;
    assert(meaning(w, coefs).dims =~= seq![n as int, d[0], d[1], 1int]);
    let j = place4(s, b, t, 0);
    assert(spread_to(i, meaning(w, coefs).dims) =~= j) by {
        let i3 = place3(b, t, k);
        assert(0 <= i3[0] < d[0] && 0 <= i3[1] < d[1]);
    }
    assert(j.remove(3) =~= place3(s, b, t));
    let q = place3(s, b, t);
    assert(q.update(2, q[0]).update(0, q[1]).update(1, q[2]) =~= place3(b, t, s));
}

proof fn lemma_stack(w: World, args: Seq<Expr>, s: int, b: int, t: int, k: int)
    requires
        0 <= s < args.len(),
    ensures
        (meaning(w, Expr::Node(TOp::Stack, args)).at)(place4(s, b, t, k)) == (meaning(
            w,
            args[s],
        ).at)(place3(b, t, k)),
{
    let e = Expr::Node(TOp::Stack, args);
    assert(meanings(w, e)[s] == meaning(w, args[s]));
    assert(place4(s, b, t, k).skip(1) =~= place3(b, t, k));
}

/// The auxiliary embedding is added to all streams alike but the active one, to
/// which nothing is added.
pub proof fn law_delta(w: World, s: Streams, first: Expr, j: int, b: int, t: int, k: int)
    requires
        0 <= j < s.n,
    ensures
        (meaning(w, delta_of(s, first)).at)(place4(j, b, t, k)) == (if j == s.active {
            0real
        } else {
            (meaning(w, first).at)(place3(b, t, k))
        }),
{
    lemma_stack(w, delta_of(s, first)->Node_1, j, b, t, k);
    mean_un(w, TOp::Each(MapOp::ZerosLike), first);
}

/// The magnitude of a row is the root of its mean square.
pub proof fn law_magnitude(w: World, x: Expr, i: Seq<int>)
    requires
        inside(i, meaning(w, x).dims),
    ensures
        (meaning(w, magnitude_of(x)).at)(with_last(i, 0)) == (w.m.sqrt)(
            mean_square(meaning(w, x), i),
        ),
        meaning(w, magnitude_of(x)).dims == with_last(meaning(w, x).dims, 1),
{
    let mx = meaning(w, x);
    let wide = un(TOp::Cast(DType::F32), x);
    let sq = each_of(MapOp::Sqr, wide);
    let mean = un(TOp::MeanKeepLast, sq);
    mean_un(w, TOp::Cast(DType::F32), x);
    mean_un(w, TOp::Each(MapOp::Sqr), wide);
    mean_un(w, TOp::MeanKeepLast, sq);
    mean_un(w, TOp::Each(MapOp::Sqrt), mean);
    lemma_spread_column(i, mx.dims);
    let n = mx.dims.last() as nat;
    let f = |k: int| (meaning(w, sq).at)(with_last(with_last(i, 0), k));
    let g = |k: int| (mx.at)(with_last(i, k)) * (mx.at)(with_last(i, k));
    assert forall|k: int| 0 <= k < n implies #[trigger] f(k) == g(k) by {
        assert(with_last(with_last(i, 0), k) == with_last(i, k));
    }
    lemma_sum_equal(n, f, g);
    assert((meaning(w, mean).at)(with_last(i, 0)) == sum(n, f) / mx.dims.last() as real);
}

/// A row that is brought to a magnitude is multiplied by it and divided by its
/// own, or by a small number where its own is below that.
pub proof fn law_rescaled(w: World, dtype: DType, x: Expr, target: Expr, i: Seq<int>)
    requires
        inside(i, meaning(w, x).dims),
        meaning(w, target).dims == with_last(meaning(w, x).dims, 1),
    ensures
        (meaning(w, rescaled_of(dtype, x, target)).at)(i) == (meaning(w, x).at)(i) * ((meaning(
            w,
            target,
        ).at)(with_last(i, 0)) / larger(
            (w.m.sqrt)(mean_square(meaning(w, x), i)),
            (w.number)(F64Bits { bits: FLOOR }),
        )),
{
    let wide = un(TOp::Cast(DType::F32), x);
    mean_un(w, TOp::Cast(DType::F32), x);
    let own = magnitude_of(wide);
    let floor = MapOp::AtLeast(Scalar::Bits(F64Bits { bits: FLOOR }));
    let mag = each_of(floor, own);
    let scale = bin(TOp::ZipBroadcast(BinOp::Div), target, mag);
    let out = bin(TOp::ZipBroadcast(BinOp::Mul), wide, scale);
    law_magnitude(w, wide, i);
    mean_un(w, TOp::Each(floor), own);
    mean_bin(w, TOp::ZipBroadcast(BinOp::Div), target, mag);
    mean_bin(w, TOp::ZipBroadcast(BinOp::Mul), wide, scale);
    mean_un(w, TOp::Cast(dtype), out);
    let d = meaning(w, x).dims;
    lemma_spread_column(i, d);
    let i0 = with_last(i, 0);
    assert(inside(i0, with_last(d, 1))) by {
        assert forall|j: int| 0 <= j < d.len() implies 0 <= #[trigger] i0[j] < with_last(
            d,
            1,
        )[j] by {
            assert(0 <= i[j] < d[j]);
        }
    }
    lemma_spread_column(i0, with_last(d, 1));
    assert(with_last(with_last(d, 1), 1) =~= with_last(d, 1));
    assert(with_last(i0, 0) =~= i0);
}

/// The streams that a state is spread over: the active one is the state, each
/// other one a projection of it by a weight of its own.
pub proof fn law_expanded(
    w: World,
    c: Style,
    s: Streams,
    rescale: Rescale,
    x: Expr,
    j: int,
    b: int,
    t: int,
    k: int,
)
    requires
        0 <= j < s.n,
        s.active < s.n,
        meaning(w, x).dims.len() == 3,
    ensures
        ({
            let y = (meaning(w, expanded_of(c, s, rescale, x)).at)(place4(j, b, t, k));
            let own = if j < s.active {
                j
            } else {
                j - 1
            };
            let l = Leaf::Stream(own as usize, StreamTensor::Projection);
            &&& j == s.active ==> y == (meaning(w, x).at)(place3(b, t, k))
            &&& j != s.active && rescale == Rescale::No ==> y == row_by(
                meaning(w, x),
                (w.leaf)(l),
                b,
                t,
                k,
            )
            &&& j != s.active && rescale == Rescale::Yes ==> y == (meaning(
                w,
                rescaled_of(c.dtype, linear(x, l), magnitude_of(x)),
            ).at)(place3(b, t, k))
        }),
{
    let args = expanded_of(c, s, rescale, x)->Node_1;
    lemma_stack(w, args, j, b, t, k);
    assert(args[j] == lifted_of(c, s, rescale, x, j));
    if j != s.active {
        let l = Leaf::Stream(projection_of(s, j) as usize, StreamTensor::Projection);
        lemma_linear3(w, x, l, b, t, k);
    }
}

/// The streams' mean takes in the active one as it is, and every other one
/// projected back by a weight of its own and brought to the active one's
/// magnitude.
pub proof fn law_averaged(w: World, c: Style, s: Streams, stack: Expr, b: int, t: int, k: int)
    requires
        s.active < s.n,
    ensures
        (meaning(w, averaged_of(c, s, stack)).at)(place3(b, t, k)) == sum(
            s.n as nat,
            |j: int|
                if j == s.active {
                    (meaning(w, stack).at)(place4(j, b, t, k))
                } else {
                    let own = if j < s.active {
                        j
                    } else {
                        j - 1
                    };
                    (meaning(
                        w,
                        rescaled_of(
                            c.dtype,
                            linear(
                                un(TOp::Select { axis: 0, index: j as usize }, stack),
                                Leaf::Stream(own as usize, StreamTensor::UnembedProjection),
                            ),
                            magnitude_of(un(TOp::Select { axis: 0, index: s.active }, stack)),
                        ),
                    ).at)(place3(b, t, k))
                },
        ) / s.n as real,
{
    let args = Seq::new(s.n as nat, |i: int| lowered_of(c, s, stack, i));
    let all = Expr::Node(TOp::Stack, args);
    mean_un(w, TOp::MeanFirst, all);
    let i = place3(b, t, k);
    let f = |j: int| (meaning(w, all).at)(seq![j] + i);
    let g = |j: int|
        if j == s.active {
            (meaning(w, stack).at)(place4(j, b, t, k))
        } else {
            let own = if j < s.active {
                j
            } else {
                j - 1
            };
            (meaning(
                w,
                rescaled_of(
                    c.dtype,
                    linear(
                        un(TOp::Select { axis: 0, index: j as usize }, stack),
                        Leaf::Stream(own as usize, StreamTensor::UnembedProjection),
                    ),
                    magnitude_of(un(TOp::Select { axis: 0, index: s.active }, stack)),
                ),
            ).at)(place3(b, t, k))
        };
    assert(meaning(w, all).dims[0] == s.n);
    assert forall|j: int| 0 <= j < s.n implies #[trigger] f(j) == g(j) by {
        assert(seq![j] + i =~= place4(j, b, t, k));
        lemma_stack(w, args, j, b, t, k);
        lemma_stream(w, stack, s.active, b, t, k);
    }
    lemma_sum_equal(s.n as nat, f, g);
}

/// The streams' sum is the active one, and every other one projected back by a
/// weight of its own.
pub proof fn law_summed(w: World, s: Streams, stack: Expr, n: nat, b: int, t: int, k: int)
    requires
        s.active < s.n,
        n <= s.n,
        meaning(w, stack).dims.len() == 4,
    ensures
        (meaning(w, summed_of(s, stack, n)).at)(place3(b, t, k)) == (meaning(w, stack).at)(
            place4(s.active as int, b, t, k),
        ) + sum(
            n,
            |j: int|
                if j == s.active {
                    0real
                } else {
                    let own = if j < s.active {
                        j
                    } else {
                        j - 1
                    };
                    row_by(
                        meaning(w, un(TOp::Select { axis: 0, index: j as usize }, stack)),
                        (w.leaf)(Leaf::Stream(own as usize, StreamTensor::UnembedProjection)),
                        b,
                        t,
                        k,
                    )
                },
        ),
    decreases n,
{
    if n == 0 {
        lemma_stream(w, stack, s.active, b, t, k);
        mean_un(w, TOp::Each(MapOp::Contiguous), active_of(s, stack));
    } else {
        law_summed(w, s, stack, (n - 1) as nat, b, t, k);
        let j = n - 1;
        if j != s.active {
            let one = un(TOp::Select { axis: 0, index: j as usize }, stack);
            let l = Leaf::Stream(projection_of(s, j) as usize, StreamTensor::UnembedProjection);
            mean_un(w, TOp::Select { axis: 0, index: j as usize }, stack);
            lemma_linear3(w, one, l, b, t, k);
            lemma_plus(w, summed_of(s, stack, (n - 1) as nat), linear(one, l), place3(b, t, k));
        }
    }
}

/// A layer on parallel streams goes on from the active stream's prediction with
/// what attention made of it, normalized and merged with the low-rank residual;
/// feeds that forward; corrects all streams by what comes of it; and adds the
/// gated auxiliary embedding, made of the corrected active stream, to all
/// streams but that one.
pub proof fn law_altup(
    w: World,
    c: Style,
    l: LayerBody,
    s: Streams,
    predictions: Expr,
    normed: Expr,
    attn: Expr,
    side: Option<Expr>,
    j: int,
    b: int,
    t: int,
    k: int,
)
    requires
        0 <= j < s.n,
        s.active < s.n,
    ensures
        exists|mid: Expr, first: Expr| #[trigger]
            goes_on(w, c, l, s, predictions, normed, attn, side, mid, first, j, b, t, k),
{
    let post = layer_norm_of(c, l.layer, LayerTensor::PostAttentionNorm, attn);
    let active = active_of(s, predictions);
    let mid = plus(active, post);
    assert forall|b: int, t: int, k: int| #[trigger]
        (meaning(w, mid).at)(place3(b, t, k)) == (meaning(w, predictions).at)(
            place4(s.active as int, b, t, k),
        ) + (meaning(w, post).at)(place3(b, t, k)) by {
        lemma_stream(w, predictions, s.active, b, t, k);
        lemma_plus(w, active, post, place3(b, t, k));
    }
    let activated = activated_of(c, l, active, normed, attn);
    let corrected = correct_of(c, l.layer, s.n, s.active, predictions, activated);
    let dense = contiguous(active_of(s, corrected));
    mean_un(w, TOp::Each(MapOp::Contiguous), active_of(s, corrected));
    let g = Leaf::Layer(l.layer, LayerTensor::AltupCorrectOutputScale);
    mean_leaf(w, g);
    mean_bin(w, TOp::ZipBroadcast(BinOp::Mul), dense, leaf(g));
    let first = if s.correct_scale {
        bin(TOp::ZipBroadcast(BinOp::Mul), dense, leaf(g))
    } else {
        dense
    };
    assert forall|b: int, t: int, k: int| #[trigger]
        (meaning(w, first).at)(place3(b, t, k)) == (meaning(w, corrected).at)(
            place4(s.active as int, b, t, k),
        ) * scale_at(w, l, s, place3(b, t, k)) by {
        lemma_stream(w, corrected, s.active, b, t, k);
    }
    if let (Some(n), Some(e)) = (l.side, side) {
        let channel = side_channel_of(c, l.layer, l.gate, n, first, e);
        lemma_plus(w, corrected, delta_of(s, channel), place4(j, b, t, k));
        law_delta(w, s, channel, j, b, t, k);
    }
    assert(goes_on(w, c, l, s, predictions, normed, attn, side, mid, first, j, b, t, k));
}

/// How the streams go on: `mid` is the state that is fed forward, `first` the
/// one that the auxiliary embedding's gate values are made of.
pub open spec fn goes_on(
    w: World,
    c: Style,
    l: LayerBody,
    s: Streams,
    predictions: Expr,
    normed: Expr,
    attn: Expr,
    side: Option<Expr>,
    mid: Expr,
    first: Expr,
    j: int,
    b: int,
    t: int,
    k: int,
) -> bool {
    let post = layer_norm_of(c, l.layer, LayerTensor::PostAttentionNorm, attn);
    let activated = fed_forward_of(c, l, merged_laurel_of(c, l, mid, normed));
    let corrected = correct_of(c, l.layer, s.n, s.active, predictions, activated);
    let out = altup_of(c, l, s, predictions, normed, attn, side);
    &&& forall|b: int, t: int, k: int| #[trigger]
        (meaning(w, mid).at)(place3(b, t, k)) == (meaning(w, predictions).at)(
            place4(s.active as int, b, t, k),
        ) + (meaning(w, post).at)(place3(b, t, k))
    &&& forall|b: int, t: int, k: int| #[trigger]
        (meaning(w, first).at)(place3(b, t, k)) == (meaning(w, corrected).at)(
            place4(s.active as int, b, t, k),
        ) * scale_at(w, l, s, place3(b, t, k))
    &&& (meaning(w, out).at)(place4(j, b, t, k)) == (meaning(w, corrected).at)(place4(j, b, t, k))
        + (match (l.side, side) {
        (Some(n), Some(e)) if j != s.active => (meaning(
            w,
            side_channel_of(c, l.layer, l.gate, n, first, e),
        ).at)(place3(b, t, k)),
        _ => 0real,
    })
}

/// The learned scale of the corrected active stream, one where there is none.
pub open spec fn scale_at(w: World, l: LayerBody, s: Streams, i: Seq<int>) -> real {
    let g = weight(w, l.layer, LayerTensor::AltupCorrectOutputScale);
    if s.correct_scale {
        (g.at)(spread_to(i, g.dims))
    } else {
        1real
    }
}

} // verus!
