//! The blocks that the decoder layers are made of, as tensor programs. Every
//! builder states the formula of the tensor that it adds, and its type.

use crate::dtype::DType;
use crate::gemma4::config::{Activation, F64Bits};
use crate::tensor::op::{
    bin, contiguous, leaf, linear, minus, plus, scaled, times, un, BinOp, Expr, LayerTensor, Leaf,
    MapOp, Scalar, TOp,
};
use crate::tensor::program::{expr, extends, is, ty, Program, TypeView};
use vstd::prelude::*;

verus! {

/// How a learned normalization is carried out.
#[derive(Clone, Copy, Debug, PartialEq, Eq, Structural)]
pub enum Norm {
    /// Step by step, in single precision where the elements are narrower; the
    /// learned scale is an offset to one.
    Offset,
    /// In one operation, with the learned scale as it is.
    Fused,
}

/// The dtype in which sums of `dtype` are taken.
pub open spec fn internal_of(dtype: DType) -> DType {
    match dtype {
        DType::F16 | DType::BF16 => DType::F32,
        _ => dtype,
    }
}

fn internal(dtype: DType) -> (r: DType)
    ensures
        r == internal_of(dtype),
{
    match dtype {
        DType::F16 | DType::BF16 => DType::F32,
        _ => dtype,
    }
}

pub open spec fn each_of(op: MapOp, x: Expr) -> Expr {
    un(TOp::Each(op), x)
}

/// `x` over its root mean square along the last axis, times a learned scale.
pub open spec fn norm_of(
    kind: Norm,
    dtype: DType,
    eps: F64Bits,
    n: usize,
    x: Expr,
    w: Leaf,
) -> Expr {
    match kind {
        Norm::Fused => bin(TOp::RmsNorm(eps), x, leaf(w)),
        Norm::Offset => {
            let xi = un(TOp::Cast(internal_of(dtype)), x);
            let mean = each_of(
                MapOp::Div(Scalar::Count(n)),
                un(TOp::SumKeepLast, each_of(MapOp::Sqr, xi)),
            );
            let root = each_of(MapOp::Sqrt, each_of(MapOp::Add(Scalar::Bits(eps)), mean));
            bin(
                TOp::ZipBroadcast(BinOp::Mul),
                un(TOp::Cast(dtype), bin(TOp::ZipBroadcast(BinOp::Div), xi, root)),
                each_of(MapOp::Add(Scalar::One), leaf(w)),
            )
        },
    }
}

/// Adds a learned normalization along the last axis, which has `n` entries.
pub fn norm(p: &mut Program, kind: Norm, x: usize, w: Leaf, n: usize, eps: F64Bits) -> (r: usize)
    requires
        old(p).wf(),
        x < old(p)@.len(),
        ty(old(p)@, x as nat).dims.len() > 0,
        ty(old(p)@, x as nat).dims.last() == n,
    ensures
        final(p).wf(),
        extends(old(p)@, final(p)@),
        is(
            final(p)@,
            r,
            norm_of(kind, ty(old(p)@, x as nat).dtype, eps, n, expr(old(p)@, x as nat), w),
            ty(old(p)@, x as nat),
        ),
{
    let dtype: DType = p.dtype_of(x);
    let weight: usize = p.leaf_1(w, dtype, n);
    match kind {
        Norm::Fused => p.rms_norm(x, weight, eps),
        Norm::Offset => {
            let xi: usize = p.cast(x, internal(dtype));
            let sq: usize = p.each(MapOp::Sqr, xi);
            let sum: usize = p.sum_keep_last(sq);
            let mean: usize = p.each(MapOp::Div(Scalar::Count(n)), sum);
            let shifted: usize = p.each(MapOp::Add(Scalar::Bits(eps)), mean);
            let root: usize = p.each(MapOp::Sqrt, shifted);
            let normed: usize = p.zip_broadcast(BinOp::Div, xi, root);
            let back: usize = p.cast(normed, dtype);
            let scale: usize = p.each(MapOp::Add(Scalar::One), weight);
            p.zip_broadcast(BinOp::Mul, back, scale)
        },
    }
}

/// `x` over its root mean square along the last axis.
pub open spec fn v_norm_of(kind: Norm, dtype: DType, eps: F64Bits, x: Expr) -> Expr {
    let xi = match kind {
        Norm::Offset => un(TOp::Cast(DType::F32), x),
        Norm::Fused => un(TOp::Cast(DType::F32), contiguous(x)),
    };
    let mean = un(TOp::MeanKeepLast, each_of(MapOp::Sqr, xi));
    let root = each_of(MapOp::Sqrt, each_of(MapOp::Add(Scalar::Bits(eps)), mean));
    let normed = bin(TOp::ZipBroadcast(BinOp::Div), xi, root);
    match kind {
        Norm::Offset => un(TOp::Cast(dtype), normed),
        Norm::Fused => un(TOp::Cast(dtype), contiguous(normed)),
    }
}

/// Adds a normalization without a learned scale, carried out in single
/// precision.
pub fn v_norm(p: &mut Program, kind: Norm, x: usize, eps: F64Bits) -> (r: usize)
    requires
        old(p).wf(),
        x < old(p)@.len(),
        ty(old(p)@, x as nat).dims.len() > 0,
    ensures
        final(p).wf(),
        extends(old(p)@, final(p)@),
        is(
            final(p)@,
            r,
            v_norm_of(kind, ty(old(p)@, x as nat).dtype, eps, expr(old(p)@, x as nat)),
            ty(old(p)@, x as nat),
        ),
{
    let dtype: DType = p.dtype_of(x);
    let fused: bool = kind == Norm::Fused;
    let dense: usize = if fused {
        p.each(MapOp::Contiguous, x)
    } else {
        x
    };
    let xi: usize = p.cast(dense, DType::F32);
    let sq: usize = p.each(MapOp::Sqr, xi);
    let mean: usize = p.mean_keep_last(sq);
    let shifted: usize = p.each(MapOp::Add(Scalar::Bits(eps)), mean);
    let root: usize = p.each(MapOp::Sqrt, shifted);
    let normed: usize = p.zip_broadcast(BinOp::Div, xi, root);
    let out: usize = if fused {
        p.each(MapOp::Contiguous, normed)
    } else {
        normed
    };
    p.cast(out, dtype)
}

/// What the blocks of one pass through a model have in common: `batch`
/// sequences of `len` positions each.
#[derive(Clone, Copy, Debug, PartialEq, Eq, Structural)]
pub struct Style {
    pub norm: Norm,
    pub dtype: DType,
    pub batch: usize,
    pub len: usize,
    pub hidden: usize,
    /// The hidden size that scales are made of.
    pub nominal: usize,
    pub eps: F64Bits,
    pub act: Activation,
}

/// A hidden state of all positions.
pub open spec fn hidden_type(c: Style) -> TypeView {
    TypeView { dtype: c.dtype, dims: seq![c.batch, c.len, c.hidden] }
}

/// `n` parallel hidden states.
pub open spec fn stack_type(c: Style, n: usize) -> TypeView {
    TypeView { dtype: c.dtype, dims: seq![n, c.batch, c.len, c.hidden] }
}

/// Gate values less a threshold, which lies `z` standard deviations above
/// their mean; what would be negative is zero.
pub open spec fn sparse_of(dtype: DType, z: F64Bits, g: Expr) -> Expr {
    let gi = un(TOp::Cast(DType::F32), g);
    let mean = un(TOp::MeanKeepLast, gi);
    let var = un(
        TOp::MeanKeepLast,
        each_of(MapOp::Sqr, bin(TOp::ZipBroadcast(BinOp::Sub), gi, mean)),
    );
    let threshold = plus(mean, scaled(each_of(MapOp::Sqrt, var), Scalar::Bits(z)));
    let over = bin(TOp::ZipBroadcast(BinOp::Sub), gi, threshold);
    un(TOp::Cast(dtype), bin(TOp::Zip(BinOp::Maximum), over, each_of(MapOp::ZerosLike, over)))
}

fn sparse(p: &mut Program, g: usize, z: F64Bits) -> (r: usize)
    requires
        old(p).wf(),
        g < old(p)@.len(),
        ty(old(p)@, g as nat).dims.len() > 0,
    ensures
        final(p).wf(),
        extends(old(p)@, final(p)@),
        is(
            final(p)@,
            r,
            sparse_of(ty(old(p)@, g as nat).dtype, z, expr(old(p)@, g as nat)),
            ty(old(p)@, g as nat),
        ),
{
    let dtype: DType = p.dtype_of(g);
    let gi: usize = p.cast(g, DType::F32);
    let mean: usize = p.mean_keep_last(gi);
    let centred: usize = p.zip_broadcast(BinOp::Sub, gi, mean);
    let sq: usize = p.each(MapOp::Sqr, centred);
    let var: usize = p.mean_keep_last(sq);
    let std: usize = p.each(MapOp::Sqrt, var);
    let above: usize = p.each(MapOp::Mul(Scalar::Bits(z)), std);
    let threshold: usize = p.zip(BinOp::Add, mean, above);
    let over: usize = p.zip_broadcast(BinOp::Sub, gi, threshold);
    let zero: usize = p.each(MapOp::ZerosLike, over);
    let cut: usize = p.zip(BinOp::Maximum, over, zero);
    p.cast(cut, dtype)
}

/// The gated feed-forward block of a layer.
pub open spec fn mlp_of(c: Style, layer: usize, z: Option<F64Bits>, x: Expr) -> Expr {
    let gate = linear(x, Leaf::Layer(layer, LayerTensor::FfnGate));
    let cut = match z {
        Some(v) => sparse_of(c.dtype, v, gate),
        None => gate,
    };
    linear(
        times(each_of(MapOp::Act(c.act), cut), linear(x, Leaf::Layer(layer, LayerTensor::FfnUp))),
        Leaf::Layer(layer, LayerTensor::FfnDown),
    )
}

/// Adds the gated feed-forward block of a layer, `inner` wide.
pub fn mlp(
    p: &mut Program,
    c: &Style,
    layer: usize,
    inner: usize,
    z: Option<F64Bits>,
    x: usize,
) -> (r: usize)
    requires
        old(p).wf(),
        x < old(p)@.len(),
        ty(old(p)@, x as nat).dtype == c.dtype,
        ty(old(p)@, x as nat).dims.len() > 0,
        ty(old(p)@, x as nat).dims.last() == c.hidden,
    ensures
        final(p).wf(),
        extends(old(p)@, final(p)@),
        is(
            final(p)@,
            r,
            mlp_of(*c, layer, z, expr(old(p)@, x as nat)),
            ty(old(p)@, x as nat),
        ),
{
    let ghost t = ty(p@, x as nat);
    let wg: usize = p.leaf_2(Leaf::Layer(layer, LayerTensor::FfnGate), c.dtype, inner, c.hidden);
    let gate: usize = p.linear(x, wg);
    let cut: usize = match z {
        Some(v) => sparse(p, gate, v),
        None => gate,
    };
    let lhs: usize = p.each(MapOp::Act(c.act), cut);
    let wu: usize = p.leaf_2(Leaf::Layer(layer, LayerTensor::FfnUp), c.dtype, inner, c.hidden);
    let rhs: usize = p.linear(x, wu);
    let prod: usize = p.zip(BinOp::Mul, lhs, rhs);
    let wd: usize = p.leaf_2(Leaf::Layer(layer, LayerTensor::FfnDown), c.dtype, c.hidden, inner);
    proof {
        assert(t.dims.update(t.dims.len() - 1, inner).update(t.dims.len() - 1, c.hidden)
            =~= t.dims);
    }
    p.linear(prod, wd)
}

/// A low-rank residual.
pub open spec fn laurel_of(c: Style, layer: usize, x: Expr) -> Expr {
    let low = linear(
        linear(x, Leaf::Layer(layer, LayerTensor::LaurelLeft)),
        Leaf::Layer(layer, LayerTensor::LaurelRight),
    );
    plus(
        x,
        norm_of(
            c.norm,
            c.dtype,
            c.eps,
            c.hidden,
            low,
            Leaf::Layer(layer, LayerTensor::PostLaurelNorm),
        ),
    )
}

/// Adds a low-rank residual of the given rank.
pub fn laurel(p: &mut Program, c: &Style, layer: usize, rank: usize, x: usize) -> (r: usize)
    requires
        old(p).wf(),
        x < old(p)@.len(),
        ty(old(p)@, x as nat).dtype == c.dtype,
        ty(old(p)@, x as nat).dims.len() > 0,
        ty(old(p)@, x as nat).dims.last() == c.hidden,
    ensures
        final(p).wf(),
        extends(old(p)@, final(p)@),
        is(final(p)@, r, laurel_of(*c, layer, expr(old(p)@, x as nat)), ty(old(p)@, x as nat)),
{
    let ghost t = ty(p@, x as nat);
    let wl: usize = p.leaf_2(Leaf::Layer(layer, LayerTensor::LaurelLeft), c.dtype, rank, c.hidden);
    let l: usize = p.linear(x, wl);
    let wr: usize = p.leaf_2(Leaf::Layer(layer, LayerTensor::LaurelRight), c.dtype, c.hidden, rank);
    let low: usize = p.linear(l, wr);
    proof {
        assert(t.dims.update(t.dims.len() - 1, rank).update(t.dims.len() - 1, c.hidden)
            =~= t.dims);
    }
    let normed: usize = norm(
        p,
        c.norm,
        low,
        Leaf::Layer(layer, LayerTensor::PostLaurelNorm),
        c.hidden,
        c.eps,
    );
    p.zip(BinOp::Add, x, normed)
}

/// How much of each stream goes into each: the bounded response of a router.
pub open spec fn router_of(c: Style, layer: usize, x: Expr) -> Expr {
    let normed = norm_of(
        c.norm,
        c.dtype,
        c.eps,
        c.hidden,
        x,
        Leaf::Layer(layer, LayerTensor::AltupRouterNorm),
    );
    each_of(
        MapOp::Tanh,
        linear(
            scaled(normed, Scalar::Recip(c.nominal)),
            Leaf::Layer(layer, LayerTensor::AltupModalityRouter),
        ),
    )
}

fn compute_router_modalities(
    p: &mut Program,
    c: &Style,
    layer: usize,
    n: usize,
    x: usize,
) -> (r: usize)
    requires
        old(p).wf(),
        x < old(p)@.len(),
        ty(old(p)@, x as nat) == hidden_type(*c),
    ensures
        final(p).wf(),
        extends(old(p)@, final(p)@),
        is(
            final(p)@,
            r,
            router_of(*c, layer, expr(old(p)@, x as nat)),
            TypeView { dtype: c.dtype, dims: seq![c.batch, c.len, n] },
        ),
{
    let normed: usize = norm(
        p,
        c.norm,
        x,
        Leaf::Layer(layer, LayerTensor::AltupRouterNorm),
        c.hidden,
        c.eps,
    );
    let small: usize = p.each(MapOp::Mul(Scalar::Recip(c.nominal)), normed);
    let w: usize = p.leaf_2(
        Leaf::Layer(layer, LayerTensor::AltupModalityRouter),
        c.dtype,
        n,
        c.hidden,
    );
    let routed: usize = p.linear(small, w);
    proof {
        assert(ty(p@, routed as nat).dims =~= seq![c.batch, c.len, n]);
    }
    p.each(MapOp::Tanh, routed)
}

/// The streams plus a mixture of them, as the active one routes it.
pub open spec fn predict_of(c: Style, layer: usize, n: usize, active: usize, stack: Expr) -> Expr {
    let modalities = router_of(c, layer, un(TOp::Select { axis: 0, index: active }, stack));
    let coefs = un(
        TOp::Transpose { a: 2, b: 3 },
        un(
            TOp::SplitLast { outer: n, inner: n },
            linear(modalities, Leaf::Layer(layer, LayerTensor::AltupPredictionCoefs)),
        ),
    );
    let permuted = contiguous(un(TOp::Permute4 { a: 1, b: 2, c: 3, d: 0 }, stack));
    let predicted = contiguous(
        un(
            TOp::Permute4 { a: 3, b: 0, c: 1, d: 2 },
            bin(TOp::Matmul, permuted, contiguous(coefs)),
        ),
    );
    contiguous(plus(predicted, stack))
}

/// Adds the prediction of all streams.
pub fn predict(
    p: &mut Program,
    c: &Style,
    layer: usize,
    n: usize,
    active: usize,
    stack: usize,
) -> (r: usize)
    requires
        old(p).wf(),
        stack < old(p)@.len(),
        ty(old(p)@, stack as nat) == stack_type(*c, n),
        active < n,
        n * n <= usize::MAX,
    ensures
        final(p).wf(),
        extends(old(p)@, final(p)@),
        is(
            final(p)@,
            r,
            predict_of(*c, layer, n, active, expr(old(p)@, stack as nat)),
            stack_type(*c, n),
        ),
{
    let h: usize = c.hidden;
    let x: usize = p.select(stack, 0, active);
    proof {
        assert(ty(p@, x as nat).dims =~= seq![c.batch, c.len, h]);
    }
    let modalities: usize = compute_router_modalities(p, c, layer, n, x);
    let w: usize = p.leaf_2(
        Leaf::Layer(layer, LayerTensor::AltupPredictionCoefs),
        c.dtype,
        n * n,
        n,
    );
    let flat: usize = p.linear(modalities, w);
    let square: usize = p.split_last(flat, n, n);
    proof {
        assert(ty(p@, square as nat).dims =~= seq![c.batch, c.len, n, n]);
    }
    let coefs: usize = p.transpose(square, 2, 3);
    proof {
        assert(ty(p@, coefs as nat).dims =~= seq![c.batch, c.len, n, n]);
    }
    let moved: usize = p.permute_4(stack, 1, 2, 3, 0);
    let permuted: usize = p.each(MapOp::Contiguous, moved);
    let dense: usize = p.each(MapOp::Contiguous, coefs);
    let mixed: usize = p.matmul(permuted, dense);
    proof {
        assert(ty(p@, mixed as nat).dims =~= seq![c.batch, c.len, h, n]);
    }
    let back: usize = p.permute_4(mixed, 3, 0, 1, 2);
    let predicted: usize = p.each(MapOp::Contiguous, back);
    let sum: usize = p.zip(BinOp::Add, predicted, stack);
    p.each(MapOp::Contiguous, sum)
}

/// The predicted streams, each moved by a share of what the active one turned
/// out to be beyond its prediction.
pub open spec fn correct_of(
    c: Style,
    layer: usize,
    n: usize,
    active: usize,
    predictions: Expr,
    activated: Expr,
) -> Expr {
    let modalities = router_of(c, layer, activated);
    let innovation = contiguous(
        un(
            TOp::ExpandFirst { n },
            un(
                TOp::Unsqueeze { axis: 0 },
                minus(activated, un(TOp::Select { axis: 0, index: active }, predictions)),
            ),
        ),
    );
    let shares = each_of(
        MapOp::Add(Scalar::One),
        linear(modalities, Leaf::Layer(layer, LayerTensor::AltupCorrectionCoefs)),
    );
    let coefs = contiguous(
        un(TOp::Unsqueeze { axis: 3 }, un(TOp::Permute3 { a: 2, b: 0, c: 1 }, shares)),
    );
    contiguous(plus(bin(TOp::ZipBroadcast(BinOp::Mul), innovation, coefs), predictions))
}

/// Adds the correction of all streams by what the active one turned out to be.
pub fn correct(
    p: &mut Program,
    c: &Style,
    layer: usize,
    n: usize,
    active: usize,
    predictions: usize,
    activated: usize,
) -> (r: usize)
    requires
        old(p).wf(),
        predictions < old(p)@.len(),
        activated < old(p)@.len(),
        ty(old(p)@, predictions as nat) == stack_type(*c, n),
        ty(old(p)@, activated as nat) == hidden_type(*c),
        active < n,
    ensures
        final(p).wf(),
        extends(old(p)@, final(p)@),
        is(
            final(p)@,
            r,
            correct_of(
                *c,
                layer,
                n,
                active,
                expr(old(p)@, predictions as nat),
                expr(old(p)@, activated as nat),
            ),
            stack_type(*c, n),
        ),
{
    let h: usize = c.hidden;
    let modalities: usize = compute_router_modalities(
        p,
        c,
        layer,
        n,
        activated,
    );
    let x: usize = p.select(predictions, 0, active);
    proof {
        assert(ty(p@, x as nat).dims =~= seq![c.batch, c.len, h]);
    }
    let surprise: usize = p.zip(BinOp::Sub, activated, x);
    let one: usize = p.unsqueeze(surprise, 0);
    proof {
        assert(ty(p@, one as nat).dims =~= seq![1usize, c.batch, c.len, h]);
    }
    let wide: usize = p.expand_first(one, n);
    proof {
        assert(ty(p@, wide as nat).dims =~= seq![n, c.batch, c.len, h]);
    }
    let innovation: usize = p.each(MapOp::Contiguous, wide);
    let w: usize = p.leaf_2(Leaf::Layer(layer, LayerTensor::AltupCorrectionCoefs), c.dtype, n, n);
    let raw: usize = p.linear(modalities, w);
    proof {
        assert(ty(p@, raw as nat).dims =~= seq![c.batch, c.len, n]);
    }
    let shares: usize = p.each(MapOp::Add(Scalar::One), raw);
    let moved: usize = p.permute_3(shares, 2, 0, 1);
    let column: usize = p.unsqueeze(moved, 3);
    proof {
        assert(ty(p@, column as nat).dims =~= seq![n, c.batch, c.len, 1usize]);
    }
    let coefs: usize = p.each(MapOp::Contiguous, column);
    let scaled_innovation: usize = p.zip_broadcast(BinOp::Mul, innovation, coefs);
    let sum: usize = p.zip(BinOp::Add, scaled_innovation, predictions);
    p.each(MapOp::Contiguous, sum)
}

/// Whether axes of `a` and `b` entries go together: they are equal, or one of
/// them has one entry, which is repeated.
pub open spec fn go_together(a: usize, b: usize) -> bool {
    a == b || a == 1 || b == 1
}

/// Entries of an axis that such axes make up.
pub open spec fn together(a: usize, b: usize) -> usize {
    if a == 1 {
        b
    } else {
        a
    }
}

/// The gated auxiliary embedding of a layer. Its gate values are `gate` wide and
/// the embedding `width`; a single gate value is repeated.
pub open spec fn side_channel_of(
    c: Style,
    layer: usize,
    gate: usize,
    width: usize,
    x: Expr,
    input: Expr,
) -> Expr {
    let values = each_of(
        MapOp::Act(c.act),
        linear(x, Leaf::Layer(layer, LayerTensor::PerLayerInputGate)),
    );
    let gated = if gate == 1 && width != 1 {
        bin(TOp::ZipBroadcast(BinOp::Mul), input, values)
    } else {
        bin(TOp::ZipBroadcast(BinOp::Mul), values, input)
    };
    norm_of(
        c.norm,
        c.dtype,
        c.eps,
        c.hidden,
        linear(gated, Leaf::Layer(layer, LayerTensor::PerLayerProjection)),
        Leaf::Layer(layer, LayerTensor::PostPerLayerInputNorm),
    )
}

/// Adds the gated auxiliary embedding of a layer.
pub fn side_channel(
    p: &mut Program,
    c: &Style,
    layer: usize,
    gate: usize,
    width: usize,
    x: usize,
    input: usize,
) -> (r: usize)
    requires
        old(p).wf(),
        x < old(p)@.len(),
        input < old(p)@.len(),
        go_together(gate, width),
        ty(old(p)@, x as nat) == hidden_type(*c),
        ty(old(p)@, input as nat) == (TypeView { dtype: c.dtype, dims: seq![c.batch, c.len, width] }),
    ensures
        final(p).wf(),
        extends(old(p)@, final(p)@),
        is(
            final(p)@,
            r,
            side_channel_of(
                *c,
                layer,
                gate,
                width,
                expr(old(p)@, x as nat),
                expr(old(p)@, input as nat),
            ),
            hidden_type(*c),
        ),
{
    let wg: usize = p.leaf_2(
        Leaf::Layer(layer, LayerTensor::PerLayerInputGate),
        c.dtype,
        gate,
        c.hidden,
    );
    let raw: usize = p.linear(x, wg);
    proof {
        assert(ty(p@, raw as nat).dims =~= seq![c.batch, c.len, gate]);
    }
    let values: usize = p.each(MapOp::Act(c.act), raw);
    let (gated, wide): (usize, usize) = if gate == 1 && width != 1 {
        (p.zip_broadcast(BinOp::Mul, input, values), width)
    } else {
        (p.zip_broadcast(BinOp::Mul, values, input), gate)
    };
    let wp: usize = p.leaf_2(
        Leaf::Layer(layer, LayerTensor::PerLayerProjection),
        c.dtype,
        c.hidden,
        wide,
    );
    let out: usize = p.linear(gated, wp);
    proof {
        assert(ty(p@, out as nat).dims =~= seq![c.batch, c.len, c.hidden]);
    }
    norm(
        p,
        c.norm,
        out,
        Leaf::Layer(layer, LayerTensor::PostPerLayerInputNorm),
        c.hidden,
        c.eps,
    )
}

} // verus!
