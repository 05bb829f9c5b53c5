//! Which tensors a formula reads.

use crate::dtype::DType;
use crate::gemma4::attention::{
    affine_of, appended_of, attention_of, bias_of, cached_of, concatenated_of, dense_heads_of,
    grouped_of, key_of, masked_of, merged_of, query_of, split_of, text_attention_of, text_key_of,
    text_query_of, text_value_of, value_of, weighted_of, DecodePath, Heads, KvExpr, QAttention,
    TextAttention,
};
use crate::gemma4::block::{
    correct_of, each_of, laurel_of, mlp_of, norm_of, predict_of, router_of, side_channel_of,
    sparse_of, v_norm_of, Norm, Style,
};
use crate::gemma4::config::F64Bits;
use crate::gemma4::ends::{
    capped_of, last_then_norm_of, logits_of, looked_up_of, norm_then_last_of, output_norm_of,
    side_table_of, SideEmbedding,
};
use crate::gemma4::kv_cache::Trim;
use crate::gemma4::layer::{
    activated_of, active_of, altup_of, classic_of, delta_of, fed_forward_of, layer_norm_of,
    merged_laurel_of, LayerBody, Streams,
};
use crate::gemma4::pass::{
    attention_input_of, first_stop, next_of, run_of, seen_by, side_at, stop_at, CacheStep, PassView,
};
use crate::gemma4::streams::{
    averaged_of, expanded_of, lifted_of, lowered_of, magnitude_of, projection_of, rescaled_of,
    summed_of, Rescale,
};
use crate::gemma4::text::{self, TextPassView};
use crate::tensor::op::{
    bin, contiguous, leaf, linear, plus, scaled, tri, un, BinOp, Expr, KvPart, LayerTensor, Leaf,
    MapOp, Scalar, StreamTensor, TOp, TopTensor,
};
use vstd::prelude::*;

verus! {

/// Every tensor that a formula reads is one of `ok`.
pub open spec fn reads_only(e: Expr, ok: spec_fn(Leaf) -> bool) -> bool
    decreases e,
{
    match e {
        Expr::Node(op, args) => {
            &&& op matches TOp::Leaf(l) ==> ok(l)
            &&& forall|i: int| 0 <= i < args.len() ==> reads_only(#[trigger] args[i], ok)
        },
    }
}

broadcast proof fn reads_leaf(l: Leaf, ok: spec_fn(Leaf) -> bool)
    requires
        ok(l),
    ensures
        #[trigger] reads_only(leaf(l), ok),
{
}

broadcast proof fn reads_un(op: TOp, x: Expr, ok: spec_fn(Leaf) -> bool)
    requires
        !(op is Leaf),
        reads_only(x, ok),
    ensures
        #[trigger] reads_only(un(op, x), ok),
{
}

broadcast proof fn reads_bin(op: TOp, x: Expr, y: Expr, ok: spec_fn(Leaf) -> bool)
    requires
        !(op is Leaf),
        reads_only(x, ok),
        reads_only(y, ok),
    ensures
        #[trigger] reads_only(bin(op, x, y), ok),
{
}

broadcast proof fn reads_tri(op: TOp, x: Expr, y: Expr, z: Expr, ok: spec_fn(Leaf) -> bool)
    requires
        !(op is Leaf),
        reads_only(x, ok),
        reads_only(y, ok),
        reads_only(z, ok),
    ensures
        #[trigger] reads_only(tri(op, x, y, z), ok),
{
}

broadcast group reads {
    reads_leaf,
    reads_un,
    reads_bin,
    reads_tri,
}

proof fn lemma_norm(
    kind: Norm,
    dtype: DType,
    eps: F64Bits,
    n: usize,
    x: Expr,
    w: Leaf,
    ok: spec_fn(Leaf) -> bool,
)
    requires
        reads_only(x, ok),
        ok(w),
    ensures
        reads_only(norm_of(kind, dtype, eps, n, x, w), ok),
{
    broadcast use reads;

}

proof fn lemma_v_norm(kind: Norm, dtype: DType, eps: F64Bits, x: Expr, ok: spec_fn(Leaf) -> bool)
    requires
        reads_only(x, ok),
    ensures
        reads_only(v_norm_of(kind, dtype, eps, x), ok),
{
    broadcast use reads;

}

/// The weights that a layer reads beside its attention are among `ok`.
pub open spec fn body_ok(l: LayerBody, ok: spec_fn(Leaf) -> bool) -> bool {
    let i = l.layer;
    &&& ok(Leaf::Layer(i, LayerTensor::InputNorm))
    &&& ok(Leaf::Layer(i, LayerTensor::PostAttentionNorm))
    &&& ok(Leaf::Layer(i, LayerTensor::PreFeedforwardNorm))
    &&& ok(Leaf::Layer(i, LayerTensor::PostFeedforwardNorm))
    &&& ok(Leaf::Layer(i, LayerTensor::FfnGate))
    &&& ok(Leaf::Layer(i, LayerTensor::FfnUp))
    &&& ok(Leaf::Layer(i, LayerTensor::FfnDown))
    &&& l.laurel is Some ==> {
        &&& ok(Leaf::Layer(i, LayerTensor::LaurelLeft))
        &&& ok(Leaf::Layer(i, LayerTensor::LaurelRight))
        &&& ok(Leaf::Layer(i, LayerTensor::PostLaurelNorm))
    }
    &&& l.side is Some ==> {
        &&& ok(Leaf::Layer(i, LayerTensor::PerLayerInputGate))
        &&& ok(Leaf::Layer(i, LayerTensor::PerLayerProjection))
        &&& ok(Leaf::Layer(i, LayerTensor::PostPerLayerInputNorm))
    }
    &&& l.gain is Some ==> ok(Leaf::Layer(i, LayerTensor::LayerScalar))
}

/// The weights that a layer reads to work on parallel streams are among `ok`.
pub open spec fn altup_ok(i: usize, ok: spec_fn(Leaf) -> bool) -> bool {
    &&& ok(Leaf::Layer(i, LayerTensor::AltupCorrectOutputScale))
    &&& ok(Leaf::Layer(i, LayerTensor::AltupCorrectionCoefs))
    &&& ok(Leaf::Layer(i, LayerTensor::AltupPredictionCoefs))
    &&& ok(Leaf::Layer(i, LayerTensor::AltupModalityRouter))
    &&& ok(Leaf::Layer(i, LayerTensor::AltupRouterNorm))
}

proof fn lemma_mlp(c: Style, l: LayerBody, x: Expr, ok: spec_fn(Leaf) -> bool)
    requires
        body_ok(l, ok),
        reads_only(x, ok),
    ensures
        reads_only(mlp_of(c, l.layer, l.z, x), ok),
{
    broadcast use reads;

    if let Some(v) = l.z {
        let g = linear(x, Leaf::Layer(l.layer, LayerTensor::FfnGate));
        assert(reads_only(g, ok));
        assert(reads_only(sparse_of(c.dtype, v, g), ok));
    }
}

proof fn lemma_layer_norm(
    c: Style,
    i: usize,
    w: LayerTensor,
    x: Expr,
    ok: spec_fn(Leaf) -> bool,
)
    requires
        reads_only(x, ok),
        ok(Leaf::Layer(i, w)),
    ensures
        reads_only(layer_norm_of(c, i, w, x), ok),
{
    lemma_norm(c.norm, c.dtype, c.eps, c.hidden, x, Leaf::Layer(i, w), ok);
}

proof fn lemma_merged_laurel(
    c: Style,
    l: LayerBody,
    x: Expr,
    normed: Expr,
    ok: spec_fn(Leaf) -> bool,
)
    requires
        body_ok(l, ok),
        reads_only(x, ok),
        reads_only(normed, ok),
    ensures
        reads_only(merged_laurel_of(c, l, x, normed), ok),
{
    broadcast use reads;

    if l.laurel is Some {
        let low = linear(
            linear(normed, Leaf::Layer(l.layer, LayerTensor::LaurelLeft)),
            Leaf::Layer(l.layer, LayerTensor::LaurelRight),
        );
        lemma_layer_norm(c, l.layer, LayerTensor::PostLaurelNorm, low, ok);
        assert(reads_only(laurel_of(c, l.layer, normed), ok));
    }
}

proof fn lemma_fed_forward(c: Style, l: LayerBody, x: Expr, ok: spec_fn(Leaf) -> bool)
    requires
        body_ok(l, ok),
        reads_only(x, ok),
    ensures
        reads_only(fed_forward_of(c, l, x), ok),
{
    broadcast use reads;

    let normed = layer_norm_of(c, l.layer, LayerTensor::PreFeedforwardNorm, x);
    lemma_layer_norm(c, l.layer, LayerTensor::PreFeedforwardNorm, x, ok);
    lemma_mlp(c, l, normed, ok);
    lemma_layer_norm(
        c,
        l.layer,
        LayerTensor::PostFeedforwardNorm,
        mlp_of(c, l.layer, l.z, normed),
        ok,
    );
}

proof fn lemma_side_channel(c: Style, l: LayerBody, x: Expr, input: Expr, ok: spec_fn(Leaf) -> bool)
    requires
        body_ok(l, ok),
        l.side is Some,
        reads_only(x, ok),
        reads_only(input, ok),
    ensures
        reads_only(side_channel_of(c, l.layer, l.gate, l.side->0, x, input), ok),
{
    broadcast use reads;

    let values = each_of(
        MapOp::Act(c.act),
        linear(x, Leaf::Layer(l.layer, LayerTensor::PerLayerInputGate)),
    );
    let gated = if l.gate == 1 && l.side->0 != 1 {
        bin(TOp::ZipBroadcast(BinOp::Mul), input, values)
    } else {
        bin(TOp::ZipBroadcast(BinOp::Mul), values, input)
    };
    let out = linear(gated, Leaf::Layer(l.layer, LayerTensor::PerLayerProjection));
    assert(reads_only(out, ok));
    lemma_layer_norm(c, l.layer, LayerTensor::PostPerLayerInputNorm, out, ok);
}

/// The formula of an auxiliary embedding, if it is given, reads tensors of
/// `ok`.
pub open spec fn side_reads(side: Option<Expr>, ok: spec_fn(Leaf) -> bool) -> bool {
    side matches Some(e) ==> reads_only(e, ok)
}

proof fn lemma_classic(
    c: Style,
    l: LayerBody,
    x: Expr,
    normed: Expr,
    attn: Expr,
    side: Option<Expr>,
    ok: spec_fn(Leaf) -> bool,
)
    requires
        body_ok(l, ok),
        reads_only(x, ok),
        reads_only(normed, ok),
        reads_only(attn, ok),
        side_reads(side, ok),
    ensures
        reads_only(classic_of(c, l, x, normed, attn, side), ok),
{
    broadcast use reads;

    let post = layer_norm_of(c, l.layer, LayerTensor::PostAttentionNorm, attn);
    lemma_layer_norm(c, l.layer, LayerTensor::PostAttentionNorm, attn, ok);
    lemma_merged_laurel(c, l, post, normed, ok);
    let attended = plus(merged_laurel_of(c, l, post, normed), x);
    lemma_fed_forward(c, l, attended, ok);
    let fed = fed_forward_of(c, l, attended);
    if l.side is Some && side is Some {
        lemma_side_channel(c, l, fed, side->0, ok);
    }
}

proof fn lemma_router(c: Style, i: usize, x: Expr, ok: spec_fn(Leaf) -> bool)
    requires
        altup_ok(i, ok),
        reads_only(x, ok),
    ensures
        reads_only(router_of(c, i, x), ok),
{
    broadcast use reads;

    lemma_layer_norm(c, i, LayerTensor::AltupRouterNorm, x, ok);
}

proof fn lemma_predict(c: Style, i: usize, s: Streams, stack: Expr, ok: spec_fn(Leaf) -> bool)
    requires
        altup_ok(i, ok),
        reads_only(stack, ok),
    ensures
        reads_only(predict_of(c, i, s.n, s.active, stack), ok),
{
    broadcast use reads;

    lemma_router(c, i, active_of(s, stack), ok);
}

proof fn lemma_correct(
    c: Style,
    i: usize,
    s: Streams,
    predictions: Expr,
    activated: Expr,
    ok: spec_fn(Leaf) -> bool,
)
    requires
        altup_ok(i, ok),
        reads_only(predictions, ok),
        reads_only(activated, ok),
    ensures
        reads_only(correct_of(c, i, s.n, s.active, predictions, activated), ok),
{
    broadcast use reads;

    lemma_router(c, i, activated, ok);
}

proof fn lemma_delta(s: Streams, first: Expr, ok: spec_fn(Leaf) -> bool)
    requires
        reads_only(first, ok),
    ensures
        reads_only(delta_of(s, first), ok),
{
    broadcast use reads;

    let zero = each_of(MapOp::ZerosLike, first);
    assert(reads_only(zero, ok));
    let args = delta_of(s, first)->Node_1;
    assert forall|i: int| 0 <= i < args.len() implies reads_only(#[trigger] args[i], ok) by {
        assert(args[i] == if i == s.active {
            zero
        } else {
            first
        });
    }
}

proof fn lemma_altup(
    c: Style,
    l: LayerBody,
    s: Streams,
    predictions: Expr,
    normed: Expr,
    attn: Expr,
    side: Option<Expr>,
    ok: spec_fn(Leaf) -> bool,
)
    requires
        body_ok(l, ok),
        altup_ok(l.layer, ok),
        reads_only(predictions, ok),
        reads_only(normed, ok),
        reads_only(attn, ok),
        side_reads(side, ok),
    ensures
        reads_only(altup_of(c, l, s, predictions, normed, attn, side), ok),
{
    broadcast use reads;

    let active = active_of(s, predictions);
    let post = layer_norm_of(c, l.layer, LayerTensor::PostAttentionNorm, attn);
    lemma_layer_norm(c, l.layer, LayerTensor::PostAttentionNorm, attn, ok);
    let gated = plus(active, post);
    assert(reads_only(gated, ok));
    lemma_merged_laurel(c, l, gated, normed, ok);
    lemma_fed_forward(c, l, merged_laurel_of(c, l, gated, normed), ok);
    let activated = activated_of(c, l, active, normed, attn);
    assert(reads_only(activated, ok));
    lemma_correct(c, l.layer, s, predictions, activated, ok);
    let corrected = correct_of(c, l.layer, s.n, s.active, predictions, activated);
    if l.side is Some && side is Some {
        let dense = contiguous(active_of(s, corrected));
        assert(reads_only(dense, ok));
        let scaled_first = bin(
            TOp::ZipBroadcast(BinOp::Mul),
            dense,
            leaf(Leaf::Layer(l.layer, LayerTensor::AltupCorrectOutputScale)),
        );
        assert(reads_only(scaled_first, ok));
        lemma_side_channel(c, l, dense, side->0, ok);
        lemma_side_channel(c, l, scaled_first, side->0, ok);
        lemma_delta(s, side_channel_of(c, l.layer, l.gate, l.side->0, dense, side->0), ok);
        lemma_delta(s, side_channel_of(c, l.layer, l.gate, l.side->0, scaled_first, side->0), ok);
    }
}

/// The weights that a quantized layer's attention reads beside its keys and
/// values are among `ok`.
pub open spec fn query_ok(a: Heads, ok: spec_fn(Leaf) -> bool) -> bool {
    &&& ok(Leaf::Layer(a.layer, LayerTensor::AttnQ))
    &&& ok(Leaf::Layer(a.layer, LayerTensor::AttnQNorm))
    &&& ok(Leaf::Layer(a.layer, LayerTensor::AttnOutput))
    &&& ok(Leaf::Mask(a.spec_mask()))
}

/// The weights that a quantized layer's own keys and values read are among
/// `ok`.
pub open spec fn kv_ok(m: QAttention, ok: spec_fn(Leaf) -> bool) -> bool {
    let i = m.heads.layer;
    &&& ok(Leaf::Layer(i, LayerTensor::AttnK))
    &&& ok(Leaf::Layer(i, LayerTensor::AttnKNorm))
    &&& m.has_value ==> ok(Leaf::Layer(i, LayerTensor::AttnV))
}

/// Keys and values read tensors of `ok` only.
pub open spec fn kv_reads(kv: KvExpr, ok: spec_fn(Leaf) -> bool) -> bool {
    reads_only(kv.k, ok) && reads_only(kv.v, ok)
}

proof fn lemma_key(c: Style, m: QAttention, offset: usize, x: Expr, ok: spec_fn(Leaf) -> bool)
    requires
        kv_ok(m, ok),
        reads_only(x, ok),
    ensures
        reads_only(key_of(c, m.heads, offset, x), ok),
{
    broadcast use reads;

    let a = m.heads;
    let raw = dense_heads_of(a.layer, LayerTensor::AttnK, a.kv_heads, a.head_dim, x);
    assert(reads_only(raw, ok));
    lemma_norm(
        c.norm,
        c.dtype,
        c.eps,
        a.head_dim,
        raw,
        Leaf::Layer(a.layer, LayerTensor::AttnKNorm),
        ok,
    );
}

proof fn lemma_value(c: Style, m: QAttention, x: Expr, ok: spec_fn(Leaf) -> bool)
    requires
        kv_ok(m, ok),
        reads_only(x, ok),
    ensures
        reads_only(value_of(c, m, x), ok),
{
    broadcast use reads;

    let a = m.heads;
    let w = if m.has_value {
        LayerTensor::AttnV
    } else {
        LayerTensor::AttnK
    };
    let raw = dense_heads_of(a.layer, w, a.kv_heads, a.head_dim, x);
    assert(reads_only(raw, ok));
    lemma_v_norm(c.norm, c.dtype, c.eps, raw, ok);
}

proof fn lemma_appended(c: Style, m: QAttention, offset: usize, x: Expr, ok: spec_fn(Leaf) -> bool)
    requires
        kv_ok(m, ok),
        reads_only(x, ok),
    ensures
        kv_reads(appended_of(c, m, offset, x), ok),
{
    broadcast use reads;

    lemma_key(c, m, offset, x, ok);
    lemma_value(c, m, x, ok);
}

proof fn lemma_concatenated(
    c: Style,
    m: QAttention,
    offset: usize,
    trim: Option<Trim>,
    x: Expr,
    ok: spec_fn(Leaf) -> bool,
)
    requires
        kv_ok(m, ok),
        reads_only(x, ok),
    ensures
        kv_reads(concatenated_of(c, m, offset, trim, x), ok),
{
    broadcast use reads;

    lemma_key(c, m, offset, x, ok);
    lemma_value(c, m, x, ok);
}

proof fn lemma_weighted(a: Heads, masked: bool, scores: Expr, v: Expr, ok: spec_fn(Leaf) -> bool)
    requires
        ok(Leaf::Mask(a.spec_mask())),
        reads_only(scores, ok),
        reads_only(v, ok),
    ensures
        reads_only(weighted_of(a, masked, scores, v), ok),
{
    broadcast use reads;

    assert(reads_only(masked_of(a, masked, scores), ok));
}

proof fn lemma_attention(
    c: Style,
    m: QAttention,
    offset: usize,
    masked: bool,
    x: Expr,
    kv: KvExpr,
    ok: spec_fn(Leaf) -> bool,
)
    requires
        query_ok(m.heads, ok),
        reads_only(x, ok),
        kv_reads(kv, ok),
    ensures
        reads_only(attention_of(c, m, offset, masked, x, kv), ok),
{
    broadcast use reads;

    let a = m.heads;
    let raw = dense_heads_of(a.layer, LayerTensor::AttnQ, a.heads, a.head_dim, x);
    assert(reads_only(raw, ok));
    lemma_norm(
        c.norm,
        c.dtype,
        c.eps,
        a.head_dim,
        raw,
        Leaf::Layer(a.layer, LayerTensor::AttnQNorm),
        ok,
    );
    let q = query_of(c, a, offset, x);
    assert(reads_only(q, ok));
    let (k, v) = (grouped_of(a, kv.k), grouped_of(a, kv.v));
    assert(reads_only(k, ok) && reads_only(v, ok));
    let scores = bin(TOp::Matmul, q, contiguous(un(TOp::Transpose { a: 2, b: 3 }, k)));
    assert(reads_only(scores, ok));
    lemma_weighted(a, masked, scores, v, ok);
    let plain = weighted_of(a, masked, scores, v);
    assert(reads_only(merged_of(plain), ok));
    if let DecodePath::Fused { window } = m.decode {
        let fused = tri(TOp::FlashAttnDecode { window }, q, k, v);
        assert(reads_only(merged_of(fused), ok));
    }
}

/// The weights that an unquantized layer's attention reads are among `ok`.
pub open spec fn text_attention_ok(m: TextAttention, ok: spec_fn(Leaf) -> bool) -> bool {
    let i = m.heads.layer;
    &&& ok(Leaf::Mask(m.heads.spec_mask()))
    &&& ok(Leaf::Layer(i, LayerTensor::AttnQ))
    &&& ok(Leaf::Layer(i, LayerTensor::AttnK))
    &&& ok(Leaf::Layer(i, LayerTensor::AttnV))
    &&& ok(Leaf::Layer(i, LayerTensor::AttnOutput))
    &&& ok(Leaf::Layer(i, LayerTensor::AttnQNorm))
    &&& ok(Leaf::Layer(i, LayerTensor::AttnKNorm))
    &&& m.bias ==> {
        &&& ok(Leaf::Layer(i, LayerTensor::AttnQBias))
        &&& ok(Leaf::Layer(i, LayerTensor::AttnKBias))
        &&& ok(Leaf::Layer(i, LayerTensor::AttnVBias))
        &&& ok(Leaf::Layer(i, LayerTensor::AttnOutputBias))
    }
}

proof fn lemma_affine(
    x: Expr,
    i: usize,
    w: LayerTensor,
    bias: bool,
    b: LayerTensor,
    ok: spec_fn(Leaf) -> bool,
)
    requires
        reads_only(x, ok),
        ok(Leaf::Layer(i, w)),
        bias ==> ok(Leaf::Layer(i, b)),
    ensures
        reads_only(affine_of(x, i, w, bias_of(bias, b)), ok),
{
    broadcast use reads;

}

proof fn lemma_text_attention(
    c: Style,
    m: TextAttention,
    offset: usize,
    masked: bool,
    x: Expr,
    ok: spec_fn(Leaf) -> bool,
)
    requires
        text_attention_ok(m, ok),
        reads_only(x, ok),
    ensures
        reads_only(text_attention_of(c, m, offset, masked, x), ok),
{
    broadcast use reads;

    let a = m.heads;
    lemma_affine(x, a.layer, LayerTensor::AttnQ, m.bias, LayerTensor::AttnQBias, ok);
    lemma_affine(x, a.layer, LayerTensor::AttnK, m.bias, LayerTensor::AttnKBias, ok);
    lemma_affine(x, a.layer, LayerTensor::AttnV, m.bias, LayerTensor::AttnVBias, ok);
    let q = split_of(
        affine_of(x, a.layer, LayerTensor::AttnQ, bias_of(m.bias, LayerTensor::AttnQBias)),
        a.heads,
        a.head_dim,
    );
    let k = split_of(
        affine_of(x, a.layer, LayerTensor::AttnK, bias_of(m.bias, LayerTensor::AttnKBias)),
        a.kv_heads,
        a.head_dim,
    );
    let v = split_of(
        affine_of(x, a.layer, LayerTensor::AttnV, bias_of(m.bias, LayerTensor::AttnVBias)),
        a.kv_heads,
        a.head_dim,
    );
    assert(reads_only(q, ok) && reads_only(k, ok) && reads_only(v, ok));
    let wq = Leaf::Layer(a.layer, LayerTensor::AttnQNorm);
    let wk = Leaf::Layer(a.layer, LayerTensor::AttnKNorm);
    lemma_norm(c.norm, c.dtype, c.eps, a.head_dim, q, wq, ok);
    lemma_norm(c.norm, c.dtype, c.eps, a.head_dim, k, wk, ok);
    lemma_v_norm(c.norm, c.dtype, c.eps, v, ok);
    let rq = text_query_of(c, m, offset, x);
    let ck = cached_of(a, KvPart::Keys, text_key_of(c, m, offset, x));
    let cv = cached_of(a, KvPart::Values, text_value_of(c, m, x));
    assert(reads_only(rq, ok));
    assert(reads_only(ck, ok));
    assert(reads_only(cv, ok));
    let scale = Scalar::RecipSqrt(m.query_pre_attn_scalar);
    let scores = scaled(bin(TOp::Matmul, rq, un(TOp::Transpose { a: 2, b: 3 }, ck)), scale);
    assert(reads_only(scores, ok));
    lemma_weighted(a, masked, scores, cv, ok);
    let plain = weighted_of(a, masked, scores, cv);
    let flash = un(
        TOp::Transpose { a: 1, b: 2 },
        tri(
            TOp::FlashAttn { scale, causal: masked },
            un(TOp::Transpose { a: 1, b: 2 }, rq),
            un(TOp::Transpose { a: 1, b: 2 }, ck),
            un(TOp::Transpose { a: 1, b: 2 }, cv),
        ),
    );
    assert(reads_only(flash, ok));
    let out = if m.use_flash_attn {
        flash
    } else {
        plain
    };
    assert(reads_only(merged_of(out), ok));
    lemma_affine(
        merged_of(out),
        a.layer,
        LayerTensor::AttnOutput,
        m.bias,
        LayerTensor::AttnOutputBias,
        ok,
    );
}

proof fn lemma_looked_up(t: TopTensor, ok: spec_fn(Leaf) -> bool)
    requires
        ok(Leaf::TokenIds),
        ok(Leaf::Top(t)),
    ensures
        reads_only(looked_up_of(t), ok),
{
    broadcast use reads;

}

/// The weights that the auxiliary embeddings are computed with are among
/// `ok`.
pub open spec fn side_ok(s: SideEmbedding, ok: spec_fn(Leaf) -> bool) -> bool {
    &&& ok(Leaf::TokenIds)
    &&& ok(Leaf::Top(TopTensor::PerLayerModelProjection))
    &&& ok(Leaf::Top(TopTensor::PerLayerProjectionNorm))
    &&& s.rows is Some ==> ok(Leaf::Top(TopTensor::PerLayerTokenEmbedding))
}

/// The auxiliary embeddings read the weights that they are computed with, and
/// what the token embeddings read.
pub proof fn lemma_side_table(c: Style, s: SideEmbedding, embeds: Expr, ok: spec_fn(Leaf) -> bool)
    requires
        side_ok(s, ok),
        reads_only(embeds, ok),
    ensures
        reads_only(side_table_of(c, s, embeds), ok),
{
    broadcast use reads;

    let by_layer = TOp::SplitLast { outer: s.layers, inner: s.width };
    let raw = un(
        by_layer,
        scaled(
            linear(embeds, Leaf::Top(TopTensor::PerLayerModelProjection)),
            Scalar::RecipSqrt(c.nominal),
        ),
    );
    assert(reads_only(raw, ok));
    let w = Leaf::Top(TopTensor::PerLayerProjectionNorm);
    lemma_norm(c.norm, c.dtype, c.eps, s.width, raw, w, ok);
    let proj = norm_of(c.norm, c.dtype, c.eps, s.width, raw, w);
    if s.rows is Some {
        lemma_looked_up(TopTensor::PerLayerTokenEmbedding, ok);
        let rows = un(by_layer, looked_up_of(TopTensor::PerLayerTokenEmbedding));
        let table = if s.scale_rows {
            scaled(rows, Scalar::Sqrt(s.width))
        } else {
            rows
        };
        assert(reads_only(table, ok));
        assert(reads_only(bin(TOp::ZipBroadcast(BinOp::Add), proj, table), ok));
    }
}

/// The logits of a state read the head and what the state reads.
pub proof fn lemma_logits(head: TopTensor, cap: Option<F64Bits>, x: Expr, ok: spec_fn(Leaf) -> bool)
    requires
        ok(Leaf::Top(head)),
        reads_only(x, ok),
    ensures
        reads_only(logits_of(head, cap, x), ok),
{
    broadcast use reads;

    let raw = linear(x, Leaf::Top(head));
    assert(reads_only(raw, ok));
    if let Some(v) = cap {
        lemma_capped(v, raw, ok);
    }
}

/// What is capped reads what it is made of.
pub proof fn lemma_capped(cap: F64Bits, x: Expr, ok: spec_fn(Leaf) -> bool)
    requires
        reads_only(x, ok),
    ensures
        reads_only(capped_of(cap, x), ok),
{
    broadcast use reads;

}

/// What is converted reads what it is made of.
pub proof fn lemma_cast(dtype: DType, x: Expr, ok: spec_fn(Leaf) -> bool)
    requires
        reads_only(x, ok),
    ensures
        reads_only(un(TOp::Cast(dtype), x), ok),
{
    broadcast use reads;

}

/// The last position reads the final normalization's weight and what the
/// states read.
pub proof fn lemma_last(c: Style, x: Expr, ok: spec_fn(Leaf) -> bool)
    requires
        ok(Leaf::Top(TopTensor::OutputNorm)),
        reads_only(x, ok),
    ensures
        reads_only(output_norm_of(c, x), ok),
        reads_only(norm_then_last_of(c, x), ok),
        reads_only(last_then_norm_of(c, x), ok),
{
    broadcast use reads;

    let w = Leaf::Top(TopTensor::OutputNorm);
    lemma_norm(c.norm, c.dtype, c.eps, c.hidden, x, w, ok);
    let last = un(TOp::Narrow { axis: 1, start: (c.len - 1) as usize, len: 1 }, x);
    lemma_norm(c.norm, c.dtype, c.eps, c.hidden, last, w, ok);
}

/// The scaled token embeddings read the token ids and their table.
pub proof fn lemma_embeds(hidden: usize, ok: spec_fn(Leaf) -> bool)
    requires
        ok(Leaf::TokenIds),
        ok(Leaf::Top(TopTensor::TokenEmbedding)),
    ensures
        reads_only(looked_up_of(TopTensor::TokenEmbedding), ok),
        reads_only(
            scaled(looked_up_of(TopTensor::TokenEmbedding), Scalar::Sqrt(hidden)),
            ok,
        ),
{
    broadcast use reads;

    lemma_looked_up(TopTensor::TokenEmbedding, ok);
}

/// The projections of the parallel streams are among `ok`.
pub open spec fn streams_ok(s: Streams, ok: spec_fn(Leaf) -> bool) -> bool {
    forall|l: Leaf| (l matches Leaf::Stream(k, _) && k < s.n - 1) ==> #[trigger] ok(l)
}

proof fn lemma_rescaled(dtype: DType, x: Expr, target: Expr, ok: spec_fn(Leaf) -> bool)
    requires
        reads_only(x, ok),
        reads_only(target, ok),
    ensures
        reads_only(rescaled_of(dtype, x, target), ok),
{
    broadcast use reads;

}

/// The stack that a state is spread over reads the streams' projections and
/// what the state reads.
pub proof fn lemma_expanded(
    c: Style,
    s: Streams,
    rescale: Rescale,
    x: Expr,
    ok: spec_fn(Leaf) -> bool,
)
    requires
        s.wf(),
        streams_ok(s, ok),
        reads_only(x, ok),
    ensures
        reads_only(expanded_of(c, s, rescale, x), ok),
        reads_only(contiguous(expanded_of(c, s, rescale, x)), ok),
{
    broadcast use reads;

    let args = expanded_of(c, s, rescale, x)->Node_1;
    assert forall|i: int| 0 <= i < args.len() implies reads_only(#[trigger] args[i], ok) by {
        assert(args[i] == lifted_of(c, s, rescale, x, i));
        if i != s.active {
            let l = Leaf::Stream(projection_of(s, i) as usize, StreamTensor::Projection);
            assert(ok(l));
            let projected = linear(x, l);
            assert(reads_only(projected, ok));
            assert(reads_only(magnitude_of(x), ok));
            lemma_rescaled(c.dtype, projected, magnitude_of(x), ok);
        }
    }
}

/// The mean of the streams reads their projections and what the stack reads.
pub proof fn lemma_averaged(c: Style, s: Streams, stack: Expr, ok: spec_fn(Leaf) -> bool)
    requires
        s.wf(),
        streams_ok(s, ok),
        reads_only(stack, ok),
    ensures
        reads_only(averaged_of(c, s, stack), ok),
{
    broadcast use reads;

    let all = Expr::Node(TOp::Stack, Seq::new(s.n as nat, |i: int| lowered_of(c, s, stack, i)));
    let args = all->Node_1;
    let target = magnitude_of(active_of(s, stack));
    assert(reads_only(target, ok));
    assert forall|i: int| 0 <= i < args.len() implies reads_only(#[trigger] args[i], ok) by {
        assert(args[i] == lowered_of(c, s, stack, i));
        if i != s.active {
            let l = Leaf::Stream(projection_of(s, i) as usize, StreamTensor::UnembedProjection);
            assert(ok(l));
            let projected = linear(un(TOp::Select { axis: 0, index: i as usize }, stack), l);
            assert(reads_only(projected, ok));
            lemma_rescaled(c.dtype, projected, target, ok);
        }
    }
    assert(reads_only(all, ok));
}

/// The sum of the streams reads their projections and what the stack reads.
pub proof fn lemma_summed(s: Streams, stack: Expr, k: nat, ok: spec_fn(Leaf) -> bool)
    requires
        s.wf(),
        streams_ok(s, ok),
        reads_only(stack, ok),
        k <= s.n,
    ensures
        reads_only(summed_of(s, stack, k), ok),
    decreases k,
{
    broadcast use reads;

    if k > 0 {
        lemma_summed(s, stack, (k - 1) as nat, ok);
        if k - 1 != s.active {
            let l = Leaf::Stream(projection_of(s, k - 1) as usize, StreamTensor::UnembedProjection);
            assert(ok(l));
            let one = linear(un(TOp::Select { axis: 0, index: (k - 1) as usize }, stack), l);
            assert(reads_only(one, ok));
        }
    }
}

/// The weights that the layers of a pass read are among `ok`.
pub open spec fn pass_ok(v: PassView, ok: spec_fn(Leaf) -> bool) -> bool {
    &&& side_reads(v.side, ok)
    &&& forall|i: int|
        0 <= i < v.layers.len() ==> {
            let l = #[trigger] v.layers[i];
            &&& l.body.layer == i && l.attention.heads.layer == i
            &&& body_ok(l.body, ok)
            &&& query_ok(l.attention.heads, ok)
            &&& l.donor is None ==> kv_ok(l.attention, ok)
            &&& v.streams is Some ==> altup_ok(i as usize, ok)
        }
}

/// A pass reads the weights of its layers and what its input reads.
pub proof fn lemma_run(v: PassView, x: Expr, n: nat, ok: spec_fn(Leaf) -> bool)
    requires
        pass_ok(v, ok),
        n <= v.layers.len(),
        v.layers.len() <= usize::MAX,
        first_stop(v, n) is None,
        reads_only(x, ok),
    ensures
        reads_only(run_of(v, x, n).x, ok),
        run_of(v, x, n).kv.len() == v.layers.len(),
        forall|j: int|
            0 <= j < n && v.layers[j].donor is None ==> (#[trigger] run_of(v, x, n).kv[j] matches Some(
                kv,
            ) && kv_reads(kv, ok)),
    decreases n,
{
    broadcast use reads;

    reveal(next_of);
    if n > 0 {
        let i = n - 1;
        lemma_run(v, x, i as nat, ok);
        let b = run_of(v, x, i as nat);
        let l = v.layers[i];
        assert(stop_at(v, i) is None);
        if let Some(s) = v.streams {
            lemma_predict(v.c, i as usize, s, b.x, ok);
            let predictions = predict_of(v.c, i as usize, s.n, s.active, b.x);
            assert(reads_only(active_of(s, predictions), ok));
            lemma_layer_norm(
                v.c,
                i as usize,
                LayerTensor::InputNorm,
                active_of(s, predictions),
                ok,
            );
        } else {
            lemma_layer_norm(v.c, i as usize, LayerTensor::InputNorm, b.x, ok);
        }
        let normed = attention_input_of(v, i, b.x);
        assert(reads_only(normed, ok));
        let kv = seen_by(v, i, b);
        match l.donor {
            Some(d) => {
                assert(b.kv[d as int] is Some);
            },
            None => match v.caches[i] {
                CacheStep::Append { .. } => lemma_appended(v.c, l.attention, v.offset, normed, ok),
                CacheStep::Join { trim, .. } => lemma_concatenated(
                    v.c,
                    l.attention,
                    v.offset,
                    trim,
                    normed,
                    ok,
                ),
            },
        }
        assert(kv_reads(kv, ok));
        lemma_attention(v.c, l.attention, v.offset, v.c.len > 1, normed, kv, ok);
        let attn = attention_of(v.c, l.attention, v.offset, v.c.len > 1, normed, kv);
        if let Some(t) = v.side {
            assert(reads_only(un(TOp::Select { axis: 2, index: i as usize }, t), ok));
        }
        assert(side_reads(side_at(v, i), ok));
        match v.streams {
            Some(s) => lemma_altup(
                v.c,
                l.body,
                s,
                predict_of(v.c, i as usize, s.n, s.active, b.x),
                normed,
                attn,
                side_at(v, i),
                ok,
            ),
            None => lemma_classic(v.c, l.body, b.x, normed, attn, side_at(v, i), ok),
        }
    }
}

/// The weights that the layers of an unquantized pass read are among `ok`.
pub open spec fn text_pass_ok(v: TextPassView, ok: spec_fn(Leaf) -> bool) -> bool {
    &&& side_reads(v.side, ok)
    &&& forall|i: int|
        0 <= i < v.layers.len() ==> {
            let l = #[trigger] v.layers[i];
            &&& l.body.layer == i && l.attention.heads.layer == i
            &&& body_ok(l.body, ok)
            &&& text_attention_ok(l.attention, ok)
            &&& v.streams is Some ==> altup_ok(i as usize, ok)
        }
}

/// An unquantized pass reads the weights of its layers and what its input
/// reads.
pub proof fn lemma_text_run(v: TextPassView, x: Expr, n: nat, ok: spec_fn(Leaf) -> bool)
    requires
        text_pass_ok(v, ok),
        n <= v.layers.len(),
        v.layers.len() <= usize::MAX,
        reads_only(x, ok),
    ensures
        reads_only(text::run_of(v, x, n), ok),
    decreases n,
{
    broadcast use reads;

    reveal(text::layer_of);
    if n > 0 {
        let i = n - 1;
        lemma_text_run(v, x, i as nat, ok);
        let b = text::run_of(v, x, i as nat);
        let l = v.layers[i];
        let w = LayerTensor::InputNorm;
        if let Some(t) = v.side {
            assert(reads_only(un(TOp::Narrow { axis: 2, start: i as usize, len: 1 }, t), ok));
        }
        let side = text::side_at(v, i);
        assert(side_reads(side, ok));
        if let Some(s) = v.streams {
            lemma_predict(v.c, i as usize, s, b, ok);
            let predictions = predict_of(v.c, i as usize, s.n, s.active, b);
            assert(reads_only(active_of(s, predictions), ok));
            lemma_layer_norm(v.c, i as usize, w, active_of(s, predictions), ok);
            let normed = layer_norm_of(v.c, i as usize, w, active_of(s, predictions));
            lemma_text_attention(v.c, l.attention, v.offset, v.c.len > 1, normed, ok);
            let attn = text_attention_of(v.c, l.attention, v.offset, v.c.len > 1, normed);
            lemma_altup(v.c, l.body, s, predictions, normed, attn, side, ok);
        } else {
            lemma_layer_norm(v.c, i as usize, w, b, ok);
            let normed = layer_norm_of(v.c, i as usize, w, b);
            lemma_text_attention(v.c, l.attention, v.offset, v.c.len > 1, normed, ok);
            let attn = text_attention_of(v.c, l.attention, v.offset, v.c.len > 1, normed);
            lemma_classic(v.c, text::plain_body(l.body), b, normed, attn, None, ok);
        }
    }
}

} // verus!
