//! Which rotations a formula holds.

use crate::dtype::DType;
use crate::gemma4::attention::{
    affine_of, appended_of, attention_of, bias_of, cached_of, concatenated_of, dense_heads_of,
    grouped_of, key_of, masked_of, merged_of, query_of, rotated_of, split_of, text_attention_of,
    text_key_of, text_query_of, text_value_of, value_of, weighted_of, DecodePath, Heads, KvExpr,
    QAttention, TextAttention,
};
use crate::gemma4::block::{
    correct_of, each_of, laurel_of, mlp_of, norm_of, predict_of, router_of, side_channel_of,
    sparse_of, v_norm_of, Norm, Style,
};
use crate::gemma4::config::{F64Bits, Gemma4TextConfig};
use crate::gemma4::ends::{
    capped_of, last_then_norm_of, logits_of, looked_up_of, norm_then_last_of, output_norm_of,
    side_table_of, SideEmbedding,
};
use crate::gemma4::kv_cache::Trim;
use crate::gemma4::layer::{
    activated_of, active_of, altup_of, classic_of, delta_of, fed_forward_of, layer_norm_of,
    merged_laurel_of, LayerBody, Streams,
};
use crate::gemma4::pass::{
    attention_input_of, first_stop, next_of, run_of, seen_by, side_at, stop_at, CacheStep, PassView,
};
use crate::gemma4::quantized::{self, cap_of};
use crate::gemma4::quantized_e2b;
use crate::gemma4::rotary::{full_frequencies, partial_frequencies};
use crate::gemma4::streams::{
    averaged_of, expanded_of, lifted_of, lowered_of, magnitude_of, projection_of, rescaled_of,
    summed_of, Rescale,
};
use crate::gemma4::text::{self, StepShape, TextModel, TextPassView};
use crate::tensor::op::{
    bin, contiguous, leaf, linear, plus, scaled, tri, un, BinOp, Expr, KvPart, LayerTensor, Leaf,
    MapOp, RopeTable, Scalar, StreamTensor, TOp, TopTensor,
};
use vstd::prelude::*;

verus! {

/// The layer whose queries or keys a formula holds, normalized, if it holds
/// any.
pub open spec fn owner(e: Expr) -> Option<usize> {
    match e {
        Expr::Node(TOp::Each(MapOp::Contiguous), outer) => match outer[0] {
            Expr::Node(TOp::RmsNorm(_), args) => head_norm(args[1]),
            Expr::Node(TOp::ZipBroadcast(BinOp::Mul), args) => match args[1] {
                Expr::Node(TOp::Each(MapOp::Add(Scalar::One)), inner) => head_norm(inner[0]),
                _ => None,
            },
            _ => None,
        },
        _ => None,
    }
}

/// The layer whose queries or keys a weight normalizes, if it normalizes any.
pub open spec fn head_norm(e: Expr) -> Option<usize> {
    match e {
        Expr::Node(TOp::Leaf(Leaf::Layer(i, LayerTensor::AttnQNorm)), _) => Some(i),
        Expr::Node(TOp::Leaf(Leaf::Layer(i, LayerTensor::AttnKNorm)), _) => Some(i),
        _ => None,
    }
}

/// Whatever a formula rotates is queries or keys of a layer, rotated by a table
/// that is right for the layer.
pub open spec fn turns(e: Expr, p: spec_fn(usize, RopeTable) -> bool) -> bool
    decreases e,
{
    match e {
        Expr::Node(op, args) => {
            &&& op matches TOp::Rope { table, .. } ==> (owner(args[0]) matches Some(i) && p(
                i,
                table,
            ))
            &&& forall|k: int| 0 <= k < args.len() ==> turns(#[trigger] args[k], p)
        },
    }
}

broadcast proof fn turned_leaf(l: Leaf, p: spec_fn(usize, RopeTable) -> bool)
    ensures
        #[trigger] turns(leaf(l), p),
{
}

broadcast proof fn turned_un(op: TOp, x: Expr, p: spec_fn(usize, RopeTable) -> bool)
    requires
        !(op is Rope),
        turns(x, p),
    ensures
        #[trigger] turns(un(op, x), p),
{
}

broadcast proof fn turned_bin(op: TOp, x: Expr, y: Expr, p: spec_fn(usize, RopeTable) -> bool)
    requires
        !(op is Rope),
        turns(x, p),
        turns(y, p),
    ensures
        #[trigger] turns(bin(op, x, y), p),
{
}

broadcast proof fn turned_tri(
    op: TOp,
    x: Expr,
    y: Expr,
    z: Expr,
    p: spec_fn(usize, RopeTable) -> bool,
)
    requires
        !(op is Rope),
        turns(x, p),
        turns(y, p),
        turns(z, p),
    ensures
        #[trigger] turns(tri(op, x, y, z), p),
{
}

broadcast group turned {
    turned_leaf,
    turned_un,
    turned_bin,
    turned_tri,
}

/// The table of a layer is right for it.
pub open spec fn heads_ok(a: Heads, p: spec_fn(usize, RopeTable) -> bool) -> bool {
    p(a.layer, a.spec_table())
}

proof fn lemma_norm(
    kind: Norm,
    dtype: DType,
    eps: F64Bits,
    n: usize,
    x: Expr,
    w: Leaf,
    p: spec_fn(usize, RopeTable) -> bool,
)
    requires
        turns(x, p),
    ensures
        turns(norm_of(kind, dtype, eps, n, x, w), p),
{
    broadcast use turned;

}

proof fn lemma_rotated(
    c: Style,
    a: Heads,
    offset: usize,
    x: Expr,
    w: Leaf,
    p: spec_fn(usize, RopeTable) -> bool,
)
    requires
        heads_ok(a, p),
        w == Leaf::Layer(a.layer, LayerTensor::AttnQNorm) || w == Leaf::Layer(
            a.layer,
            LayerTensor::AttnKNorm,
        ),
        turns(x, p),
    ensures
        turns(rotated_of(a, offset, norm_of(c.norm, c.dtype, c.eps, a.head_dim, x, w)), p),
{
    broadcast use turned;

    let normed = norm_of(c.norm, c.dtype, c.eps, a.head_dim, x, w);
    lemma_norm(c.norm, c.dtype, c.eps, a.head_dim, x, w, p);
    assert(head_norm(leaf(w)) == Some(a.layer));
    assert(owner(contiguous(normed)) == Some(a.layer));
    assert(turns(contiguous(normed), p));
}

proof fn lemma_affine(
    x: Expr,
    i: usize,
    w: LayerTensor,
    bias: bool,
    b: LayerTensor,
    p: spec_fn(usize, RopeTable) -> bool,
)
    requires
        turns(x, p),
    ensures
        turns(affine_of(x, i, w, bias_of(bias, b)), p),
{
    broadcast use turned;

}

proof fn lemma_key(
    c: Style,
    m: QAttention,
    offset: usize,
    x: Expr,
    p: spec_fn(usize, RopeTable) -> bool,
)
    requires
        heads_ok(m.heads, p),
        turns(x, p),
    ensures
        turns(key_of(c, m.heads, offset, x), p),
{
    broadcast use turned;

    let a = m.heads;
    let raw = dense_heads_of(a.layer, LayerTensor::AttnK, a.kv_heads, a.head_dim, x);
    assert(turns(raw, p));
    lemma_rotated(c, a, offset, raw, Leaf::Layer(a.layer, LayerTensor::AttnKNorm), p);
}

/// The tables of a pass's layers are right for them.
pub open spec fn pass_ok(v: PassView, p: spec_fn(usize, RopeTable) -> bool) -> bool {
    &&& side_turns(v.side, p)
    &&& forall|i: int|
        0 <= i < v.layers.len() ==> heads_ok((#[trigger] v.layers[i]).attention.heads, p)
}

/// The tables of an unquantized pass's layers are right for them.
pub open spec fn text_pass_ok(v: TextPassView, p: spec_fn(usize, RopeTable) -> bool) -> bool {
    &&& side_turns(v.side, p)
    &&& forall|i: int|
        0 <= i < v.layers.len() ==> heads_ok((#[trigger] v.layers[i]).attention.heads, p)
}

proof fn lemma_v_norm(kind: Norm, dtype: DType, eps: F64Bits, x: Expr, p: spec_fn(usize, RopeTable) -> bool)
    requires
        turns(x, p),
    ensures
        turns(v_norm_of(kind, dtype, eps, x), p),
{
    broadcast use turned;

}

proof fn lemma_mlp(c: Style, l: LayerBody, x: Expr, p: spec_fn(usize, RopeTable) -> bool)
    requires
        turns(x, p),
    ensures
        turns(mlp_of(c, l.layer, l.z, x), p),
{
    broadcast use turned;

    if let Some(v) = l.z {
        let g = linear(x, Leaf::Layer(l.layer, LayerTensor::FfnGate));
        assert(turns(g, p));
        assert(turns(sparse_of(c.dtype, v, g), p));
    }
}

proof fn lemma_layer_norm(
    c: Style,
    i: usize,
    w: LayerTensor,
    x: Expr,
    p: spec_fn(usize, RopeTable) -> bool,
)
    requires
        turns(x, p),
    ensures
        turns(layer_norm_of(c, i, w, x), p),
{
    lemma_norm(c.norm, c.dtype, c.eps, c.hidden, x, Leaf::Layer(i, w), p);
}

proof fn lemma_merged_laurel(
    c: Style,
    l: LayerBody,
    x: Expr,
    normed: Expr,
    p: spec_fn(usize, RopeTable) -> bool,
)
    requires
        turns(x, p),
        turns(normed, p),
    ensures
        turns(merged_laurel_of(c, l, x, normed), p),
{
    broadcast use turned;

    if l.laurel is Some {
        let low = linear(
            linear(normed, Leaf::Layer(l.layer, LayerTensor::LaurelLeft)),
            Leaf::Layer(l.layer, LayerTensor::LaurelRight),
        );
        lemma_layer_norm(c, l.layer, LayerTensor::PostLaurelNorm, low, p);
        assert(turns(laurel_of(c, l.layer, normed), p));
    }
}

proof fn lemma_fed_forward(c: Style, l: LayerBody, x: Expr, p: spec_fn(usize, RopeTable) -> bool)
    requires
        turns(x, p),
    ensures
        turns(fed_forward_of(c, l, x), p),
{
    broadcast use turned;

    let normed = layer_norm_of(c, l.layer, LayerTensor::PreFeedforwardNorm, x);
    lemma_layer_norm(c, l.layer, LayerTensor::PreFeedforwardNorm, x, p);
    lemma_mlp(c, l, normed, p);
    lemma_layer_norm(
        c,
        l.layer,
        LayerTensor::PostFeedforwardNorm,
        mlp_of(c, l.layer, l.z, normed),
        p,
    );
}

proof fn lemma_side_channel(c: Style, l: LayerBody, x: Expr, input: Expr, p: spec_fn(usize, RopeTable) -> bool)
    requires
        l.side is Some,
        turns(x, p),
        turns(input, p),
    ensures
        turns(side_channel_of(c, l.layer, l.gate, l.side->0, x, input), p),
{
    broadcast use turned;

    let values = each_of(
        MapOp::Act(c.act),
        linear(x, Leaf::Layer(l.layer, LayerTensor::PerLayerInputGate)),
    );
    let gated = if l.gate == 1 && l.side->0 != 1 {
        bin(TOp::ZipBroadcast(BinOp::Mul), input, values)
    } else {
        bin(TOp::ZipBroadcast(BinOp::Mul), values, input)
    };
    let out = linear(gated, Leaf::Layer(l.layer, LayerTensor::PerLayerProjection));
    assert(turns(out, p));
    lemma_layer_norm(c, l.layer, LayerTensor::PostPerLayerInputNorm, out, p);
}

/// The formula of an auxiliary embedding, if it is given, rotates as it
/// should.
pub open spec fn side_turns(side: Option<Expr>, p: spec_fn(usize, RopeTable) -> bool) -> bool {
    side matches Some(e) ==> turns(e, p)
}

proof fn lemma_classic(
    c: Style,
    l: LayerBody,
    x: Expr,
    normed: Expr,
    attn: Expr,
    side: Option<Expr>,
    p: spec_fn(usize, RopeTable) -> bool,
)
    requires
        turns(x, p),
        turns(normed, p),
        turns(attn, p),
        side_turns(side, p),
    ensures
        turns(classic_of(c, l, x, normed, attn, side), p),
{
    broadcast use turned;

    let post = layer_norm_of(c, l.layer, LayerTensor::PostAttentionNorm, attn);
    lemma_layer_norm(c, l.layer, LayerTensor::PostAttentionNorm, attn, p);
    lemma_merged_laurel(c, l, post, normed, p);
    let attended = plus(merged_laurel_of(c, l, post, normed), x);
    lemma_fed_forward(c, l, attended, p);
    let fed = fed_forward_of(c, l, attended);
    if l.side is Some && side is Some {
        lemma_side_channel(c, l, fed, side->0, p);
    }
}

proof fn lemma_router(c: Style, i: usize, x: Expr, p: spec_fn(usize, RopeTable) -> bool)
    requires
        turns(x, p),
    ensures
        turns(router_of(c, i, x), p),
{
    broadcast use turned;

    lemma_layer_norm(c, i, LayerTensor::AltupRouterNorm, x, p);
}

proof fn lemma_predict(c: Style, i: usize, s: Streams, stack: Expr, p: spec_fn(usize, RopeTable) -> bool)
    requires
        turns(stack, p),
    ensures
        turns(predict_of(c, i, s.n, s.active, stack), p),
{
    broadcast use turned;

    lemma_router(c, i, active_of(s, stack), p);
}

proof fn lemma_correct(
    c: Style,
    i: usize,
    s: Streams,
    predictions: Expr,
    activated: Expr,
    p: spec_fn(usize, RopeTable) -> bool,
)
    requires
        turns(predictions, p),
        turns(activated, p),
    ensures
        turns(correct_of(c, i, s.n, s.active, predictions, activated), p),
{
    broadcast use turned;

    lemma_router(c, i, activated, p);
}

proof fn lemma_delta(s: Streams, first: Expr, p: spec_fn(usize, RopeTable) -> bool)
    requires
        turns(first, p),
    ensures
        turns(delta_of(s, first), p),
{
    broadcast use turned;

    let zero = each_of(MapOp::ZerosLike, first);
    assert(turns(zero, p));
    let args = delta_of(s, first)->Node_1;
    assert forall|i: int| 0 <= i < args.len() implies turns(#[trigger] args[i], p) by {
        assert(args[i] == if i == s.active {
            zero
        } else {
            first
        });
    }
}

proof fn lemma_altup(
    c: Style,
    l: LayerBody,
    s: Streams,
    predictions: Expr,
    normed: Expr,
    attn: Expr,
    side: Option<Expr>,
    p: spec_fn(usize, RopeTable) -> bool,
)
    requires
        turns(predictions, p),
        turns(normed, p),
        turns(attn, p),
        side_turns(side, p),
    ensures
        turns(altup_of(c, l, s, predictions, normed, attn, side), p),
{
    broadcast use turned;

    let active = active_of(s, predictions);
    let post = layer_norm_of(c, l.layer, LayerTensor::PostAttentionNorm, attn);
    lemma_layer_norm(c, l.layer, LayerTensor::PostAttentionNorm, attn, p);
    let gated = plus(active, post);
    assert(turns(gated, p));
    lemma_merged_laurel(c, l, gated, normed, p);
    lemma_fed_forward(c, l, merged_laurel_of(c, l, gated, normed), p);
    let activated = activated_of(c, l, active, normed, attn);
    assert(turns(activated, p));
    lemma_correct(c, l.layer, s, predictions, activated, p);
    let corrected = correct_of(c, l.layer, s.n, s.active, predictions, activated);
    if l.side is Some && side is Some {
        let dense = contiguous(active_of(s, corrected));
        assert(turns(dense, p));
        let scaled_first = bin(
            TOp::ZipBroadcast(BinOp::Mul),
            dense,
            leaf(Leaf::Layer(l.layer, LayerTensor::AltupCorrectOutputScale)),
        );
        assert(turns(scaled_first, p));
        lemma_side_channel(c, l, dense, side->0, p);
        lemma_side_channel(c, l, scaled_first, side->0, p);
        lemma_delta(s, side_channel_of(c, l.layer, l.gate, l.side->0, dense, side->0), p);
        lemma_delta(s, side_channel_of(c, l.layer, l.gate, l.side->0, scaled_first, side->0), p);
    }
}

/// Keys and values rotate as they should.
pub open spec fn kv_turns(kv: KvExpr, p: spec_fn(usize, RopeTable) -> bool) -> bool {
    turns(kv.k, p) && turns(kv.v, p)
}

proof fn lemma_value(c: Style, m: QAttention, x: Expr, p: spec_fn(usize, RopeTable) -> bool)
    requires
        heads_ok(m.heads, p),
        turns(x, p),
    ensures
        turns(value_of(c, m, x), p),
{
    broadcast use turned;

    let a = m.heads;
    let w = if m.has_value {
        LayerTensor::AttnV
    } else {
        LayerTensor::AttnK
    };
    let raw = dense_heads_of(a.layer, w, a.kv_heads, a.head_dim, x);
    assert(turns(raw, p));
    lemma_v_norm(c.norm, c.dtype, c.eps, raw, p);
}

proof fn lemma_appended(c: Style, m: QAttention, offset: usize, x: Expr, p: spec_fn(usize, RopeTable) -> bool)
    requires
        heads_ok(m.heads, p),
        turns(x, p),
    ensures
        kv_turns(appended_of(c, m, offset, x), p),
{
    broadcast use turned;

    lemma_key(c, m, offset, x, p);
    lemma_value(c, m, x, p);
}

proof fn lemma_concatenated(
    c: Style,
    m: QAttention,
    offset: usize,
    trim: Option<Trim>,
    x: Expr,
    p: spec_fn(usize, RopeTable) -> bool,
)
    requires
        heads_ok(m.heads, p),
        turns(x, p),
    ensures
        kv_turns(concatenated_of(c, m, offset, trim, x), p),
{
    broadcast use turned;

    lemma_key(c, m, offset, x, p);
    lemma_value(c, m, x, p);
}

proof fn lemma_weighted(a: Heads, masked: bool, scores: Expr, v: Expr, p: spec_fn(usize, RopeTable) -> bool)
    requires
        turns(scores, p),
        turns(v, p),
    ensures
        turns(weighted_of(a, masked, scores, v), p),
{
    broadcast use turned;

    assert(turns(masked_of(a, masked, scores), p));
}

proof fn lemma_attention(
    c: Style,
    m: QAttention,
    offset: usize,
    masked: bool,
    x: Expr,
    kv: KvExpr,
    p: spec_fn(usize, RopeTable) -> bool,
)
    requires
        heads_ok(m.heads, p),
        turns(x, p),
        kv_turns(kv, p),
    ensures
        turns(attention_of(c, m, offset, masked, x, kv), p),
{
    broadcast use turned;

    let a = m.heads;
    let raw = dense_heads_of(a.layer, LayerTensor::AttnQ, a.heads, a.head_dim, x);
    assert(turns(raw, p));
    lemma_norm(
        c.norm,
        c.dtype,
        c.eps,
        a.head_dim,
        raw,
        Leaf::Layer(a.layer, LayerTensor::AttnQNorm),
        p,
    );
    let q = query_of(c, a, offset, x);
    let wq = Leaf::Layer(a.layer, LayerTensor::AttnQNorm);
    lemma_rotated(c, a, offset, raw, wq, p);
    assert(turns(q, p));
    let (k, v) = (grouped_of(a, kv.k), grouped_of(a, kv.v));
    assert(turns(k, p) && turns(v, p));
    let scores = bin(TOp::Matmul, q, contiguous(un(TOp::Transpose { a: 2, b: 3 }, k)));
    assert(turns(scores, p));
    lemma_weighted(a, masked, scores, v, p);
    let plain = weighted_of(a, masked, scores, v);
    assert(turns(merged_of(plain), p));
    if let DecodePath::Fused { window } = m.decode {
        let fused = tri(TOp::FlashAttnDecode { window }, q, k, v);
        assert(turns(merged_of(fused), p));
    }
}

proof fn lemma_text_attention(
    c: Style,
    m: TextAttention,
    offset: usize,
    masked: bool,
    x: Expr,
    p: spec_fn(usize, RopeTable) -> bool,
)
    requires
        heads_ok(m.heads, p),
        turns(x, p),
    ensures
        turns(text_attention_of(c, m, offset, masked, x), p),
{
    broadcast use turned;

    let a = m.heads;
    lemma_affine(x, a.layer, LayerTensor::AttnQ, m.bias, LayerTensor::AttnQBias, p);
    lemma_affine(x, a.layer, LayerTensor::AttnK, m.bias, LayerTensor::AttnKBias, p);
    lemma_affine(x, a.layer, LayerTensor::AttnV, m.bias, LayerTensor::AttnVBias, p);
    let q = split_of(
        affine_of(x, a.layer, LayerTensor::AttnQ, bias_of(m.bias, LayerTensor::AttnQBias)),
        a.heads,
        a.head_dim,
    );
    let k = split_of(
        affine_of(x, a.layer, LayerTensor::AttnK, bias_of(m.bias, LayerTensor::AttnKBias)),
        a.kv_heads,
        a.head_dim,
    );
    let v = split_of(
        affine_of(x, a.layer, LayerTensor::AttnV, bias_of(m.bias, LayerTensor::AttnVBias)),
        a.kv_heads,
        a.head_dim,
    );
    assert(turns(q, p) && turns(k, p) && turns(v, p));
    let wq = Leaf::Layer(a.layer, LayerTensor::AttnQNorm);
    let wk = Leaf::Layer(a.layer, LayerTensor::AttnKNorm);
    lemma_norm(c.norm, c.dtype, c.eps, a.head_dim, q, wq, p);
    lemma_norm(c.norm, c.dtype, c.eps, a.head_dim, k, wk, p);
    lemma_v_norm(c.norm, c.dtype, c.eps, v, p);
    lemma_rotated(c, a, offset, q, wq, p);
    lemma_rotated(c, a, offset, k, wk, p);
    let rq = text_query_of(c, m, offset, x);
    let ck = cached_of(a, KvPart::Keys, text_key_of(c, m, offset, x));
    let cv = cached_of(a, KvPart::Values, text_value_of(c, m, x));
    assert(turns(rq, p));
    assert(turns(ck, p));
    assert(turns(cv, p));
    let scale = Scalar::RecipSqrt(m.query_pre_attn_scalar);
    let scores = scaled(bin(TOp::Matmul, rq, un(TOp::Transpose { a: 2, b: 3 }, ck)), scale);
    assert(turns(scores, p));
    lemma_weighted(a, masked, scores, cv, p);
    let plain = weighted_of(a, masked, scores, cv);
    let flash = un(
        TOp::Transpose { a: 1, b: 2 },
        tri(
            TOp::FlashAttn { scale, causal: masked },
            un(TOp::Transpose { a: 1, b: 2 }, rq),
            un(TOp::Transpose { a: 1, b: 2 }, ck),
            un(TOp::Transpose { a: 1, b: 2 }, cv),
        ),
    );
    assert(turns(flash, p));
    let out = if m.use_flash_attn {
        flash
    } else {
        plain
    };
    assert(turns(merged_of(out), p));
    lemma_affine(
        merged_of(out),
        a.layer,
        LayerTensor::AttnOutput,
        m.bias,
        LayerTensor::AttnOutputBias,
        p,
    );
}

proof fn lemma_looked_up(t: TopTensor, p: spec_fn(usize, RopeTable) -> bool)
    ensures
        turns(looked_up_of(t), p),
{
    broadcast use turned;

}

proof fn lemma_side_table(c: Style, s: SideEmbedding, embeds: Expr, p: spec_fn(usize, RopeTable) -> bool)
    requires
        turns(embeds, p),
    ensures
        turns(side_table_of(c, s, embeds), p),
{
    broadcast use turned;

    let by_layer = TOp::SplitLast { outer: s.layers, inner: s.width };
    let raw = un(
        by_layer,
        scaled(
            linear(embeds, Leaf::Top(TopTensor::PerLayerModelProjection)),
            Scalar::RecipSqrt(c.nominal),
        ),
    );
    assert(turns(raw, p));
    let w = Leaf::Top(TopTensor::PerLayerProjectionNorm);
    lemma_norm(c.norm, c.dtype, c.eps, s.width, raw, w, p);
    let proj = norm_of(c.norm, c.dtype, c.eps, s.width, raw, w);
    if s.rows is Some {
        lemma_looked_up(TopTensor::PerLayerTokenEmbedding, p);
        let rows = un(by_layer, looked_up_of(TopTensor::PerLayerTokenEmbedding));
        let table = if s.scale_rows {
            scaled(rows, Scalar::Sqrt(s.width))
        } else {
            rows
        };
        assert(turns(table, p));
        assert(turns(bin(TOp::ZipBroadcast(BinOp::Add), proj, table), p));
    }
}

proof fn lemma_logits(head: TopTensor, cap: Option<F64Bits>, x: Expr, p: spec_fn(usize, RopeTable) -> bool)
    requires
        turns(x, p),
    ensures
        turns(logits_of(head, cap, x), p),
{
    broadcast use turned;

    let raw = linear(x, Leaf::Top(head));
    assert(turns(raw, p));
    if let Some(v) = cap {
        lemma_capped(v, raw, p);
    }
}

proof fn lemma_capped(cap: F64Bits, x: Expr, p: spec_fn(usize, RopeTable) -> bool)
    requires
        turns(x, p),
    ensures
        turns(capped_of(cap, x), p),
{
    broadcast use turned;

}

proof fn lemma_cast(dtype: DType, x: Expr, p: spec_fn(usize, RopeTable) -> bool)
    requires
        turns(x, p),
    ensures
        turns(un(TOp::Cast(dtype), x), p),
{
    broadcast use turned;

}

proof fn lemma_last(c: Style, x: Expr, p: spec_fn(usize, RopeTable) -> bool)
    requires
        turns(x, p),
    ensures
        turns(output_norm_of(c, x), p),
        turns(norm_then_last_of(c, x), p),
        turns(last_then_norm_of(c, x), p),
{
    broadcast use turned;

    let w = Leaf::Top(TopTensor::OutputNorm);
    lemma_norm(c.norm, c.dtype, c.eps, c.hidden, x, w, p);
    let last = un(TOp::Narrow { axis: 1, start: (c.len - 1) as usize, len: 1 }, x);
    lemma_norm(c.norm, c.dtype, c.eps, c.hidden, last, w, p);
}

proof fn lemma_embeds(hidden: usize, p: spec_fn(usize, RopeTable) -> bool)
    ensures
        turns(looked_up_of(TopTensor::TokenEmbedding), p),
        turns(
            scaled(looked_up_of(TopTensor::TokenEmbedding), Scalar::Sqrt(hidden)),
            p,
        ),
{
    broadcast use turned;

    lemma_looked_up(TopTensor::TokenEmbedding, p);
}

proof fn lemma_rescaled(dtype: DType, x: Expr, target: Expr, p: spec_fn(usize, RopeTable) -> bool)
    requires
        turns(x, p),
        turns(target, p),
    ensures
        turns(rescaled_of(dtype, x, target), p),
{
    broadcast use turned;

}

proof fn lemma_expanded(
    c: Style,
    s: Streams,
    rescale: Rescale,
    x: Expr,
    p: spec_fn(usize, RopeTable) -> bool,
)
    requires
        s.wf(),
        turns(x, p),
    ensures
        turns(expanded_of(c, s, rescale, x), p),
        turns(contiguous(expanded_of(c, s, rescale, x)), p),
{
    broadcast use turned;

    let args = expanded_of(c, s, rescale, x)->Node_1;
    assert forall|i: int| 0 <= i < args.len() implies turns(#[trigger] args[i], p) by {
        assert(args[i] == lifted_of(c, s, rescale, x, i));
        if i != s.active {
            let l = Leaf::Stream(projection_of(s, i) as usize, StreamTensor::Projection);
            let projected = linear(x, l);
            assert(turns(projected, p));
            assert(turns(magnitude_of(x), p));
            lemma_rescaled(c.dtype, projected, magnitude_of(x), p);
        }
    }
}

proof fn lemma_averaged(c: Style, s: Streams, stack: Expr, p: spec_fn(usize, RopeTable) -> bool)
    requires
        s.wf(),
        turns(stack, p),
    ensures
        turns(averaged_of(c, s, stack), p),
{
    broadcast use turned;

    let all = Expr::Node(TOp::Stack, Seq::new(s.n as nat, |i: int| lowered_of(c, s, stack, i)));
    let args = all->Node_1;
    let target = magnitude_of(active_of(s, stack));
    assert(turns(target, p));
    assert forall|i: int| 0 <= i < args.len() implies turns(#[trigger] args[i], p) by {
        assert(args[i] == lowered_of(c, s, stack, i));
        if i != s.active {
            let l = Leaf::Stream(projection_of(s, i) as usize, StreamTensor::UnembedProjection);
            let projected = linear(un(TOp::Select { axis: 0, index: i as usize }, stack), l);
            assert(turns(projected, p));
            lemma_rescaled(c.dtype, projected, target, p);
        }
    }
    assert(turns(all, p));
}

proof fn lemma_summed(s: Streams, stack: Expr, k: nat, p: spec_fn(usize, RopeTable) -> bool)
    requires
        s.wf(),
        turns(stack, p),
        k <= s.n,
    ensures
        turns(summed_of(s, stack, k), p),
    decreases k,
{
    broadcast use turned;

    if k > 0 {
        lemma_summed(s, stack, (k - 1) as nat, p);
        if k - 1 != s.active {
            let l = Leaf::Stream(projection_of(s, k - 1) as usize, StreamTensor::UnembedProjection);
            let one = linear(un(TOp::Select { axis: 0, index: (k - 1) as usize }, stack), l);
            assert(turns(one, p));
        }
    }
}

proof fn lemma_run(v: PassView, x: Expr, n: nat, p: spec_fn(usize, RopeTable) -> bool)
    requires
        pass_ok(v, p),
        n <= v.layers.len(),
        v.layers.len() <= usize::MAX,
        first_stop(v, n) is None,
        turns(x, p),
    ensures
        turns(run_of(v, x, n).x, p),
        run_of(v, x, n).kv.len() == v.layers.len(),
        forall|j: int|
            0 <= j < n && v.layers[j].donor is None ==> (#[trigger] run_of(v, x, n).kv[j] matches Some(
                kv,
            ) && kv_turns(kv, p)),
    decreases n,
{
    broadcast use turned;

    reveal(next_of);
    if n > 0 {
        let i = n - 1;
        lemma_run(v, x, i as nat, p);
        let b = run_of(v, x, i as nat);
        let l = v.layers[i];
        assert(stop_at(v, i) is None);
        if let Some(s) = v.streams {
            lemma_predict(v.c, i as usize, s, b.x, p);
            let predictions = predict_of(v.c, i as usize, s.n, s.active, b.x);
            assert(turns(active_of(s, predictions), p));
            lemma_layer_norm(
                v.c,
                i as usize,
                LayerTensor::InputNorm,
                active_of(s, predictions),
                p,
            );
        } else {
            lemma_layer_norm(v.c, i as usize, LayerTensor::InputNorm, b.x, p);
        }
        let normed = attention_input_of(v, i, b.x);
        assert(turns(normed, p));
        let kv = seen_by(v, i, b);
        match l.donor {
            Some(d) => {
                assert(b.kv[d as int] is Some);
            },
            None => match v.caches[i] {
                CacheStep::Append { .. } => lemma_appended(v.c, l.attention, v.offset, normed, p),
                CacheStep::Join { trim, .. } => lemma_concatenated(
                    v.c,
                    l.attention,
                    v.offset,
                    trim,
                    normed,
                    p,
                ),
            },
        }
        assert(kv_turns(kv, p));
        lemma_attention(v.c, l.attention, v.offset, v.c.len > 1, normed, kv, p);
        let attn = attention_of(v.c, l.attention, v.offset, v.c.len > 1, normed, kv);
        if let Some(t) = v.side {
            assert(turns(un(TOp::Select { axis: 2, index: i as usize }, t), p));
        }
        assert(side_turns(side_at(v, i), p));
        match v.streams {
            Some(s) => lemma_altup(
                v.c,
                l.body,
                s,
                predict_of(v.c, i as usize, s.n, s.active, b.x),
                normed,
                attn,
                side_at(v, i),
                p,
            ),
            None => lemma_classic(v.c, l.body, b.x, normed, attn, side_at(v, i), p),
        }
    }
}

proof fn lemma_text_run(v: TextPassView, x: Expr, n: nat, p: spec_fn(usize, RopeTable) -> bool)
    requires
        text_pass_ok(v, p),
        n <= v.layers.len(),
        v.layers.len() <= usize::MAX,
        turns(x, p),
    ensures
        turns(text::run_of(v, x, n), p),
    decreases n,
{
    broadcast use turned;

    reveal(text::layer_of);
    if n > 0 {
        let i = n - 1;
        lemma_text_run(v, x, i as nat, p);
        let b = text::run_of(v, x, i as nat);
        let l = v.layers[i];
        let w = LayerTensor::InputNorm;
        if let Some(t) = v.side {
            assert(turns(un(TOp::Narrow { axis: 2, start: i as usize, len: 1 }, t), p));
        }
        let side = text::side_at(v, i);
        assert(side_turns(side, p));
        if let Some(s) = v.streams {
            lemma_predict(v.c, i as usize, s, b, p);
            let predictions = predict_of(v.c, i as usize, s.n, s.active, b);
            assert(turns(active_of(s, predictions), p));
            lemma_layer_norm(v.c, i as usize, w, active_of(s, predictions), p);
            let normed = layer_norm_of(v.c, i as usize, w, active_of(s, predictions));
            lemma_text_attention(v.c, l.attention, v.offset, v.c.len > 1, normed, p);
            let attn = text_attention_of(v.c, l.attention, v.offset, v.c.len > 1, normed);
            lemma_altup(v.c, l.body, s, predictions, normed, attn, side, p);
        } else {
            lemma_layer_norm(v.c, i as usize, w, b, p);
            let normed = layer_norm_of(v.c, i as usize, w, b);
            lemma_text_attention(v.c, l.attention, v.offset, v.c.len > 1, normed, p);
            let attn = text_attention_of(v.c, l.attention, v.offset, v.c.len > 1, normed);
            lemma_classic(v.c, text::plain_body(l.body), b, normed, attn, None, p);
        }
    }
}

/// The base of a table's frequencies.
pub open spec fn base_of(cfg: &Gemma4TextConfig, table: RopeTable) -> F64Bits {
    match table {
        RopeTable::Global => cfg.rope_theta,
        RopeTable::Local => cfg.spec_rope_local_base_freq(),
    }
}

/// The frequencies of a table, of which a full-attention layer has `angles`.
pub open spec fn pairs_of(cfg: &Gemma4TextConfig, table: RopeTable, angles: nat) -> Seq<
    Option<usize>,
> {
    match table {
        RopeTable::Global => partial_frequencies(cfg.global_head_dim as nat, angles),
        RopeTable::Local => full_frequencies(cfg.head_dim as nat),
    }
}

/// The table that is right for a layer: on a sliding layer all pairs turn, by
/// the base of the sliding layers; on another the leading `angles` pairs turn,
/// by `rope_theta`, and no other pair does.
pub open spec fn by_layer_type(cfg: &Gemma4TextConfig, angles: nat) -> spec_fn(
    usize,
    RopeTable,
) -> bool {
    |i: usize, table: RopeTable|
        {
            let pairs = pairs_of(cfg, table, angles);
            if i < cfg.layer_types@.len() && cfg.layer_types@[i as int]@ == "sliding_attention"@ {
                &&& table == RopeTable::Local
                &&& pairs.len() == (cfg.head_dim + 1) / 2
                &&& forall|j: int| 0 <= j < pairs.len() ==> #[trigger] pairs[j] == Some((2 * j) as usize)
                &&& cfg.rope_parameters matches Some(rp) ==> (rp.sliding_attention matches Some(s)
                    ==> (s.rope_theta matches Some(f) ==> base_of(cfg, table) == f))
            } else {
                &&& table == RopeTable::Global
                &&& pairs.len() == cfg.global_head_dim / 2
                &&& forall|j: int|
                    0 <= j < pairs.len() ==> #[trigger] pairs[j] == (if j < angles {
                        Some((2 * j) as usize)
                    } else {
                        None
                    })
                &&& base_of(cfg, table) == cfg.rope_theta
            }
        }
}

proof fn lemma_heads(cfg: &Gemma4TextConfig, i: usize, angles: nat)
    ensures
        heads_ok(Heads::spec_of(cfg, i as int), by_layer_type(cfg, angles)),
{
}

/// In the program of a pass of the unquantized model, every rotation is of a
/// layer's queries or keys, by the table that is right for the layer's type.
pub proof fn law_text_rotations(
    m: &TextModel,
    w: StepShape,
    kv_lens: Seq<usize>,
    angles: nat,
)
    requires
        m.layers@.len() <= usize::MAX,
        m.streams matches Some(s) ==> s.wf(),
        forall|i: int|
            0 <= i < m.layers@.len() ==> (#[trigger] m.layers@[i]).attention.heads
                == Heads::spec_of(&m.cfg, i),
    ensures
        turns(
            m.logits_formula(m.hidden_formula(w, kv_lens, m.embeds_formula(), None)),
            by_layer_type(&m.cfg, angles),
        ),
{
    let p = by_layer_type(&m.cfg, angles);
    let v = m.pass_of(w, kv_lens, None);
    let n = m.layers@.len();
    lemma_embeds(m.cfg.hidden_size, p);
    let xs = m.embeds_formula();
    assert(turns(xs, p));
    if let Some(s) = m.streams {
        lemma_expanded(v.c, s, Rescale::Yes, xs, p);
    }
    assert forall|i: int| 0 <= i < v.layers.len() implies heads_ok(
        (#[trigger] v.layers[i]).attention.heads,
        p,
    ) by {
        lemma_heads(&m.cfg, i as usize, angles);
    }
    lemma_text_run(v, m.entry_of(v.c, xs), n, p);
    let out = text::run_of(v, m.entry_of(v.c, xs), n);
    if let Some(s) = m.streams {
        lemma_averaged(v.c, s, out, p);
    }
    lemma_last(v.c, m.exit_of(v.c, out), p);
    lemma_logits(
        m.spec_head(),
        m.cfg.final_logit_softcapping,
        m.hidden_formula(w, kv_lens, xs, None),
        p,
    );
}

/// In the program of a pass of the quantized model, every rotation is of a
/// layer's queries or keys, by the table that is right for the layer's type.
pub proof fn law_quantized_rotations(
    m: &quantized::ModelWeights,
    batch: usize,
    len: usize,
    offset: usize,
    caches: Seq<CacheStep>,
    angles: nat,
)
    requires
        m.layers@.len() <= usize::MAX,
        m.streams matches Some(s) ==> s.wf(),
        forall|i: int|
            0 <= i < m.layers@.len() ==> (#[trigger] m.layers@[i]).attention.heads
                == Heads::spec_of(&m.cfg, i),
        m.step_refusal(batch, len, offset, caches) is None,
    ensures
        turns(m.logits_formula(batch, len, offset, caches), by_layer_type(&m.cfg, angles)),
{
    let p = by_layer_type(&m.cfg, angles);
    let v = m.pass_of(batch, len, offset, caches);
    let n = m.layers@.len();
    lemma_embeds(v.c.nominal, p);
    let embeds = looked_up_of(TopTensor::TokenEmbedding);
    if let Some(s) = m.side {
        lemma_side_table(v.c, s, embeds, p);
    }
    let hidden = scaled(embeds, Scalar::Sqrt(v.c.nominal));
    if let Some(s) = m.streams {
        lemma_expanded(v.c, s, Rescale::No, hidden, p);
    }
    assert forall|i: int| 0 <= i < v.layers.len() implies heads_ok(
        (#[trigger] v.layers[i]).attention.heads,
        p,
    ) by {
        lemma_heads(&m.cfg, i as usize, angles);
    }
    lemma_run(v, m.entry_of(v.c), n, p);
    let out = run_of(v, m.entry_of(v.c), n).x;
    if let Some(s) = m.streams {
        lemma_summed(s, out, s.n as nat, p);
    }
    lemma_last(v.c, m.exit_of(out), p);
    lemma_logits(TopTensor::Output, cap_of(&m.cfg), output_norm_of(v.c, m.exit_of(out)), p);
}

/// In the program of a pass of the small quantized model, every rotation is of
/// a layer's queries or keys, by the table that is right for the layer's type.
pub proof fn law_e2b_rotations(
    m: &quantized_e2b::ModelWeights,
    batch: usize,
    len: usize,
    offset: usize,
    angles: nat,
)
    requires
        m.layers@.len() <= usize::MAX,
        forall|i: int|
            0 <= i < m.layers@.len() ==> (#[trigger] m.layers@[i]).attention.heads
                == Heads::spec_of(&m.cfg, i),
        m.stop_of(batch, len, offset) is None,
    ensures
        turns(m.logits_formula(batch, len, offset), by_layer_type(&m.cfg, angles)),
{
    let p = by_layer_type(&m.cfg, angles);
    let v = m.pass_of(batch, len, offset);
    let n = m.layers@.len();
    lemma_embeds(v.c.nominal, p);
    let embeds = looked_up_of(TopTensor::TokenEmbedding);
    if let Some(s) = m.side {
        lemma_side_table(v.c, s, embeds, p);
    }
    assert forall|i: int| 0 <= i < v.layers.len() implies heads_ok(
        (#[trigger] v.layers[i]).attention.heads,
        p,
    ) by {
        lemma_heads(&m.cfg, i as usize, angles);
    }
    let entry = scaled(embeds, Scalar::Sqrt(v.c.nominal));
    lemma_run(v, entry, n, p);
    let out = run_of(v, entry, n).x;
    lemma_last(v.c, out, p);
    let last = norm_then_last_of(v.c, out);
    lemma_logits(TopTensor::Output, None, last, p);
    let raw = logits_of(TopTensor::Output, None, last);
    lemma_cast(DType::F32, raw, p);
    if let Some(k) = cap_of(&m.cfg) {
        lemma_capped(k, un(TOp::Cast(DType::F32), raw), p);
    }
}

} // verus!
