//! Formulas with tensors filled in: what the pieces of a model compute when
//! one is run on what another has computed.

use crate::dtype::DType;
use crate::gemma4::attention::{
    affine_of, bias_of, cached_of, masked_of, merged_of, split_of, text_attention_of, text_key_of,
    text_query_of, text_value_of, weighted_of, TextAttention,
};
use crate::gemma4::block::{
    correct_of, each_of, laurel_of, mlp_of, norm_of, predict_of, router_of, side_channel_of,
    sparse_of, v_norm_of, Norm, Style,
};
use crate::gemma4::config::F64Bits;
use crate::gemma4::layer::{
    activated_of, active_of, altup_of, classic_of, delta_of, fed_forward_of, layer_norm_of,
    merged_laurel_of, LayerBody, Streams,
};
use crate::gemma4::streams::{
    averaged_of, expanded_of, lifted_of, lowered_of, magnitude_of, projection_of, rescaled_of,
    Rescale,
};
use crate::gemma4::text::{
    layer_of, plain_body, run_of, side_at, StepShape, TextModel, TextPassView,
};
use crate::tensor::op::{
    bin, contiguous, leaf, linear, plus, scaled, tri, un, BinOp, Expr, KvPart, LayerTensor, Leaf,
    MapOp, Scalar, StreamTensor, TOp, TopTensor,
};
use vstd::prelude::*;

verus! {

/// The formula `e`, with the formula `by` wherever `e` reads the tensor `l`.
#[verifier::opaque]
pub open spec fn filled(e: Expr, l: Leaf, by: Expr) -> Expr
    decreases e,
{
    match e {
        Expr::Node(op, args) => if op == TOp::Leaf(l) {
            by
        } else {
            Expr::Node(
                op,
                Seq::new(
                    args.len(),
                    |i: int|
                        if 0 <= i < args.len() {
                            filled(args[i], l, by)
                        } else {
                            e
                        },
                ),
            )
        },
    }
}

/// Tensors that a piece of a model is given.
pub open spec fn is_given(l: Leaf) -> bool {
    l is Embeddings || l is PerLayerInputs
}

broadcast proof fn fill_leaf(k: Leaf, l: Leaf, by: Expr)
    requires
        k != l,
    ensures
        #[trigger] filled(leaf(k), l, by) == leaf(k),
{
    reveal(filled);
    assert(filled(leaf(k), l, by)->Node_1 =~= leaf(k)->Node_1);
}

broadcast proof fn fill_un(op: TOp, x: Expr, l: Leaf, by: Expr)
    requires
        !(op is Leaf),
    ensures
        #[trigger] filled(un(op, x), l, by) == un(op, filled(x, l, by)),
{
    reveal(filled);
    assert(filled(un(op, x), l, by)->Node_1 =~= seq![filled(x, l, by)]);
}

broadcast proof fn fill_bin(op: TOp, x: Expr, y: Expr, l: Leaf, by: Expr)
    requires
        !(op is Leaf),
    ensures
        #[trigger] filled(bin(op, x, y), l, by) == bin(op, filled(x, l, by), filled(y, l, by)),
{
    reveal(filled);
    assert(filled(bin(op, x, y), l, by)->Node_1 =~= seq![filled(x, l, by), filled(y, l, by)]);
}

broadcast proof fn fill_tri(op: TOp, x: Expr, y: Expr, z: Expr, l: Leaf, by: Expr)
    requires
        !(op is Leaf),
    ensures
        #[trigger] filled(tri(op, x, y, z), l, by) == tri(
            op,
            filled(x, l, by),
            filled(y, l, by),
            filled(z, l, by),
        ),
{
    reveal(filled);
    assert(filled(tri(op, x, y, z), l, by)->Node_1 =~= seq![
        filled(x, l, by),
        filled(y, l, by),
        filled(z, l, by),
    ]);
}

broadcast group fills {
    fill_leaf,
    fill_un,
    fill_bin,
    fill_tri,
}

/// The tensor itself is what is filled in.
pub proof fn law_filled_leaf(l: Leaf, by: Expr)
    ensures
        filled(leaf(l), l, by) == by,
{
    reveal(filled);
}

proof fn fill_stack(args: Seq<Expr>, l: Leaf, by: Expr)
    ensures
        filled(Expr::Node(TOp::Stack, args), l, by) == Expr::Node(
            TOp::Stack,
            Seq::new(args.len(), |i: int| filled(args[i], l, by)),
        ),
{
    reveal(filled);
    assert(filled(Expr::Node(TOp::Stack, args), l, by)->Node_1 =~= Seq::new(
        args.len(),
        |i: int| filled(args[i], l, by),
    ));
}

proof fn fill_norm(
    kind: Norm,
    dtype: DType,
    eps: F64Bits,
    n: usize,
    x: Expr,
    w: Leaf,
    l: Leaf,
    by: Expr,
)
    requires
        w != l,
    ensures
        filled(norm_of(kind, dtype, eps, n, x, w), l, by) == norm_of(
            kind,
            dtype,
            eps,
            n,
            filled(x, l, by),
            w,
        ),
{
    broadcast use fills;

}

proof fn fill_v_norm(kind: Norm, dtype: DType, eps: F64Bits, x: Expr, l: Leaf, by: Expr)
    ensures
        filled(v_norm_of(kind, dtype, eps, x), l, by) == v_norm_of(
            kind,
            dtype,
            eps,
            filled(x, l, by),
        ),
{
    broadcast use fills;

}

proof fn fill_mlp(c: Style, layer: usize, z: Option<F64Bits>, x: Expr, l: Leaf, by: Expr)
    requires
        is_given(l),
    ensures
        filled(mlp_of(c, layer, z, x), l, by) == mlp_of(c, layer, z, filled(x, l, by)),
{
    broadcast use fills;

    if let Some(v) = z {
        let gate = linear(x, Leaf::Layer(layer, LayerTensor::FfnGate));
        assert(filled(sparse_of(c.dtype, v, gate), l, by) == sparse_of(
            c.dtype,
            v,
            filled(gate, l, by),
        ));
    }
}

proof fn fill_layer_norm(c: Style, layer: usize, w: LayerTensor, x: Expr, l: Leaf, by: Expr)
    requires
        is_given(l),
    ensures
        filled(layer_norm_of(c, layer, w, x), l, by) == layer_norm_of(
            c,
            layer,
            w,
            filled(x, l, by),
        ),
{
    fill_norm(c.norm, c.dtype, c.eps, c.hidden, x, Leaf::Layer(layer, w), l, by);
}

proof fn fill_merged_laurel(c: Style, b: LayerBody, x: Expr, normed: Expr, l: Leaf, by: Expr)
    requires
        is_given(l),
    ensures
        filled(merged_laurel_of(c, b, x, normed), l, by) == merged_laurel_of(
            c,
            b,
            filled(x, l, by),
            filled(normed, l, by),
        ),
{
    broadcast use fills;

    let low = linear(
        linear(normed, Leaf::Layer(b.layer, LayerTensor::LaurelLeft)),
        Leaf::Layer(b.layer, LayerTensor::LaurelRight),
    );
    let w = Leaf::Layer(b.layer, LayerTensor::PostLaurelNorm);
    fill_norm(c.norm, c.dtype, c.eps, c.hidden, low, w, l, by);
    assert(filled(laurel_of(c, b.layer, normed), l, by) == laurel_of(
        c,
        b.layer,
        filled(normed, l, by),
    ));
}

proof fn fill_fed_forward(c: Style, b: LayerBody, x: Expr, l: Leaf, by: Expr)
    requires
        is_given(l),
    ensures
        filled(fed_forward_of(c, b, x), l, by) == fed_forward_of(c, b, filled(x, l, by)),
{
    broadcast use fills;

    let normed = layer_norm_of(c, b.layer, LayerTensor::PreFeedforwardNorm, x);
    fill_layer_norm(c, b.layer, LayerTensor::PreFeedforwardNorm, x, l, by);
    fill_mlp(c, b.layer, b.z, normed, l, by);
    let inner = mlp_of(c, b.layer, b.z, normed);
    fill_layer_norm(c, b.layer, LayerTensor::PostFeedforwardNorm, inner, l, by);
}

proof fn fill_side_channel(c: Style, b: LayerBody, x: Expr, input: Expr, l: Leaf, by: Expr)
    requires
        is_given(l),
    ensures
        filled(side_channel_of(c, b.layer, b.gate, b.side->0, x, input), l, by)
            == side_channel_of(
            c,
            b.layer,
            b.gate,
            b.side->0,
            filled(x, l, by),
            filled(input, l, by),
        ),
{
    broadcast use fills;

    let values = each_of(
        MapOp::Act(c.act),
        linear(x, Leaf::Layer(b.layer, LayerTensor::PerLayerInputGate)),
    );
    let gated = if b.gate == 1 && b.side->0 != 1 {
        bin(TOp::ZipBroadcast(BinOp::Mul), input, values)
    } else {
        bin(TOp::ZipBroadcast(BinOp::Mul), values, input)
    };
    let out = linear(gated, Leaf::Layer(b.layer, LayerTensor::PerLayerProjection));
    fill_layer_norm(c, b.layer, LayerTensor::PostPerLayerInputNorm, out, l, by);
}

/// An optional formula, filled in.
pub open spec fn filled_side(side: Option<Expr>, l: Leaf, by: Expr) -> Option<Expr> {
    match side {
        Some(e) => Some(filled(e, l, by)),
        None => None,
    }
}

proof fn fill_classic(
    c: Style,
    b: LayerBody,
    x: Expr,
    normed: Expr,
    attn: Expr,
    l: Leaf,
    by: Expr,
)
    requires
        is_given(l),
    ensures
        filled(classic_of(c, b, x, normed, attn, None), l, by) == classic_of(
            c,
            b,
            filled(x, l, by),
            filled(normed, l, by),
            filled(attn, l, by),
            None,
        ),
{
    broadcast use fills;

    let post = layer_norm_of(c, b.layer, LayerTensor::PostAttentionNorm, attn);
    fill_layer_norm(c, b.layer, LayerTensor::PostAttentionNorm, attn, l, by);
    fill_merged_laurel(c, b, post, normed, l, by);
    fill_fed_forward(c, b, plus(merged_laurel_of(c, b, post, normed), x), l, by);
}

proof fn fill_router(c: Style, layer: usize, x: Expr, l: Leaf, by: Expr)
    requires
        is_given(l),
    ensures
        filled(router_of(c, layer, x), l, by) == router_of(c, layer, filled(x, l, by)),
{
    broadcast use fills;

    fill_layer_norm(c, layer, LayerTensor::AltupRouterNorm, x, l, by);
}

proof fn fill_predict(c: Style, layer: usize, s: Streams, stack: Expr, l: Leaf, by: Expr)
    requires
        is_given(l),
    ensures
        filled(predict_of(c, layer, s.n, s.active, stack), l, by) == predict_of(
            c,
            layer,
            s.n,
            s.active,
            filled(stack, l, by),
        ),
{
    broadcast use fills;

    fill_router(c, layer, active_of(s, stack), l, by);
}

proof fn fill_correct(
    c: Style,
    layer: usize,
    s: Streams,
    predictions: Expr,
    activated: Expr,
    l: Leaf,
    by: Expr,
)
    requires
        is_given(l),
    ensures
        filled(correct_of(c, layer, s.n, s.active, predictions, activated), l, by) == correct_of(
            c,
            layer,
            s.n,
            s.active,
            filled(predictions, l, by),
            filled(activated, l, by),
        ),
{
    broadcast use fills;

    fill_router(c, layer, activated, l, by);
}

proof fn fill_delta(s: Streams, first: Expr, l: Leaf, by: Expr)
    ensures
        filled(delta_of(s, first), l, by) == delta_of(s, filled(first, l, by)),
{
    broadcast use fills;

    fill_stack(delta_of(s, first)->Node_1, l, by);
    assert(filled(delta_of(s, first), l, by)->Node_1 =~= delta_of(s, filled(first, l, by))->Node_1);
}

proof fn fill_altup(
    c: Style,
    b: LayerBody,
    s: Streams,
    predictions: Expr,
    normed: Expr,
    attn: Expr,
    side: Option<Expr>,
    l: Leaf,
    by: Expr,
)
    requires
        is_given(l),
    ensures
        filled(altup_of(c, b, s, predictions, normed, attn, side), l, by) == altup_of(
            c,
            b,
            s,
            filled(predictions, l, by),
            filled(normed, l, by),
            filled(attn, l, by),
            filled_side(side, l, by),
        ),
{
    broadcast use fills;

    let active = active_of(s, predictions);
    let post = layer_norm_of(c, b.layer, LayerTensor::PostAttentionNorm, attn);
    fill_layer_norm(c, b.layer, LayerTensor::PostAttentionNorm, attn, l, by);
    let gated = plus(active, post);
    fill_merged_laurel(c, b, gated, normed, l, by);
    fill_fed_forward(c, b, merged_laurel_of(c, b, gated, normed), l, by);
    let activated = activated_of(c, b, active, normed, attn);
    fill_correct(c, b.layer, s, predictions, activated, l, by);
    let corrected = correct_of(c, b.layer, s.n, s.active, predictions, activated);
    if b.side is Some && side is Some {
        let dense = contiguous(active_of(s, corrected));
        let first = if s.correct_scale {
            bin(
                TOp::ZipBroadcast(BinOp::Mul),
                dense,
                leaf(Leaf::Layer(b.layer, LayerTensor::AltupCorrectOutputScale)),
            )
        } else {
            dense
        };
        fill_side_channel(c, b, first, side->0, l, by);
        fill_delta(s, side_channel_of(c, b.layer, b.gate, b.side->0, first, side->0), l, by);
    }
}

proof fn fill_affine(
    x: Expr,
    layer: usize,
    w: LayerTensor,
    bias: Option<LayerTensor>,
    l: Leaf,
    by: Expr,
)
    requires
        is_given(l),
    ensures
        filled(affine_of(x, layer, w, bias), l, by) == affine_of(
            filled(x, l, by),
            layer,
            w,
            bias,
        ),
{
    broadcast use fills;

}

proof fn fill_text_heads(c: Style, m: TextAttention, offset: usize, x: Expr, l: Leaf, by: Expr)
    requires
        is_given(l),
    ensures
        filled(text_query_of(c, m, offset, x), l, by) == text_query_of(
            c,
            m,
            offset,
            filled(x, l, by),
        ),
        filled(text_key_of(c, m, offset, x), l, by) == text_key_of(
            c,
            m,
            offset,
            filled(x, l, by),
        ),
        filled(text_value_of(c, m, x), l, by) == text_value_of(c, m, filled(x, l, by)),
{
    broadcast use fills;

    let a = m.heads;
    let bq = bias_of(m.bias, LayerTensor::AttnQBias);
    let bk = bias_of(m.bias, LayerTensor::AttnKBias);
    let bv = bias_of(m.bias, LayerTensor::AttnVBias);
    fill_affine(x, a.layer, LayerTensor::AttnQ, bq, l, by);
    fill_affine(x, a.layer, LayerTensor::AttnK, bk, l, by);
    fill_affine(x, a.layer, LayerTensor::AttnV, bv, l, by);
    let q = split_of(affine_of(x, a.layer, LayerTensor::AttnQ, bq), a.heads, a.head_dim);
    let k = split_of(affine_of(x, a.layer, LayerTensor::AttnK, bk), a.kv_heads, a.head_dim);
    let v = split_of(affine_of(x, a.layer, LayerTensor::AttnV, bv), a.kv_heads, a.head_dim);
    let wq = Leaf::Layer(a.layer, LayerTensor::AttnQNorm);
    let wk = Leaf::Layer(a.layer, LayerTensor::AttnKNorm);
    fill_norm(c.norm, c.dtype, c.eps, a.head_dim, q, wq, l, by);
    fill_norm(c.norm, c.dtype, c.eps, a.head_dim, k, wk, l, by);
    fill_v_norm(c.norm, c.dtype, c.eps, v, l, by);
}

proof fn fill_text_attention(
    c: Style,
    m: TextAttention,
    offset: usize,
    masked: bool,
    x: Expr,
    l: Leaf,
    by: Expr,
)
    requires
        is_given(l),
    ensures
        filled(text_attention_of(c, m, offset, masked, x), l, by) == text_attention_of(
            c,
            m,
            offset,
            masked,
            filled(x, l, by),
        ),
{
    broadcast use fills;

    let a = m.heads;
    fill_text_heads(c, m, offset, x, l, by);
    let q = text_query_of(c, m, offset, x);
    let k = cached_of(a, KvPart::Keys, text_key_of(c, m, offset, x));
    let v = cached_of(a, KvPart::Values, text_value_of(c, m, x));
    let scale = Scalar::RecipSqrt(m.query_pre_attn_scalar);
    let scores = scaled(bin(TOp::Matmul, q, un(TOp::Transpose { a: 2, b: 3 }, k)), scale);
    assert(filled(weighted_of(a, masked, scores, v), l, by) == weighted_of(
        a,
        masked,
        filled(scores, l, by),
        filled(v, l, by),
    )) by {
        assert(filled(masked_of(a, masked, scores), l, by) == masked_of(
            a,
            masked,
            filled(scores, l, by),
        ));
    }
    let flash = un(
        TOp::Transpose { a: 1, b: 2 },
        tri(
            TOp::FlashAttn { scale, causal: masked },
            un(TOp::Transpose { a: 1, b: 2 }, q),
            un(TOp::Transpose { a: 1, b: 2 }, k),
            un(TOp::Transpose { a: 1, b: 2 }, v),
        ),
    );
    let out = if m.use_flash_attn {
        flash
    } else {
        weighted_of(a, masked, scores, v)
    };
    let bo = bias_of(m.bias, LayerTensor::AttnOutputBias);
    fill_affine(merged_of(out), a.layer, LayerTensor::AttnOutput, bo, l, by);
}

proof fn fill_rescaled(dtype: DType, x: Expr, target: Expr, l: Leaf, by: Expr)
    ensures
        filled(rescaled_of(dtype, x, target), l, by) == rescaled_of(
            dtype,
            filled(x, l, by),
            filled(target, l, by),
        ),
        filled(magnitude_of(x), l, by) == magnitude_of(filled(x, l, by)),
{
    broadcast use fills;

}

proof fn fill_expanded(c: Style, s: Streams, x: Expr, l: Leaf, by: Expr)
    requires
        is_given(l),
    ensures
        filled(expanded_of(c, s, Rescale::Yes, x), l, by) == expanded_of(
            c,
            s,
            Rescale::Yes,
            filled(x, l, by),
        ),
{
    broadcast use fills;

    let args = expanded_of(c, s, Rescale::Yes, x)->Node_1;
    let want = expanded_of(c, s, Rescale::Yes, filled(x, l, by))->Node_1;
    fill_stack(args, l, by);
    assert forall|i: int| 0 <= i < args.len() implies filled(#[trigger] args[i], l, by)
        == want[i] by {
        assert(args[i] == lifted_of(c, s, Rescale::Yes, x, i));
        if i != s.active {
            let w = Leaf::Stream(
                projection_of(s, i) as usize,
                StreamTensor::Projection,
            );
            fill_rescaled(c.dtype, linear(x, w), magnitude_of(x), l, by);
            fill_rescaled(c.dtype, x, x, l, by);
        }
    }
    assert(filled(expanded_of(c, s, Rescale::Yes, x), l, by)->Node_1 =~= want);
}

proof fn fill_averaged(c: Style, s: Streams, stack: Expr, l: Leaf, by: Expr)
    requires
        is_given(l),
    ensures
        filled(averaged_of(c, s, stack), l, by) == averaged_of(c, s, filled(stack, l, by)),
{
    broadcast use fills;

    let args = Seq::new(s.n as nat, |i: int| lowered_of(c, s, stack, i));
    let want = Seq::new(s.n as nat, |i: int| lowered_of(c, s, filled(stack, l, by), i));
    fill_stack(args, l, by);
    assert forall|i: int| 0 <= i < args.len() implies filled(#[trigger] args[i], l, by)
        == want[i] by {
        assert(args[i] == lowered_of(c, s, stack, i));
        if i != s.active {
            let w = Leaf::Stream(
                projection_of(s, i) as usize,
                StreamTensor::UnembedProjection,
            );
            let active = active_of(s, stack);
            let projected = linear(un(TOp::Select { axis: 0, index: i as usize }, stack), w);
            fill_rescaled(c.dtype, projected, magnitude_of(active), l, by);
            fill_rescaled(c.dtype, active, active, l, by);
        }
    }
    assert(Seq::new(args.len(), |i: int| filled(args[i], l, by)) =~= want);
}

/// A pass with a tensor filled into its auxiliary embeddings.
pub open spec fn filled_pass(v: TextPassView, l: Leaf, by: Expr) -> TextPassView {
    TextPassView { side: filled_side(v.side, l, by), ..v }
}

proof fn fill_run(v: TextPassView, x: Expr, n: nat, l: Leaf, by: Expr)
    requires
        is_given(l),
        n <= v.layers.len(),
        v.layers.len() <= usize::MAX,
        forall|i: int| 0 <= i < v.layers.len() ==> (#[trigger] v.layers[i]).body.layer == i,
    ensures
        filled(run_of(v, x, n), l, by) == run_of(
            filled_pass(v, l, by),
            filled(x, l, by),
            n,
        ),
    decreases n,
{
    broadcast use fills;

    reveal(layer_of);
    if n > 0 {
        let i = n - 1;
        fill_run(v, x, i as nat, l, by);
        let b = run_of(v, x, i as nat);
        let m = v.layers[i].attention;
        let body = v.layers[i].body;
        let w = LayerTensor::InputNorm;
        let side = side_at(v, i);
        assert(filled_side(side, l, by) == side_at(filled_pass(v, l, by), i));
        if let Some(s) = v.streams {
            fill_predict(v.c, i as usize, s, b, l, by);
            let predictions = predict_of(v.c, i as usize, s.n, s.active, b);
            fill_layer_norm(v.c, i as usize, w, active_of(s, predictions), l, by);
            let normed = layer_norm_of(v.c, i as usize, w, active_of(s, predictions));
            fill_text_attention(v.c, m, v.offset, v.c.len > 1, normed, l, by);
            let attn = text_attention_of(v.c, m, v.offset, v.c.len > 1, normed);
            fill_altup(v.c, body, s, predictions, normed, attn, side, l, by);
        } else {
            fill_layer_norm(v.c, i as usize, w, b, l, by);
            let normed = layer_norm_of(v.c, i as usize, w, b);
            fill_text_attention(v.c, m, v.offset, v.c.len > 1, normed, l, by);
            let attn = text_attention_of(v.c, m, v.offset, v.c.len > 1, normed);
            fill_classic(v.c, plain_body(body), b, normed, attn, l, by);
        }
    }
}

/// To run the layers on something that was computed before is to compute the
/// state of a step's last position from its formula.
pub proof fn law_hidden_of_filled(
    m: &TextModel,
    w: StepShape,
    kv_lens: Seq<usize>,
    xs: Expr,
    side: Option<Expr>,
    l: Leaf,
    by: Expr,
)
    requires
        m.wf(),
        is_given(l),
    ensures
        filled(m.hidden_formula(w, kv_lens, xs, side), l, by) == m.hidden_formula(
            w,
            kv_lens,
            filled(xs, l, by),
            filled_side(side, l, by),
        ),
{
    broadcast use fills;

    let v = m.pass_of(w, kv_lens, side);
    let n = m.layers@.len();
    if let Some(s) = m.streams {
        fill_expanded(v.c, s, xs, l, by);
    }
    let entry = m.entry_of(v.c, xs);
    fill_run(v, entry, n, l, by);
    let out = run_of(v, entry, n);
    if let Some(s) = m.streams {
        fill_averaged(v.c, s, out, l, by);
    }
    let exit = m.exit_of(v.c, out);
    let last = un(TOp::Narrow { axis: 1, start: (v.c.len - 1) as usize, len: 1 }, exit);
    let top = Leaf::Top(TopTensor::OutputNorm);
    fill_norm(v.c.norm, v.c.dtype, v.c.eps, v.c.hidden, last, top, l, by);
}

/// To project something that was computed before is to compute the logits from
/// its formula.
pub proof fn law_logits_of_filled(m: &TextModel, x: Expr, l: Leaf, by: Expr)
    requires
        is_given(l),
    ensures
        filled(m.logits_formula(x), l, by) == m.logits_formula(filled(x, l, by)),
{
    broadcast use fills;

}

/// The pieces of the model make up the whole: the embeddings of a step's
/// tokens, run through the layers, and the result through the output
/// projection, give the logits that one forward step gives.
pub proof fn law_pieces_make_up_the_whole(m: &TextModel, w: StepShape, kv_lens: Seq<usize>)
    requires
        m.wf(),
    ensures
        ({
            let given = Leaf::Embeddings;
            let hidden = m.hidden_formula(w, kv_lens, leaf(given), None);
            let head = m.logits_formula(leaf(given));
            filled(head, given, filled(hidden, given, m.embeds_formula())) == m.logits_formula(
                m.hidden_formula(w, kv_lens, m.embeds_formula(), None),
            )
        }),
{
    let given = Leaf::Embeddings;
    let hidden = m.hidden_formula(w, kv_lens, leaf(given), None);
    law_filled_leaf(given, m.embeds_formula());
    law_hidden_of_filled(m, w, kv_lens, leaf(given), None, given, m.embeds_formula());
    let state = filled(hidden, given, m.embeds_formula());
    law_filled_leaf(given, state);
    law_logits_of_filled(m, leaf(given), given, state);
}

} // verus!
