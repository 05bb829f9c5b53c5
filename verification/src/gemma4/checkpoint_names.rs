//! Names and shapes of the weights in checkpoints of the unquantized model.

use crate::gemma4::attention::Heads;
use crate::gemma4::block::together;
use crate::gemma4::config::Gemma4TextConfig;
use crate::gemma4::weights::{asked, requests, Request, RequestView};
use crate::tensor::op::{LayerTensor, Leaf, StreamTensor, TopTensor};
use crate::text::{decimal, lemma_numbered_injective, numbered};
use vstd::prelude::*;

verus! {

/// The widths that the shapes of a layer's weights are made of.
#[derive(Clone, Copy, Debug, PartialEq, Eq, Structural)]
pub struct Widths {
    /// Hidden size.
    pub h: usize,
    /// All queries of a position.
    pub q: usize,
    /// All keys of a position.
    pub kv: usize,
    /// One head.
    pub d: usize,
    /// Feed-forward block.
    pub inner: usize,
    /// Low-rank residual.
    pub rank: usize,
    /// Auxiliary embedding.
    pub side: usize,
    /// Gate of the auxiliary embedding.
    pub gate: usize,
    /// Streams.
    pub n: usize,
    /// Pairs of streams.
    pub n2: usize,
}

/// Width of the auxiliary embedding, zero where there is none.
pub open spec fn side_width_of(cfg: &Gemma4TextConfig) -> usize {
    match cfg.hidden_size_per_layer_input {
        Some(w) => w,
        None => 0,
    }
}

/// The widths of layer `i`.
pub open spec fn widths_of(cfg: &Gemma4TextConfig, i: int) -> Widths {
    let a = Heads::spec_of(cfg, i);
    Widths {
        h: cfg.hidden_size,
        q: (a.heads * a.head_dim) as usize,
        kv: (a.kv_heads * a.head_dim) as usize,
        d: a.head_dim,
        inner: cfg.spec_intermediate_size_at(i),
        rank: cfg.laurel_rank,
        side: side_width_of(cfg),
        gate: side_width_of(cfg),
        n: cfg.altup_num_inputs,
        n2: (cfg.altup_num_inputs * cfg.altup_num_inputs) as usize,
    }
}

/// The widths of a layer with the given heads.
pub fn widths(cfg: &Gemma4TextConfig, a: &Heads, i: usize) -> (r: Widths)
    requires
        *a == Heads::spec_of(cfg, i as int),
        a.addressable(),
        cfg.altup_num_inputs * cfg.altup_num_inputs <= usize::MAX,
    ensures
        r == widths_of(cfg, i as int),
{
    let side: usize = match cfg.hidden_size_per_layer_input {
        Some(w) => w,
        None => 0,
    };
    Widths {
        h: cfg.hidden_size,
        q: a.heads * a.head_dim,
        kv: a.kv_heads * a.head_dim,
        d: a.head_dim,
        inner: cfg.intermediate_size_at(i),
        rank: cfg.laurel_rank,
        side,
        gate: side,
        n: cfg.altup_num_inputs,
        n2: cfg.altup_num_inputs * cfg.altup_num_inputs,
    }
}

pub(crate) fn one(a: usize) -> (r: Vec<usize>)
    ensures
        r@ == seq![a],
{
    let mut r: Vec<usize> = Vec::new();
    r.push(a);
    proof {
        assert(r@ =~= seq![a]);
    }
    r
}

pub(crate) fn two(a: usize, b: usize) -> (r: Vec<usize>)
    ensures
        r@ == seq![a, b],
{
    let mut r: Vec<usize> = Vec::new();
    r.push(a);
    r.push(b);
    proof {
        assert(r@ =~= seq![a, b]);
    }
    r
}

/// The name of a layer's weight, behind the layer's number. The layers have no
/// gain there.
pub open spec fn layer_tail_of(t: LayerTensor) -> Seq<char> {
    match t {
        LayerTensor::AttnQ => ".self_attn.q_proj.weight"@,
        LayerTensor::AttnK => ".self_attn.k_proj.weight"@,
        LayerTensor::AttnV => ".self_attn.v_proj.weight"@,
        LayerTensor::AttnOutput => ".self_attn.o_proj.weight"@,
        LayerTensor::AttnQBias => ".self_attn.q_proj.bias"@,
        LayerTensor::AttnKBias => ".self_attn.k_proj.bias"@,
        LayerTensor::AttnVBias => ".self_attn.v_proj.bias"@,
        LayerTensor::AttnOutputBias => ".self_attn.o_proj.bias"@,
        LayerTensor::AttnQNorm => ".self_attn.q_norm.weight"@,
        LayerTensor::AttnKNorm => ".self_attn.k_norm.weight"@,
        LayerTensor::InputNorm => ".input_layernorm.weight"@,
        LayerTensor::PostAttentionNorm => ".post_attention_layernorm.weight"@,
        LayerTensor::PreFeedforwardNorm => ".pre_feedforward_layernorm.weight"@,
        LayerTensor::PostFeedforwardNorm => ".post_feedforward_layernorm.weight"@,
        LayerTensor::FfnGate => ".mlp.gate_proj.weight"@,
        LayerTensor::FfnUp => ".mlp.up_proj.weight"@,
        LayerTensor::FfnDown => ".mlp.down_proj.weight"@,
        LayerTensor::LaurelLeft => ".laurel.linear_left.weight"@,
        LayerTensor::LaurelRight => ".laurel.linear_right.weight"@,
        LayerTensor::PostLaurelNorm => ".laurel.post_laurel_norm.weight"@,
        LayerTensor::LayerScalar => ""@,
        LayerTensor::PerLayerInputGate => ".per_layer_input_gate.weight"@,
        LayerTensor::PerLayerProjection => ".per_layer_projection.weight"@,
        LayerTensor::PostPerLayerInputNorm => ".post_per_layer_input_norm.weight"@,
        LayerTensor::AltupCorrectOutputScale => ".altup.correct_output_scale"@,
        LayerTensor::AltupCorrectionCoefs => ".altup.correction_coefs.weight"@,
        LayerTensor::AltupPredictionCoefs => ".altup.prediction_coefs.weight"@,
        LayerTensor::AltupModalityRouter => ".altup.modality_router.weight"@,
        LayerTensor::AltupRouterNorm => ".altup.router_norm.weight"@,
    }
}

fn layer_tail(t: LayerTensor) -> (r: &'static str)
    ensures
        r@ == layer_tail_of(t),
{
    match t {
        LayerTensor::AttnQ => ".self_attn.q_proj.weight",
        LayerTensor::AttnK => ".self_attn.k_proj.weight",
        LayerTensor::AttnV => ".self_attn.v_proj.weight",
        LayerTensor::AttnOutput => ".self_attn.o_proj.weight",
        LayerTensor::AttnQBias => ".self_attn.q_proj.bias",
        LayerTensor::AttnKBias => ".self_attn.k_proj.bias",
        LayerTensor::AttnVBias => ".self_attn.v_proj.bias",
        LayerTensor::AttnOutputBias => ".self_attn.o_proj.bias",
        LayerTensor::AttnQNorm => ".self_attn.q_norm.weight",
        LayerTensor::AttnKNorm => ".self_attn.k_norm.weight",
        LayerTensor::InputNorm => ".input_layernorm.weight",
        LayerTensor::PostAttentionNorm => ".post_attention_layernorm.weight",
        LayerTensor::PreFeedforwardNorm => ".pre_feedforward_layernorm.weight",
        LayerTensor::PostFeedforwardNorm => ".post_feedforward_layernorm.weight",
        LayerTensor::FfnGate => ".mlp.gate_proj.weight",
        LayerTensor::FfnUp => ".mlp.up_proj.weight",
        LayerTensor::FfnDown => ".mlp.down_proj.weight",
        LayerTensor::LaurelLeft => ".laurel.linear_left.weight",
        LayerTensor::LaurelRight => ".laurel.linear_right.weight",
        LayerTensor::PostLaurelNorm => ".laurel.post_laurel_norm.weight",
        LayerTensor::LayerScalar => "",
        LayerTensor::PerLayerInputGate => ".per_layer_input_gate.weight",
        LayerTensor::PerLayerProjection => ".per_layer_projection.weight",
        LayerTensor::PostPerLayerInputNorm => ".post_per_layer_input_norm.weight",
        LayerTensor::AltupCorrectOutputScale => ".altup.correct_output_scale",
        LayerTensor::AltupCorrectionCoefs => ".altup.correction_coefs.weight",
        LayerTensor::AltupPredictionCoefs => ".altup.prediction_coefs.weight",
        LayerTensor::AltupModalityRouter => ".altup.modality_router.weight",
        LayerTensor::AltupRouterNorm => ".altup.router_norm.weight",
    }
}

/// The shape of a layer's weight.
pub open spec fn layer_shape_of(s: Widths, t: LayerTensor) -> Seq<usize> {
    match t {
        LayerTensor::AttnQ => seq![s.q, s.h],
        LayerTensor::AttnK
        | LayerTensor::AttnV => seq![s.kv, s.h],
        LayerTensor::AttnOutput => seq![s.h, s.q],
        LayerTensor::AttnQBias => seq![s.q],
        LayerTensor::AttnKBias
        | LayerTensor::AttnVBias => seq![s.kv],
        LayerTensor::AttnOutputBias
        | LayerTensor::InputNorm
        | LayerTensor::PostAttentionNorm
        | LayerTensor::PreFeedforwardNorm
        | LayerTensor::PostFeedforwardNorm
        | LayerTensor::PostLaurelNorm
        | LayerTensor::PostPerLayerInputNorm
        | LayerTensor::AltupCorrectOutputScale
        | LayerTensor::AltupRouterNorm => seq![s.h],
        LayerTensor::AttnQNorm
        | LayerTensor::AttnKNorm => seq![s.d],
        LayerTensor::FfnGate
        | LayerTensor::FfnUp => seq![s.inner, s.h],
        LayerTensor::FfnDown => seq![s.h, s.inner],
        LayerTensor::LaurelLeft => seq![s.rank, s.h],
        LayerTensor::LaurelRight => seq![s.h, s.rank],
        LayerTensor::LayerScalar => seq![1usize],
        LayerTensor::PerLayerInputGate => seq![s.gate, s.h],
        LayerTensor::PerLayerProjection => seq![s.h, together(s.gate, s.side)],
        LayerTensor::AltupCorrectionCoefs => seq![s.n, s.n],
        LayerTensor::AltupPredictionCoefs => seq![s.n2, s.n],
        LayerTensor::AltupModalityRouter => seq![s.n, s.h],
    }
}

pub(crate) fn layer_shape(s: &Widths, t: LayerTensor) -> (r: Vec<usize>)
    ensures
        r@ == layer_shape_of(*s, t),
{
    match t {
        LayerTensor::AttnQ => two(s.q, s.h),
        LayerTensor::AttnK
        | LayerTensor::AttnV => two(s.kv, s.h),
        LayerTensor::AttnOutput => two(s.h, s.q),
        LayerTensor::AttnQBias => one(s.q),
        LayerTensor::AttnKBias
        | LayerTensor::AttnVBias => one(s.kv),
        LayerTensor::AttnOutputBias
        | LayerTensor::InputNorm
        | LayerTensor::PostAttentionNorm
        | LayerTensor::PreFeedforwardNorm
        | LayerTensor::PostFeedforwardNorm
        | LayerTensor::PostLaurelNorm
        | LayerTensor::PostPerLayerInputNorm
        | LayerTensor::AltupCorrectOutputScale
        | LayerTensor::AltupRouterNorm => one(s.h),
        LayerTensor::AttnQNorm
        | LayerTensor::AttnKNorm => one(s.d),
        LayerTensor::FfnGate
        | LayerTensor::FfnUp => two(s.inner, s.h),
        LayerTensor::FfnDown => two(s.h, s.inner),
        LayerTensor::LaurelLeft => two(s.rank, s.h),
        LayerTensor::LaurelRight => two(s.h, s.rank),
        LayerTensor::LayerScalar => one(1),
        LayerTensor::PerLayerInputGate => two(s.gate, s.h),
        LayerTensor::PerLayerProjection => two(
            s.h,
            if s.gate == 1 {
                s.side
            } else {
                s.gate
            },
        ),
        LayerTensor::AltupCorrectionCoefs => two(s.n, s.n),
        LayerTensor::AltupPredictionCoefs => two(s.n2, s.n),
        LayerTensor::AltupModalityRouter => two(s.n, s.h),
    }
}

/// The request for a weight of layer `i`.
pub open spec fn layer_request_of(s: Widths, i: usize, t: LayerTensor) -> RequestView {
    RequestView {
        leaf: Leaf::Layer(i, t),
        name: "model.layers."@ + decimal(i as nat) + layer_tail_of(t),
        fallback: None,
        dims: Some(layer_shape_of(s, t)),
    }
}

/// The requests for weights of layer `i`.
pub open spec fn layer_requests_of(s: Widths, i: usize, ts: Seq<LayerTensor>) -> Seq<RequestView> {
    ts.map_values(|t: LayerTensor| layer_request_of(s, i, t))
}

/// The request for a weight of a layer.
pub fn layer_request(s: &Widths, i: usize, t: LayerTensor) -> (r: Request)
    ensures
        r@ == layer_request_of(*s, i, t),
{
    Request {
        leaf: Leaf::Layer(i, t),
        name: numbered("model.layers.", i, layer_tail(t)),
        fallback: None,
        dims: Some(layer_shape(s, t)),
    }
}

/// The requests for weights of a layer.
pub fn layer_requests(s: &Widths, i: usize, ts: &Vec<LayerTensor>) -> (r: Vec<Request>)
    ensures
        requests(r@) == layer_requests_of(*s, i, ts@),
{
    let mut out: Vec<Request> = Vec::new();
    let n: usize = ts.len();
    let mut j: usize = 0;
    while j < n
        invariant
            n == ts@.len(),
            0 <= j <= n,
            requests(out@) == layer_requests_of(*s, i, ts@.take(j as int)),
        decreases n - j,
    {
        let ghost done = out@;
        out.push(layer_request(s, i, ts[j]));
        proof {
            assert(requests(out@) =~= requests(done).push(
                layer_request_of(*s, i, ts@[j as int]),
            ));
            assert(requests(out@) =~= layer_requests_of(*s, i, ts@.take(j + 1)));
        }
        j = j + 1;
    }
    proof {
        assert(ts@.take(n as int) =~= ts@);
    }
    out
}

/// Whether there is such a weight.
pub open spec fn is_named(t: LayerTensor) -> bool {
    match t {
        LayerTensor::LayerScalar => false,
        _ => true,
    }
}

proof fn lemma_tails_differ(t: LayerTensor, u: LayerTensor)
    requires
        is_named(t),
        is_named(u),
    ensures
        layer_tail_of(t).len() > 0 && layer_tail_of(t)[0] == '.',
        layer_tail_of(t) == layer_tail_of(u) ==> t == u,
{
    reveal_strlit(".self_attn.q_proj.weight");
    reveal_strlit(".self_attn.k_proj.weight");
    reveal_strlit(".self_attn.v_proj.weight");
    reveal_strlit(".self_attn.o_proj.weight");
    reveal_strlit(".self_attn.q_proj.bias");
    reveal_strlit(".self_attn.k_proj.bias");
    reveal_strlit(".self_attn.v_proj.bias");
    reveal_strlit(".self_attn.o_proj.bias");
    reveal_strlit(".self_attn.q_norm.weight");
    reveal_strlit(".self_attn.k_norm.weight");
    reveal_strlit(".input_layernorm.weight");
    reveal_strlit(".post_attention_layernorm.weight");
    reveal_strlit(".pre_feedforward_layernorm.weight");
    reveal_strlit(".post_feedforward_layernorm.weight");
    reveal_strlit(".mlp.gate_proj.weight");
    reveal_strlit(".mlp.up_proj.weight");
    reveal_strlit(".mlp.down_proj.weight");
    reveal_strlit(".laurel.linear_left.weight");
    reveal_strlit(".laurel.linear_right.weight");
    reveal_strlit(".laurel.post_laurel_norm.weight");
    reveal_strlit(".per_layer_input_gate.weight");
    reveal_strlit(".per_layer_projection.weight");
    reveal_strlit(".post_per_layer_input_norm.weight");
    reveal_strlit(".altup.correct_output_scale");
    reveal_strlit(".altup.correction_coefs.weight");
    reveal_strlit(".altup.prediction_coefs.weight");
    reveal_strlit(".altup.modality_router.weight");
    reveal_strlit(".altup.router_norm.weight");
    let (x, y) = (layer_tail_of(t), layer_tail_of(u));
    if x == y {
    assert(x.len() > 5 ==> x[5] == y[5]);
        assert(x.len() > 11 ==> x[11] == y[11]);
        assert(x.len() > 13 ==> x[13] == y[13]);
    }
}

/// No two weights of the layers have the same name.
pub proof fn law_layer_names_differ(
    r: Widths,
    i: usize,
    t: LayerTensor,
    s: Widths,
    j: usize,
    u: LayerTensor,
)
    requires
        is_named(t),
        is_named(u),
        layer_request_of(r, i, t).name == layer_request_of(s, j, u).name,
    ensures
        i == j,
        t == u,
{
    lemma_tails_differ(t, u);
    lemma_tails_differ(u, t);
    lemma_numbered_injective(
        "model.layers."@,
        i as nat,
        layer_tail_of(t),
        j as nat,
        layer_tail_of(u),
    );
}

/// The name of a weight that the model has once.
pub open spec fn top_name_of(t: TopTensor) -> Seq<char> {
    match t {
        TopTensor::TokenEmbedding => "model.embed_tokens.weight"@,
        TopTensor::OutputNorm => "model.norm.weight"@,
        TopTensor::Output => "lm_head.weight"@,
        TopTensor::PerLayerTokenEmbedding => "model.embed_tokens_per_layer.weight"@,
        TopTensor::PerLayerModelProjection => "model.per_layer_model_projection.weight"@,
        TopTensor::PerLayerProjectionNorm => "model.per_layer_projection_norm.weight"@,
    }
}

/// The name of a weight that the model has once.
pub fn top_name(t: TopTensor) -> (r: &'static str)
    ensures
        r@ == top_name_of(t),
{
    match t {
        TopTensor::TokenEmbedding => "model.embed_tokens.weight",
        TopTensor::OutputNorm => "model.norm.weight",
        TopTensor::Output => "lm_head.weight",
        TopTensor::PerLayerTokenEmbedding => "model.embed_tokens_per_layer.weight",
        TopTensor::PerLayerModelProjection => "model.per_layer_model_projection.weight",
        TopTensor::PerLayerProjectionNorm => "model.per_layer_projection_norm.weight",
    }
}

/// The request for a weight that the model has once; it is a vector where
/// `rows` is none.
pub open spec fn top_request_of(t: TopTensor, rows: Option<usize>, cols: usize) -> RequestView {
    RequestView {
        leaf: Leaf::Top(t),
        name: top_name_of(t),
        fallback: None,
        dims: Some(
            match rows {
                Some(n) => seq![n, cols],
                None => seq![cols],
            },
        ),
    }
}

/// The request for a weight that the model has once.
pub fn top_request(t: TopTensor, rows: Option<usize>, cols: usize) -> (r: Request)
    ensures
        r@ == top_request_of(t, rows, cols),
{
    let dims: Vec<usize> = match rows {
        Some(n) => two(n, cols),
        None => one(cols),
    };
    Request {
        leaf: Leaf::Top(t),
        name: top_name(t).to_owned(),
        fallback: None,
        dims: Some(dims),
    }
}

/// The request for a projection of the parallel streams.
pub open spec fn stream_request_of(h: usize, i: usize, t: StreamTensor) -> RequestView {
    RequestView {
        leaf: Leaf::Stream(i, t),
        name: match t {
            StreamTensor::Projection => "model.altup_projections."@ + decimal(i as nat)
                + ".weight"@,
            StreamTensor::UnembedProjection => "model.altup_unembed_projections."@ + decimal(
                i as nat,
            ) + ".weight"@,
        },
        fallback: None,
        dims: Some(seq![h, h]),
    }
}

/// The request for a projection of the parallel streams.
pub fn stream_request(h: usize, i: usize, t: StreamTensor) -> (r: Request)
    ensures
        r@ == stream_request_of(h, i, t),
{
    let name: String = match t {
        StreamTensor::Projection => numbered("model.altup_projections.", i, ".weight"),
        StreamTensor::UnembedProjection => numbered(
            "model.altup_unembed_projections.",
            i,
            ".weight",
        ),
    };
    Request { leaf: Leaf::Stream(i, t), name, fallback: None, dims: Some(two(h, h)) }
}

/// The requests for all projections of the parallel streams, `n` each way.
pub open spec fn stream_requests_of(h: usize, n: nat) -> Seq<RequestView>
    decreases n,
{
    if n == 0 {
        Seq::empty()
    } else {
        stream_requests_of(h, (n - 1) as nat).push(
            stream_request_of(h, (n - 1) as usize, StreamTensor::Projection),
        ).push(stream_request_of(h, (n - 1) as usize, StreamTensor::UnembedProjection))
    }
}

/// The requests for all projections of the parallel streams.
pub fn stream_requests(h: usize, n: usize) -> (r: Vec<Request>)
    ensures
        requests(r@) == stream_requests_of(h, n as nat),
{
    let mut out: Vec<Request> = Vec::new();
    let mut i: usize = 0;
    proof {
        assert(requests(out@) =~= stream_requests_of(h, 0));
    }
    while i < n
        invariant
            0 <= i <= n,
            requests(out@) == stream_requests_of(h, i as nat),
        decreases n - i,
    {
        out.push(stream_request(h, i, StreamTensor::Projection));
        out.push(stream_request(h, i, StreamTensor::UnembedProjection));
        proof {
            assert(requests(out@) =~= stream_requests_of(h, (i + 1) as nat));
        }
        i = i + 1;
    }
    out
}

/// The weights of a layer that are listed are asked for.
pub proof fn lemma_asks_layer(s: Widths, i: usize, ts: Seq<LayerTensor>, k: int)
    requires
        0 <= k < ts.len(),
    ensures
        asked(layer_requests_of(s, i, ts), Leaf::Layer(i, ts[k])),
{
    assert(layer_requests_of(s, i, ts)[k].leaf == Leaf::Layer(i, ts[k]));
}

/// All projections of the parallel streams are asked for.
pub proof fn lemma_asks_stream(h: usize, n: nat, k: usize, t: StreamTensor)
    requires
        k < n <= usize::MAX,
    ensures
        asked(stream_requests_of(h, n), Leaf::Stream(k, t)),
    decreases n,
{
    let rs = stream_requests_of(h, n);
    let before = stream_requests_of(h, (n - 1) as nat);
    if k == n - 1 {
        let at = match t {
            StreamTensor::Projection => before.len() as int,
            StreamTensor::UnembedProjection => before.len() as int + 1,
        };
        assert(rs[at].leaf == Leaf::Stream(k, t));
    } else {
        lemma_asks_stream(h, (n - 1) as nat, k, t);
        let i = choose|i: int| 0 <= i < before.len() && (#[trigger] before[i]).leaf == Leaf::Stream(
            k,
            t,
        );
        assert(rs[i] == before[i]);
    }
}

} // verus!
