//! Names of the weights in GGUF files.

use crate::gemma4::weights::{asked, requests, Request, RequestView};
use crate::tensor::op::{LayerTensor, Leaf, StreamTensor, TopTensor};
use crate::text::{decimal, lemma_numbered_injective, numbered};
use vstd::prelude::*;

verus! {

/// The name of a layer's weight, behind the layer's number. The projections
/// have no bias there.
pub open spec fn layer_tail_of(t: LayerTensor) -> Seq<char> {
    match t {
        LayerTensor::AttnQ => ".attn_q.weight"@,
        LayerTensor::AttnK => ".attn_k.weight"@,
        LayerTensor::AttnV => ".attn_v.weight"@,
        LayerTensor::AttnOutput => ".attn_output.weight"@,
        LayerTensor::AttnQBias
        | LayerTensor::AttnKBias
        | LayerTensor::AttnVBias
        | LayerTensor::AttnOutputBias => ""@,
        LayerTensor::AttnQNorm => ".attn_q_norm.weight"@,
        LayerTensor::AttnKNorm => ".attn_k_norm.weight"@,
        LayerTensor::InputNorm => ".attn_norm.weight"@,
        LayerTensor::PostAttentionNorm => ".post_attention_norm.weight"@,
        LayerTensor::PreFeedforwardNorm => ".ffn_norm.weight"@,
        LayerTensor::PostFeedforwardNorm => ".post_ffw_norm.weight"@,
        LayerTensor::FfnGate => ".ffn_gate.weight"@,
        LayerTensor::FfnUp => ".ffn_up.weight"@,
        LayerTensor::FfnDown => ".ffn_down.weight"@,
        LayerTensor::LaurelLeft => ".laurel_l.weight"@,
        LayerTensor::LaurelRight => ".laurel_r.weight"@,
        LayerTensor::PostLaurelNorm => ".post_laurel_norm.weight"@,
        LayerTensor::LayerScalar => ".layer_output_scale.weight"@,
        LayerTensor::PerLayerInputGate => ".inp_gate.weight"@,
        LayerTensor::PerLayerProjection => ".proj.weight"@,
        LayerTensor::PostPerLayerInputNorm => ".post_norm.weight"@,
        LayerTensor::AltupCorrectOutputScale => ".altup_correct_output_scale"@,
        LayerTensor::AltupCorrectionCoefs => ".altup_correction_coefs.weight"@,
        LayerTensor::AltupPredictionCoefs => ".altup_prediction_coefs.weight"@,
        LayerTensor::AltupModalityRouter => ".altup_modality_router.weight"@,
        LayerTensor::AltupRouterNorm => ".altup_router_norm.weight"@,
    }
}

fn layer_tail(t: LayerTensor) -> (r: &'static str)
    ensures
        r@ == layer_tail_of(t),
{
    match t {
        LayerTensor::AttnQ => ".attn_q.weight",
        LayerTensor::AttnK => ".attn_k.weight",
        LayerTensor::AttnV => ".attn_v.weight",
        LayerTensor::AttnOutput => ".attn_output.weight",
        LayerTensor::AttnQBias
        | LayerTensor::AttnKBias
        | LayerTensor::AttnVBias
        | LayerTensor::AttnOutputBias => "",
        LayerTensor::AttnQNorm => ".attn_q_norm.weight",
        LayerTensor::AttnKNorm => ".attn_k_norm.weight",
        LayerTensor::InputNorm => ".attn_norm.weight",
        LayerTensor::PostAttentionNorm => ".post_attention_norm.weight",
        LayerTensor::PreFeedforwardNorm => ".ffn_norm.weight",
        LayerTensor::PostFeedforwardNorm => ".post_ffw_norm.weight",
        LayerTensor::FfnGate => ".ffn_gate.weight",
        LayerTensor::FfnUp => ".ffn_up.weight",
        LayerTensor::FfnDown => ".ffn_down.weight",
        LayerTensor::LaurelLeft => ".laurel_l.weight",
        LayerTensor::LaurelRight => ".laurel_r.weight",
        LayerTensor::PostLaurelNorm => ".post_laurel_norm.weight",
        LayerTensor::LayerScalar => ".layer_output_scale.weight",
        LayerTensor::PerLayerInputGate => ".inp_gate.weight",
        LayerTensor::PerLayerProjection => ".proj.weight",
        LayerTensor::PostPerLayerInputNorm => ".post_norm.weight",
        LayerTensor::AltupCorrectOutputScale => ".altup_correct_output_scale",
        LayerTensor::AltupCorrectionCoefs => ".altup_correction_coefs.weight",
        LayerTensor::AltupPredictionCoefs => ".altup_prediction_coefs.weight",
        LayerTensor::AltupModalityRouter => ".altup_modality_router.weight",
        LayerTensor::AltupRouterNorm => ".altup_router_norm.weight",
    }
}

/// The name that older files have for a layer's weight, where it differs.
pub open spec fn layer_legacy_of(t: LayerTensor) -> Option<Seq<char>> {
    match t {
        LayerTensor::LayerScalar => Some(".layer_scalar"@),
        LayerTensor::PerLayerInputGate => Some(".per_layer_inp_gate.weight"@),
        LayerTensor::PerLayerProjection => Some(".per_layer_proj.weight"@),
        LayerTensor::PostPerLayerInputNorm => Some(".post_per_layer_input_norm.weight"@),
        _ => None,
    }
}

fn layer_legacy(t: LayerTensor) -> (r: Option<&'static str>)
    ensures
        match r {
            Some(s) => layer_legacy_of(t) == Some(s@),
            None => layer_legacy_of(t) is None,
        },
{
    match t {
        LayerTensor::LayerScalar => Some(".layer_scalar"),
        LayerTensor::PerLayerInputGate => Some(".per_layer_inp_gate.weight"),
        LayerTensor::PerLayerProjection => Some(".per_layer_proj.weight"),
        LayerTensor::PostPerLayerInputNorm => Some(".post_per_layer_input_norm.weight"),
        _ => None,
    }
}

/// The request for a weight of layer `i`.
pub open spec fn layer_request_of(i: usize, t: LayerTensor) -> RequestView {
    RequestView {
        leaf: Leaf::Layer(i, t),
        name: "blk."@ + decimal(i as nat) + layer_tail_of(t),
        fallback: match layer_legacy_of(t) {
            Some(f) => Some("blk."@ + decimal(i as nat) + f),
            None => None,
        },
        dims: None,
    }
}

/// The requests for weights of layer `i`.
pub open spec fn layer_requests_of(i: usize, ts: Seq<LayerTensor>) -> Seq<RequestView> {
    ts.map_values(|t: LayerTensor| layer_request_of(i, t))
}

/// The request for a weight of a layer.
pub fn layer_request(i: usize, t: LayerTensor) -> (r: Request)
    ensures
        r@ == layer_request_of(i, t),
{
    let fallback: Option<String> = match layer_legacy(t) {
        Some(f) => Some(numbered("blk.", i, f)),
        None => None,
    };
    Request {
        leaf: Leaf::Layer(i, t),
        name: numbered("blk.", i, layer_tail(t)),
        fallback,
        dims: None,
    }
}

/// The requests for weights of a layer.
pub fn layer_requests(i: usize, ts: &Vec<LayerTensor>) -> (r: Vec<Request>)
    ensures
        requests(r@) == layer_requests_of(i, ts@),
{
    let mut out: Vec<Request> = Vec::new();
    let n: usize = ts.len();
    let mut j: usize = 0;
    while j < n
        invariant
            n == ts@.len(),
            0 <= j <= n,
            requests(out@) == layer_requests_of(i, ts@.take(j as int)),
        decreases n - j,
    {
        let ghost done = out@;
        out.push(layer_request(i, ts[j]));
        proof {
            assert(requests(out@) =~= requests(done).push(
                layer_request_of(i, ts@[j as int]),
            ));
            assert(requests(out@) =~= layer_requests_of(i, ts@.take(j + 1)));
        }
        j = j + 1;
    }
    proof {
        assert(ts@.take(n as int) =~= ts@);
    }
    out
}

/// Whether there is such a weight.
pub open spec fn is_named(t: LayerTensor) -> bool {
    match t {
        LayerTensor::AttnQBias
        | LayerTensor::AttnKBias
        | LayerTensor::AttnVBias
        | LayerTensor::AttnOutputBias => false,
        _ => true,
    }
}

proof fn lemma_tails_differ(t: LayerTensor, u: LayerTensor)
    requires
        is_named(t),
        is_named(u),
    ensures
        layer_tail_of(t).len() > 0 && layer_tail_of(t)[0] == '.',
        layer_tail_of(t) == layer_tail_of(u) ==> t == u,
{
    reveal_strlit(".attn_q.weight");
    reveal_strlit(".attn_k.weight");
    reveal_strlit(".attn_v.weight");
    reveal_strlit(".attn_output.weight");
    reveal_strlit(".attn_q_norm.weight");
    reveal_strlit(".attn_k_norm.weight");
    reveal_strlit(".attn_norm.weight");
    reveal_strlit(".post_attention_norm.weight");
    reveal_strlit(".ffn_norm.weight");
    reveal_strlit(".post_ffw_norm.weight");
    reveal_strlit(".ffn_gate.weight");
    reveal_strlit(".ffn_up.weight");
    reveal_strlit(".ffn_down.weight");
    reveal_strlit(".laurel_l.weight");
    reveal_strlit(".laurel_r.weight");
    reveal_strlit(".post_laurel_norm.weight");
    reveal_strlit(".layer_output_scale.weight");
    reveal_strlit(".inp_gate.weight");
    reveal_strlit(".proj.weight");
    reveal_strlit(".post_norm.weight");
    reveal_strlit(".altup_correct_output_scale");
    reveal_strlit(".altup_correction_coefs.weight");
    reveal_strlit(".altup_prediction_coefs.weight");
    reveal_strlit(".altup_modality_router.weight");
    reveal_strlit(".altup_router_norm.weight");
    let (x, y) = (layer_tail_of(t), layer_tail_of(u));
    if x == y {
    assert(x.len() > 1 ==> x[1] == y[1]);
        assert(x.len() > 6 ==> x[6] == y[6]);
        assert(x.len() > 8 ==> x[8] == y[8]);
    }
}

/// No two weights of the layers have the same name.
pub proof fn law_layer_names_differ(i: usize, t: LayerTensor, j: usize, u: LayerTensor)
    requires
        is_named(t),
        is_named(u),
        layer_request_of(i, t).name == layer_request_of(j, u).name,
    ensures
        i == j,
        t == u,
{
    lemma_tails_differ(t, u);
    lemma_tails_differ(u, t);
    lemma_numbered_injective(
        "blk."@,
        i as nat,
        layer_tail_of(t),
        j as nat,
        layer_tail_of(u),
    );
}

/// The request for a weight that the model has once. The output projection
/// may be the token embedding.
pub open spec fn top_request_of(t: TopTensor) -> RequestView {
    RequestView {
        leaf: Leaf::Top(t),
        name: match t {
            TopTensor::TokenEmbedding => "token_embd.weight"@,
            TopTensor::OutputNorm => "output_norm.weight"@,
            TopTensor::Output => "output.weight"@,
            TopTensor::PerLayerTokenEmbedding => "per_layer_token_embd.weight"@,
            TopTensor::PerLayerModelProjection => "per_layer_model_proj.weight"@,
            TopTensor::PerLayerProjectionNorm => "per_layer_proj_norm.weight"@,
        },
        fallback: match t {
            TopTensor::TokenEmbedding | TopTensor::OutputNorm => None,
            TopTensor::Output => Some("token_embd.weight"@),
            TopTensor::PerLayerTokenEmbedding => Some("embed_tokens_per_layer.weight"@),
            TopTensor::PerLayerModelProjection => Some("per_layer_model_projection.weight"@),
            TopTensor::PerLayerProjectionNorm => Some("per_layer_projection_norm.weight"@),
        },
        dims: None,
    }
}

/// The request for a weight that the model has once.
pub fn top_request(t: TopTensor) -> (r: Request)
    ensures
        r@ == top_request_of(t),
{
    let name: &str = match t {
        TopTensor::TokenEmbedding => "token_embd.weight",
        TopTensor::OutputNorm => "output_norm.weight",
        TopTensor::Output => "output.weight",
        TopTensor::PerLayerTokenEmbedding => "per_layer_token_embd.weight",
        TopTensor::PerLayerModelProjection => "per_layer_model_proj.weight",
        TopTensor::PerLayerProjectionNorm => "per_layer_proj_norm.weight",
    };
    let fallback: Option<String> = match t {
        TopTensor::TokenEmbedding | TopTensor::OutputNorm => None,
        TopTensor::Output => Some("token_embd.weight".to_owned()),
        TopTensor::PerLayerTokenEmbedding => Some("embed_tokens_per_layer.weight".to_owned()),
        TopTensor::PerLayerModelProjection => Some("per_layer_model_projection.weight".to_owned()),
        TopTensor::PerLayerProjectionNorm => Some("per_layer_projection_norm.weight".to_owned()),
    };
    Request { leaf: Leaf::Top(t), name: name.to_owned(), fallback, dims: None }
}

/// The request for a projection of the parallel streams.
pub open spec fn stream_request_of(i: usize, t: StreamTensor) -> RequestView {
    RequestView {
        leaf: Leaf::Stream(i, t),
        name: match t {
            StreamTensor::Projection => "altup_proj."@ + decimal(i as nat) + ".weight"@,
            StreamTensor::UnembedProjection => "altup_unembd_proj."@ + decimal(i as nat)
                + ".weight"@,
        },
        fallback: None,
        dims: None,
    }
}

/// The request for a projection of the parallel streams.
pub fn stream_request(i: usize, t: StreamTensor) -> (r: Request)
    ensures
        r@ == stream_request_of(i, t),
{
    let name: String = match t {
        StreamTensor::Projection => numbered("altup_proj.", i, ".weight"),
        StreamTensor::UnembedProjection => numbered("altup_unembd_proj.", i, ".weight"),
    };
    Request { leaf: Leaf::Stream(i, t), name, fallback: None, dims: None }
}

/// The requests for all projections of the parallel streams, `n` each way.
pub open spec fn stream_requests_of(n: nat) -> Seq<RequestView>
    decreases n,
{
    if n == 0 {
        Seq::empty()
    } else {
        stream_requests_of((n - 1) as nat).push(
            stream_request_of((n - 1) as usize, StreamTensor::Projection),
        ).push(stream_request_of((n - 1) as usize, StreamTensor::UnembedProjection))
    }
}

/// The requests for all projections of the parallel streams.
pub fn stream_requests(n: usize) -> (r: Vec<Request>)
    ensures
        requests(r@) == stream_requests_of(n as nat),
{
    let mut out: Vec<Request> = Vec::new();
    let mut i: usize = 0;
    proof {
        assert(requests(out@) =~= stream_requests_of(0));
    }
    while i < n
        invariant
            0 <= i <= n,
            requests(out@) == stream_requests_of(i as nat),
        decreases n - i,
    {
        out.push(stream_request(i, StreamTensor::Projection));
        out.push(stream_request(i, StreamTensor::UnembedProjection));
        proof {
            assert(requests(out@) =~= stream_requests_of((i + 1) as nat));
        }
        i = i + 1;
    }
    out
}

/// The weights of a layer that are listed are asked for.
pub proof fn lemma_asks_layer(i: usize, ts: Seq<LayerTensor>, k: int)
    requires
        0 <= k < ts.len(),
    ensures
        asked(layer_requests_of(i, ts), Leaf::Layer(i, ts[k])),
{
    assert(layer_requests_of(i, ts)[k].leaf == Leaf::Layer(i, ts[k]));
}

/// All projections of the parallel streams are asked for.
pub proof fn lemma_asks_stream(n: nat, k: usize, t: StreamTensor)
    requires
        k < n <= usize::MAX,
    ensures
        asked(stream_requests_of(n), Leaf::Stream(k, t)),
    decreases n,
{
    let rs = stream_requests_of(n);
    let before = stream_requests_of((n - 1) as nat);
    if k == n - 1 {
        let at = match t {
            StreamTensor::Projection => before.len() as int,
            StreamTensor::UnembedProjection => before.len() as int + 1,
        };
        assert(rs[at].leaf == Leaf::Stream(k, t));
    } else {
        lemma_asks_stream((n - 1) as nat, k, t);
        let i = choose|i: int| 0 <= i < before.len() && (#[trigger] before[i]).leaf == Leaf::Stream(
            k,
            t,
        );
        assert(rs[i] == before[i]);
    }
}

} // verus!
