//! Which tensors of a file the weights of a model are, by the text of their
//! names.

use crate::gemma4::checkpoint_names as checkpoint;
use crate::gemma4::checkpoint_names::Widths;
use crate::gemma4::gguf_names as gguf;
use crate::gemma4::weights::{chosen, law_find, RequestView, TensorInfoView};
use crate::tensor::op::{LayerTensor, Leaf, StreamTensor, TopTensor};
use crate::text::decimal;
use vstd::prelude::*;

verus! {

/// The request is for the weight, and is met by the file's first tensor of the
/// given name; where the file has none of that name, and the weight has another
/// name, by the first tensor of that.
pub open spec fn is_met_by(
    r: RequestView,
    leaf: Leaf,
    name: Seq<char>,
    other: Option<Seq<char>>,
    dir: Seq<TensorInfoView>,
) -> bool {
    &&& r.leaf == leaf
    &&& match chosen(dir, r) {
        Some(k) => {
            &&& 0 <= k < dir.len()
            &&& dir[k].name == name || (other == Some(dir[k].name) && forall|j: int|
                0 <= j < dir.len() ==> (#[trigger] dir[j]).name != name)
            &&& forall|j: int| 0 <= j < k ==> (#[trigger] dir[j]).name != dir[k].name
        },
        None => forall|j: int|
            0 <= j < dir.len() ==> (#[trigger] dir[j]).name != name && other != Some(dir[j].name),
    }
}

proof fn lemma_met(r: RequestView, dir: Seq<TensorInfoView>)
    ensures
        is_met_by(r, r.leaf, r.name, r.fallback, dir),
{
    law_find(dir, r.name);
    if let Some(f) = r.fallback {
        law_find(dir, f);
    }
}

/// The weights of a layer in a GGUF file, by their names.
pub proof fn law_gguf_layer_names(dir: Seq<TensorInfoView>, i: usize)
    ensures
        ({
            let at = |t: LayerTensor, tail: Seq<char>|
                is_met_by(
                    gguf::layer_request_of(i, t),
                    Leaf::Layer(i, t),
                    "blk."@ + decimal(i as nat) + tail,
                    None,
                    dir,
                );
            let or = |t: LayerTensor, tail: Seq<char>, other: Seq<char>|
                is_met_by(
                    gguf::layer_request_of(i, t),
                    Leaf::Layer(i, t),
                    "blk."@ + decimal(i as nat) + tail,
                    Some("blk."@ + decimal(i as nat) + other),
                    dir,
                );
            &&& at(LayerTensor::AttnQ, ".attn_q.weight"@)
            &&& at(LayerTensor::AttnK, ".attn_k.weight"@)
            &&& at(LayerTensor::AttnV, ".attn_v.weight"@)
            &&& at(LayerTensor::AttnOutput, ".attn_output.weight"@)
            &&& at(LayerTensor::AttnQNorm, ".attn_q_norm.weight"@)
            &&& at(LayerTensor::AttnKNorm, ".attn_k_norm.weight"@)
            &&& at(LayerTensor::InputNorm, ".attn_norm.weight"@)
            &&& at(LayerTensor::PostAttentionNorm, ".post_attention_norm.weight"@)
            &&& at(LayerTensor::PreFeedforwardNorm, ".ffn_norm.weight"@)
            &&& at(LayerTensor::PostFeedforwardNorm, ".post_ffw_norm.weight"@)
            &&& at(LayerTensor::FfnGate, ".ffn_gate.weight"@)
            &&& at(LayerTensor::FfnUp, ".ffn_up.weight"@)
            &&& at(LayerTensor::FfnDown, ".ffn_down.weight"@)
            &&& at(LayerTensor::LaurelLeft, ".laurel_l.weight"@)
            &&& at(LayerTensor::LaurelRight, ".laurel_r.weight"@)
            &&& at(LayerTensor::PostLaurelNorm, ".post_laurel_norm.weight"@)
            &&& or(LayerTensor::LayerScalar, ".layer_output_scale.weight"@, ".layer_scalar"@)
            &&& or(LayerTensor::PerLayerInputGate, ".inp_gate.weight"@, ".per_layer_inp_gate.weight"@)
            &&& or(LayerTensor::PerLayerProjection, ".proj.weight"@, ".per_layer_proj.weight"@)
            &&& or(LayerTensor::PostPerLayerInputNorm, ".post_norm.weight"@, ".post_per_layer_input_norm.weight"@)
            &&& at(LayerTensor::AltupCorrectOutputScale, ".altup_correct_output_scale"@)
            &&& at(LayerTensor::AltupCorrectionCoefs, ".altup_correction_coefs.weight"@)
            &&& at(LayerTensor::AltupPredictionCoefs, ".altup_prediction_coefs.weight"@)
            &&& at(LayerTensor::AltupModalityRouter, ".altup_modality_router.weight"@)
            &&& at(LayerTensor::AltupRouterNorm, ".altup_router_norm.weight"@)
        }),
{
    lemma_met(gguf::layer_request_of(i, LayerTensor::AttnQ), dir);
    lemma_met(gguf::layer_request_of(i, LayerTensor::AttnK), dir);
    lemma_met(gguf::layer_request_of(i, LayerTensor::AttnV), dir);
    lemma_met(gguf::layer_request_of(i, LayerTensor::AttnOutput), dir);
    lemma_met(gguf::layer_request_of(i, LayerTensor::AttnQNorm), dir);
    lemma_met(gguf::layer_request_of(i, LayerTensor::AttnKNorm), dir);
    lemma_met(gguf::layer_request_of(i, LayerTensor::InputNorm), dir);
    lemma_met(gguf::layer_request_of(i, LayerTensor::PostAttentionNorm), dir);
    lemma_met(gguf::layer_request_of(i, LayerTensor::PreFeedforwardNorm), dir);
    lemma_met(gguf::layer_request_of(i, LayerTensor::PostFeedforwardNorm), dir);
    lemma_met(gguf::layer_request_of(i, LayerTensor::FfnGate), dir);
    lemma_met(gguf::layer_request_of(i, LayerTensor::FfnUp), dir);
    lemma_met(gguf::layer_request_of(i, LayerTensor::FfnDown), dir);
    lemma_met(gguf::layer_request_of(i, LayerTensor::LaurelLeft), dir);
    lemma_met(gguf::layer_request_of(i, LayerTensor::LaurelRight), dir);
    lemma_met(gguf::layer_request_of(i, LayerTensor::PostLaurelNorm), dir);
    lemma_met(gguf::layer_request_of(i, LayerTensor::LayerScalar), dir);
    lemma_met(gguf::layer_request_of(i, LayerTensor::PerLayerInputGate), dir);
    lemma_met(gguf::layer_request_of(i, LayerTensor::PerLayerProjection), dir);
    lemma_met(gguf::layer_request_of(i, LayerTensor::PostPerLayerInputNorm), dir);
    lemma_met(gguf::layer_request_of(i, LayerTensor::AltupCorrectOutputScale), dir);
    lemma_met(gguf::layer_request_of(i, LayerTensor::AltupCorrectionCoefs), dir);
    lemma_met(gguf::layer_request_of(i, LayerTensor::AltupPredictionCoefs), dir);
    lemma_met(gguf::layer_request_of(i, LayerTensor::AltupModalityRouter), dir);
    lemma_met(gguf::layer_request_of(i, LayerTensor::AltupRouterNorm), dir);
}

/// The weights that a model has once in a GGUF file, by their names. The output
/// projection may be the token embeddings' table.
pub proof fn law_gguf_names(dir: Seq<TensorInfoView>, i: usize)
    ensures
        ({
            let met = |t: TopTensor, name: Seq<char>, other: Option<Seq<char>>|
                is_met_by(gguf::top_request_of(t), Leaf::Top(t), name, other, dir);
            &&& met(TopTensor::TokenEmbedding, "token_embd.weight"@, None)
            &&& met(TopTensor::OutputNorm, "output_norm.weight"@, None)
            &&& met(TopTensor::Output, "output.weight"@, Some("token_embd.weight"@))
            &&& met(
                TopTensor::PerLayerTokenEmbedding,
                "per_layer_token_embd.weight"@,
                Some("embed_tokens_per_layer.weight"@),
            )
            &&& met(
                TopTensor::PerLayerModelProjection,
                "per_layer_model_proj.weight"@,
                Some("per_layer_model_projection.weight"@),
            )
            &&& met(
                TopTensor::PerLayerProjectionNorm,
                "per_layer_proj_norm.weight"@,
                Some("per_layer_projection_norm.weight"@),
            )
            &&& is_met_by(
                gguf::stream_request_of(i, StreamTensor::Projection),
                Leaf::Stream(i, StreamTensor::Projection),
                "altup_proj."@ + decimal(i as nat) + ".weight"@,
                None,
                dir,
            )
            &&& is_met_by(
                gguf::stream_request_of(i, StreamTensor::UnembedProjection),
                Leaf::Stream(i, StreamTensor::UnembedProjection),
                "altup_unembd_proj."@ + decimal(i as nat) + ".weight"@,
                None,
                dir,
            )
        }),
{
    lemma_met(gguf::top_request_of(TopTensor::TokenEmbedding), dir);
    lemma_met(gguf::top_request_of(TopTensor::OutputNorm), dir);
    lemma_met(gguf::top_request_of(TopTensor::Output), dir);
    lemma_met(gguf::top_request_of(TopTensor::PerLayerTokenEmbedding), dir);
    lemma_met(gguf::top_request_of(TopTensor::PerLayerModelProjection), dir);
    lemma_met(gguf::top_request_of(TopTensor::PerLayerProjectionNorm), dir);
    lemma_met(gguf::stream_request_of(i, StreamTensor::Projection), dir);
    lemma_met(gguf::stream_request_of(i, StreamTensor::UnembedProjection), dir);
}

/// The weights of a layer in a checkpoint, by their names.
pub proof fn law_checkpoint_layer_names(dir: Seq<TensorInfoView>, s: Widths, i: usize)
    ensures
        ({
            let at = |t: LayerTensor, tail: Seq<char>|
                is_met_by(
                    checkpoint::layer_request_of(s, i, t),
                    Leaf::Layer(i, t),
                    "model.layers."@ + decimal(i as nat) + tail,
                    None,
                    dir,
                );
            &&& at(LayerTensor::AttnQ, ".self_attn.q_proj.weight"@)
            &&& at(LayerTensor::AttnK, ".self_attn.k_proj.weight"@)
            &&& at(LayerTensor::AttnV, ".self_attn.v_proj.weight"@)
            &&& at(LayerTensor::AttnOutput, ".self_attn.o_proj.weight"@)
            &&& at(LayerTensor::AttnQBias, ".self_attn.q_proj.bias"@)
            &&& at(LayerTensor::AttnKBias, ".self_attn.k_proj.bias"@)
            &&& at(LayerTensor::AttnVBias, ".self_attn.v_proj.bias"@)
            &&& at(LayerTensor::AttnOutputBias, ".self_attn.o_proj.bias"@)
            &&& at(LayerTensor::AttnQNorm, ".self_attn.q_norm.weight"@)
            &&& at(LayerTensor::AttnKNorm, ".self_attn.k_norm.weight"@)
            &&& at(LayerTensor::InputNorm, ".input_layernorm.weight"@)
            &&& at(LayerTensor::PostAttentionNorm, ".post_attention_layernorm.weight"@)
            &&& at(LayerTensor::PreFeedforwardNorm, ".pre_feedforward_layernorm.weight"@)
            &&& at(LayerTensor::PostFeedforwardNorm, ".post_feedforward_layernorm.weight"@)
            &&& at(LayerTensor::FfnGate, ".mlp.gate_proj.weight"@)
            &&& at(LayerTensor::FfnUp, ".mlp.up_proj.weight"@)
            &&& at(LayerTensor::FfnDown, ".mlp.down_proj.weight"@)
            &&& at(LayerTensor::LaurelLeft, ".laurel.linear_left.weight"@)
            &&& at(LayerTensor::LaurelRight, ".laurel.linear_right.weight"@)
            &&& at(LayerTensor::PostLaurelNorm, ".laurel.post_laurel_norm.weight"@)
            &&& at(LayerTensor::PerLayerInputGate, ".per_layer_input_gate.weight"@)
            &&& at(LayerTensor::PerLayerProjection, ".per_layer_projection.weight"@)
            &&& at(LayerTensor::PostPerLayerInputNorm, ".post_per_layer_input_norm.weight"@)
            &&& at(LayerTensor::AltupCorrectOutputScale, ".altup.correct_output_scale"@)
            &&& at(LayerTensor::AltupCorrectionCoefs, ".altup.correction_coefs.weight"@)
            &&& at(LayerTensor::AltupPredictionCoefs, ".altup.prediction_coefs.weight"@)
            &&& at(LayerTensor::AltupModalityRouter, ".altup.modality_router.weight"@)
            &&& at(LayerTensor::AltupRouterNorm, ".altup.router_norm.weight"@)
        }),
{
    lemma_met(checkpoint::layer_request_of(s, i, LayerTensor::AttnQ), dir);
    lemma_met(checkpoint::layer_request_of(s, i, LayerTensor::AttnK), dir);
    lemma_met(checkpoint::layer_request_of(s, i, LayerTensor::AttnV), dir);
    lemma_met(checkpoint::layer_request_of(s, i, LayerTensor::AttnOutput), dir);
    lemma_met(checkpoint::layer_request_of(s, i, LayerTensor::AttnQBias), dir);
    lemma_met(checkpoint::layer_request_of(s, i, LayerTensor::AttnKBias), dir);
    lemma_met(checkpoint::layer_request_of(s, i, LayerTensor::AttnVBias), dir);
    lemma_met(checkpoint::layer_request_of(s, i, LayerTensor::AttnOutputBias), dir);
    lemma_met(checkpoint::layer_request_of(s, i, LayerTensor::AttnQNorm), dir);
    lemma_met(checkpoint::layer_request_of(s, i, LayerTensor::AttnKNorm), dir);
    lemma_met(checkpoint::layer_request_of(s, i, LayerTensor::InputNorm), dir);
    lemma_met(checkpoint::layer_request_of(s, i, LayerTensor::PostAttentionNorm), dir);
    lemma_met(checkpoint::layer_request_of(s, i, LayerTensor::PreFeedforwardNorm), dir);
    lemma_met(checkpoint::layer_request_of(s, i, LayerTensor::PostFeedforwardNorm), dir);
    lemma_met(checkpoint::layer_request_of(s, i, LayerTensor::FfnGate), dir);
    lemma_met(checkpoint::layer_request_of(s, i, LayerTensor::FfnUp), dir);
    lemma_met(checkpoint::layer_request_of(s, i, LayerTensor::FfnDown), dir);
    lemma_met(checkpoint::layer_request_of(s, i, LayerTensor::LaurelLeft), dir);
    lemma_met(checkpoint::layer_request_of(s, i, LayerTensor::LaurelRight), dir);
    lemma_met(checkpoint::layer_request_of(s, i, LayerTensor::PostLaurelNorm), dir);
    lemma_met(checkpoint::layer_request_of(s, i, LayerTensor::PerLayerInputGate), dir);
    lemma_met(checkpoint::layer_request_of(s, i, LayerTensor::PerLayerProjection), dir);
    lemma_met(checkpoint::layer_request_of(s, i, LayerTensor::PostPerLayerInputNorm), dir);
    lemma_met(checkpoint::layer_request_of(s, i, LayerTensor::AltupCorrectOutputScale), dir);
    lemma_met(checkpoint::layer_request_of(s, i, LayerTensor::AltupCorrectionCoefs), dir);
    lemma_met(checkpoint::layer_request_of(s, i, LayerTensor::AltupPredictionCoefs), dir);
    lemma_met(checkpoint::layer_request_of(s, i, LayerTensor::AltupModalityRouter), dir);
    lemma_met(checkpoint::layer_request_of(s, i, LayerTensor::AltupRouterNorm), dir);
}

/// The weights that a model has once in a checkpoint, by their names.
pub proof fn law_checkpoint_names(
    dir: Seq<TensorInfoView>,
    rows: Option<usize>,
    cols: usize,
    i: usize,
)
    ensures
        ({
            let met = |t: TopTensor, name: Seq<char>|
                is_met_by(
                    checkpoint::top_request_of(t, rows, cols),
                    Leaf::Top(t),
                    name,
                    None,
                    dir,
                );
            &&& met(TopTensor::TokenEmbedding, "model.embed_tokens.weight"@)
            &&& met(TopTensor::OutputNorm, "model.norm.weight"@)
            &&& met(TopTensor::Output, "lm_head.weight"@)
            &&& met(TopTensor::PerLayerTokenEmbedding, "model.embed_tokens_per_layer.weight"@)
            &&& met(TopTensor::PerLayerModelProjection, "model.per_layer_model_projection.weight"@)
            &&& met(TopTensor::PerLayerProjectionNorm, "model.per_layer_projection_norm.weight"@)
            &&& is_met_by(
                checkpoint::stream_request_of(cols, i, StreamTensor::Projection),
                Leaf::Stream(i, StreamTensor::Projection),
                "model.altup_projections."@ + decimal(i as nat) + ".weight"@,
                None,
                dir,
            )
            &&& is_met_by(
                checkpoint::stream_request_of(cols, i, StreamTensor::UnembedProjection),
                Leaf::Stream(i, StreamTensor::UnembedProjection),
                "model.altup_unembed_projections."@ + decimal(i as nat) + ".weight"@,
                None,
                dir,
            )
        }),
{
    lemma_met(checkpoint::top_request_of(TopTensor::TokenEmbedding, rows, cols), dir);
    lemma_met(checkpoint::top_request_of(TopTensor::OutputNorm, rows, cols), dir);
    lemma_met(checkpoint::top_request_of(TopTensor::Output, rows, cols), dir);
    lemma_met(checkpoint::top_request_of(TopTensor::PerLayerTokenEmbedding, rows, cols), dir);
    lemma_met(checkpoint::top_request_of(TopTensor::PerLayerModelProjection, rows, cols), dir);
    lemma_met(checkpoint::top_request_of(TopTensor::PerLayerProjectionNorm, rows, cols), dir);
    lemma_met(checkpoint::stream_request_of(cols, i, StreamTensor::Projection), dir);
    lemma_met(checkpoint::stream_request_of(cols, i, StreamTensor::UnembedProjection), dir);
}

} // verus!
