//! What the configuration makes of each layer.

use crate::gemma4::attention::{DecodePath, Heads};
use crate::gemma4::checkpoint_names::{layer_shape_of, widths_of};
use crate::gemma4::config::{F64Bits, Gemma4TextConfig};
use crate::gemma4::pass::CacheStep;
use crate::gemma4::quantized::{self, cap_of, threshold_of, LayerCache};
use crate::gemma4::quantized_e2b;
use crate::gemma4::text;
use crate::gemma4::weights::TensorInfoView;
use crate::tensor::op::LayerTensor;
use vstd::prelude::*;

verus! {

/// The configuration calls the layer a sliding one.
pub open spec fn is_called_sliding(cfg: &Gemma4TextConfig, i: int) -> bool {
    0 <= i < cfg.layer_types@.len() && cfg.layer_types@[i]@ == "sliding_attention"@
}

/// The heads of a layer: sliding layers have a width of their own; other
/// layers may have a number of keys of their own. Each key is shared by as
/// many queries as there are for one.
pub proof fn law_heads(cfg: &Gemma4TextConfig, i: usize)
    requires
        Heads::spec_of(cfg, i as int).kv_heads > 0,
    ensures
        ({
            let a = Heads::spec_of(cfg, i as int);
            &&& a.layer == i
            &&& a.heads == cfg.num_attention_heads
            &&& a.sliding <==> is_called_sliding(cfg, i as int)
            &&& a.sliding ==> a.head_dim == cfg.head_dim && a.kv_heads == cfg.num_key_value_heads
            &&& !a.sliding ==> a.head_dim == cfg.global_head_dim
            &&& !a.sliding && cfg.num_global_key_value_heads is None ==> a.kv_heads
                == cfg.num_key_value_heads
            &&& !a.sliding ==> (cfg.num_global_key_value_heads matches Some(n) ==> a.kv_heads == n)
            &&& a.kv_heads * a.groups <= a.heads < a.kv_heads * (a.groups + 1)
        }),
{
    let a = Heads::spec_of(cfg, i as int);
    let (h, k) = (a.heads as int, a.kv_heads as int);
    assert(k * (h / k) <= h < k * (h / k + 1)) by (nonlinear_arith)
        requires
            k > 0,
            h >= 0,
    ;
    assert(h / k <= h) by (nonlinear_arith)
        requires
            k > 0,
            h >= 0,
    ;
}

/// The window of the sliding layers: as the configuration says, or, where
/// attention looks both ways, what is left of it to one side, and the position
/// itself.
pub proof fn law_window(cfg: &Gemma4TextConfig)
    ensures
        ({
            let both = cfg.use_bidirectional_attention matches Some(s) && s@ == "all"@;
            let n = cfg.spec_effective_sliding_window();
            &&& !both ==> n == cfg.sliding_window
            &&& both ==> n >= 1 && 2 * (n - 1) <= cfg.sliding_window < 2 * n
        }),
{
}

/// The layers of the unquantized model, as they are loaded: scores are divided
/// by the root of the configuration's number, on every layer; the cache of a
/// sliding layer keeps its window.
pub proof fn law_text_layers(
    cfg: &Gemma4TextConfig,
    dir: Seq<TensorInfoView>,
    z: F64Bits,
    i: usize,
)
    ensures
        ({
            let l = text::decoder_of(cfg, dir, z, i);
            &&& l.attention.heads == Heads::spec_of(cfg, i as int)
            &&& l.attention.query_pre_attn_scalar == cfg.query_pre_attn_scalar
            &&& l.attention.bias == cfg.attention_bias
            &&& l.attention.use_flash_attn == cfg.use_flash_attn
            &&& l.body.layer == i
            &&& l.body.inner == cfg.spec_intermediate_size_at(i as int)
            &&& l.body.side == cfg.hidden_size_per_layer_input
            &&& l.body.gain is None
            &&& l.body.laurel matches Some(r) ==> r == cfg.laurel_rank && r > 0
            &&& is_called_sliding(cfg, i as int) <==> text::cache_of(cfg, i as int) is Rotating
        }),
{
}

/// The layers of the quantized model, as they are loaded: a single query sees,
/// on a sliding layer, as many positions as the window has, and on another
/// layer all of them; the cache of a sliding layer keeps as many.
pub proof fn law_quantized_layers(
    cfg: &Gemma4TextConfig,
    dir: Seq<TensorInfoView>,
    donor: Option<usize>,
    z: F64Bits,
    i: usize,
)
    requires
        cfg.spec_effective_sliding_window() <= u32::MAX,
    ensures
        ({
            let l = quantized::decoder_of(cfg, dir, donor, z, i);
            let n = cfg.spec_effective_sliding_window();
            &&& l.attention.heads == Heads::spec_of(cfg, i as int)
            &&& l.attention.has_value
            &&& l.donor == donor
            &&& l.body.layer == i
            &&& l.attention.decode matches DecodePath::Fused { window } && match window {
                Some(k) => is_called_sliding(cfg, i as int) && k == n,
                None => !is_called_sliding(cfg, i as int),
            }
            &&& match quantized::cache_of(cfg, i as int) {
                LayerCache::Rotating { window } => is_called_sliding(cfg, i as int) && window == n,
                LayerCache::Growing { initial } => !is_called_sliding(cfg, i as int) && initial
                    <= cfg.max_position_embeddings && initial <= 4096,
            }
        }),
{
}

/// The layers of the small quantized model, as they are loaded: the cache of a
/// sliding layer keeps as many positions as the window has, that of another
/// layer all; only layers that are not sliding may have a gain.
pub proof fn law_e2b_layers(
    cfg: &Gemma4TextConfig,
    dir: Seq<TensorInfoView>,
    donor: Option<usize>,
    i: usize,
)
    requires
        cfg.spec_effective_sliding_window() <= usize::MAX,
    ensures
        ({
            let l = quantized_e2b::decoder_of(cfg, dir, donor, i);
            let n = cfg.spec_effective_sliding_window();
            &&& l.attention.heads == Heads::spec_of(cfg, i as int)
            &&& l.attention.decode is Plain
            &&& l.donor == donor
            &&& l.body.layer == i
            &&& l.body.laurel is None && l.body.z is None
            &&& is_called_sliding(cfg, i as int) ==> l.body.gain is None
            &&& match quantized_e2b::window_of(cfg, i as int) {
                Some(k) => is_called_sliding(cfg, i as int) && k == n,
                None => !is_called_sliding(cfg, i as int),
            }
        }),
{
}

/// The base of the sliding layers' rotations and the share of other layers'
/// heads that is rotated are what the rotary parameters say of layers of that
/// kind; else ten thousand, and a quarter.
pub proof fn law_rotary_parameters(cfg: &Gemma4TextConfig, f: F64Bits)
    ensures
        ({
            let (base, share) = (
                cfg.spec_rope_local_base_freq(),
                cfg.spec_partial_rotary_factor(),
            );
            &&& cfg.rope_parameters is None ==> base.bits == 0x40c3_8800_0000_0000 && share.bits
                == 0x3fd0_0000_0000_0000
            &&& cfg.rope_parameters matches Some(rp) ==> {
                &&& rp.sliding_attention matches Some(s) ==> (s.rope_theta == Some(f) ==> base == f)
                &&& rp.full_attention matches Some(s) ==> (s.partial_rotary_factor == Some(f)
                    ==> share == f)
                &&& rp.sliding_attention is None ==> base.bits == 0x40c3_8800_0000_0000
                &&& rp.full_attention is None ==> share.bits == 0x3fd0_0000_0000_0000
            }
        }),
{
}

/// What the blocks of a pass have in common, in all three models: the
/// configuration's small number and non-linearity. The unquantized model's
/// learned scales are offsets to one, the quantized models' are the scales.
pub proof fn law_styles(
    t: &text::TextModel,
    w: text::StepShape,
    m: &quantized::ModelWeights,
    e: &quantized_e2b::ModelWeights,
    batch: usize,
    len: usize,
)
    ensures
        ({
            let c = t.spec_style(w);
            &&& c.norm is Offset && c.dtype == t.dtype && c.batch == w.batch && c.len == w.len
            &&& c.hidden == t.cfg.hidden_size && c.nominal == t.cfg.hidden_size
            &&& c.eps == t.cfg.rms_norm_eps && c.act == t.cfg.hidden_activation
        }),
        ({
            let c = m.spec_style(batch, len);
            &&& c.norm is Fused && c.dtype is F32 && c.batch == batch && c.len == len
            &&& c.nominal == m.cfg.hidden_size
            &&& c.eps == m.cfg.rms_norm_eps && c.act == m.cfg.hidden_activation
        }),
        ({
            let c = e.spec_style(batch, len);
            &&& c.norm is Fused && c.dtype is F32 && c.batch == batch && c.len == len
            &&& c.nominal == e.cfg.hidden_size
            &&& c.eps == e.cfg.rms_norm_eps && c.act == e.cfg.hidden_activation
        }),
{
}

/// A pass goes through all layers of its model in order, at the positions of
/// its step.
pub proof fn law_passes(
    t: &text::TextModel,
    w: text::StepShape,
    kv_lens: Seq<usize>,
    m: &quantized::ModelWeights,
    e: &quantized_e2b::ModelWeights,
    batch: usize,
    len: usize,
    offset: usize,
    caches: Seq<CacheStep>,
)
    ensures
        ({
            let v = t.pass_of(w, kv_lens, None);
            &&& v.layers == t.layers@ && v.offset == w.offset && v.c == t.spec_style(w)
            &&& v.max == t.cfg.max_position_embeddings && v.streams == t.streams
            &&& v.side is None
        }),
        ({
            let v = m.pass_of(batch, len, offset, caches);
            &&& v.layers == m.layers@ && v.offset == offset && v.c == m.spec_style(batch, len)
            &&& v.max == m.cfg.max_position_embeddings && v.streams == m.streams
            &&& v.caches == caches
        }),
        ({
            let v = e.pass_of(batch, len, offset);
            &&& v.layers == e.layers@ && v.offset == offset && v.c == e.spec_style(batch, len)
            &&& v.max == e.cfg.max_position_embeddings && v.streams is None
        }),
{
}

/// The shapes that a checkpoint's weights must have: one row for each number
/// that comes out, one column for each that goes in.
pub proof fn law_checkpoint_shapes(cfg: &Gemma4TextConfig, i: usize)
    requires
        Heads::spec_of(cfg, i as int).addressable(),
        cfg.altup_num_inputs * cfg.altup_num_inputs <= usize::MAX,
    ensures
        ({
            let a = Heads::spec_of(cfg, i as int);
            let s = widths_of(cfg, i as int);
            let (h, inner) = (cfg.hidden_size, cfg.spec_intermediate_size_at(i as int));
            let (q, kv) = ((a.heads * a.head_dim) as usize, (a.kv_heads * a.head_dim) as usize);
            let n = cfg.altup_num_inputs;
            &&& layer_shape_of(s, LayerTensor::AttnQ) == seq![q, h]
            &&& layer_shape_of(s, LayerTensor::AttnK) == seq![kv, h]
            &&& layer_shape_of(s, LayerTensor::AttnV) == seq![kv, h]
            &&& layer_shape_of(s, LayerTensor::AttnOutput) == seq![h, q]
            &&& layer_shape_of(s, LayerTensor::AttnQBias) == seq![q]
            &&& layer_shape_of(s, LayerTensor::AttnKBias) == seq![kv]
            &&& layer_shape_of(s, LayerTensor::AttnVBias) == seq![kv]
            &&& layer_shape_of(s, LayerTensor::AttnOutputBias) == seq![h]
            &&& layer_shape_of(s, LayerTensor::AttnQNorm) == seq![a.head_dim]
            &&& layer_shape_of(s, LayerTensor::AttnKNorm) == seq![a.head_dim]
            &&& layer_shape_of(s, LayerTensor::FfnGate) == seq![inner, h]
            &&& layer_shape_of(s, LayerTensor::FfnUp) == seq![inner, h]
            &&& layer_shape_of(s, LayerTensor::FfnDown) == seq![h, inner]
            &&& layer_shape_of(s, LayerTensor::InputNorm) == seq![h]
            &&& layer_shape_of(s, LayerTensor::PostAttentionNorm) == seq![h]
            &&& layer_shape_of(s, LayerTensor::PreFeedforwardNorm) == seq![h]
            &&& layer_shape_of(s, LayerTensor::PostFeedforwardNorm) == seq![h]
            &&& layer_shape_of(s, LayerTensor::LaurelLeft) == seq![cfg.laurel_rank, h]
            &&& layer_shape_of(s, LayerTensor::LaurelRight) == seq![h, cfg.laurel_rank]
            &&& layer_shape_of(s, LayerTensor::AltupModalityRouter) == seq![n, h]
            &&& layer_shape_of(s, LayerTensor::AltupCorrectionCoefs) == seq![n, n]
            &&& layer_shape_of(s, LayerTensor::AltupPredictionCoefs) == seq![(n * n) as usize, n]
            &&& cfg.hidden_size_per_layer_input matches Some(w) ==> layer_shape_of(
                s,
                LayerTensor::PerLayerInputGate,
            ) == seq![w, h] && layer_shape_of(s, LayerTensor::PerLayerProjection) == seq![h, w]
        }),
{
}

/// Gate values have a threshold where their share lies between zero and one,
/// neither of them included.
pub proof fn law_threshold(share: F64Bits, z: F64Bits)
    ensures
        threshold_of(share, z) == (if share.bits == 0 || share.bits >= 0x3ff0_0000_0000_0000 {
            None::<F64Bits>
        } else {
            Some(z)
        }),
{
}

/// Logits of the quantized models are capped where the configuration has a cap
/// that is above zero: neither zero, nor a number with a sign, nor none at all.
pub proof fn law_cap(cfg: &Gemma4TextConfig, v: F64Bits)
    requires
        cfg.final_logit_softcapping == Some(v),
    ensures
        v.bits == 0 || v.bits > 0x7ff0_0000_0000_0000 ==> cap_of(cfg) is None,
        0 < v.bits <= 0x7ff0_0000_0000_0000 ==> cap_of(cfg) == Some(v),
{
}

} // verus!
