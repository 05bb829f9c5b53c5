//! Configuration of the Gemma 4 models.
//!
//! Numbers that the models use in floating point are held by the bit patterns
//! of 64-bit floats.

use crate::text::str_eq;
use vstd::prelude::*;

verus! {

/// A 64-bit float, by its bit pattern.
#[derive(Clone, Copy, Debug, PartialEq, Eq, Structural)]
pub struct F64Bits {
    pub bits: u64,
}

/// Non-linearity between the linear layers.
#[derive(Clone, Copy, Debug, PartialEq, Eq, Structural)]
pub enum Activation {
    Gelu,
    GeluPytorchTanh,
    NewGelu,
    Relu,
    Silu,
}

/// Default of `attention_bias` in the text model's configuration.
pub fn default_attention_bias() -> (r: bool)
    ensures
        r == false,
{
    false
}

/// Default of `head_dim` in the text model's configuration.
pub fn default_head_dim() -> (r: usize)
    ensures
        r == 256,
{
    256
}

/// Default of `hidden_activation` in the text model's configuration.
pub fn default_hidden_activation() -> (r: Activation)
    ensures
        r == Activation::GeluPytorchTanh,
{
    Activation::GeluPytorchTanh
}

/// Default of `num_attention_heads` in the text model's configuration.
pub fn default_num_attention_heads() -> (r: usize)
    ensures
        r == 8,
{
    8
}

/// Default of `num_key_value_heads` in the text model's configuration.
pub fn default_num_key_value_heads() -> (r: usize)
    ensures
        r == 4,
{
    4
}

/// Default of `rms_norm_eps` in the text model's configuration (1e-06).
pub fn default_rms_norm_eps() -> (r: F64Bits)
    ensures
        r == (F64Bits { bits: 0x3eb0_c6f7_a0b5_ed8d }),
{
    F64Bits { bits: 0x3eb0_c6f7_a0b5_ed8d }
}

/// Default of `rope_theta` in the text model's configuration (1e+06).
pub fn default_rope_theta() -> (r: F64Bits)
    ensures
        r == (F64Bits { bits: 0x412e_8480_0000_0000 }),
{
    F64Bits { bits: 0x412e_8480_0000_0000 }
}

/// Default of `vocab_size` in the text model's configuration.
pub fn default_vocab_size() -> (r: usize)
    ensures
        r == 262144,
{
    262144
}

/// Default of `query_pre_attn_scalar` in the text model's configuration.
pub fn default_query_pre_attn_scalar() -> (r: usize)
    ensures
        r == 256,
{
    256
}

/// Default of `max_position_embeddings` in the text model's configuration.
pub fn default_max_position_embeddings() -> (r: usize)
    ensures
        r == 131072,
{
    131072
}

/// Default of `tie_word_embeddings` in the text model's configuration.
pub fn default_tie_word_embeddings() -> (r: bool)
    ensures
        r == true,
{
    true
}

/// Default of `sliding_window_pattern` in the text model's configuration.
pub fn default_sliding_window_pattern() -> (r: usize)
    ensures
        r == 6,
{
    6
}

/// Default of `global_head_dim` in the text model's configuration.
pub fn default_global_head_dim() -> (r: usize)
    ensures
        r == 512,
{
    512
}

/// Default of `use_flash_attn` in the text model's configuration.
pub fn default_use_flash_attn() -> (r: bool)
    ensures
        r == false,
{
    false
}

/// Default of `altup_num_inputs` in the text model's configuration.
pub fn default_altup_num_inputs() -> (r: usize)
    ensures
        r == 4,
{
    4
}

/// Default of `altup_active_idx` in the text model's configuration.
pub fn default_altup_active_idx() -> (r: usize)
    ensures
        r == 0,
{
    0
}

/// Default of `altup_correct_scale` in the text model's configuration.
pub fn default_altup_correct_scale() -> (r: bool)
    ensures
        r == true,
{
    true
}

/// Default of `altup_coef_clip` in the text model's configuration (120).
pub fn default_altup_coef_clip() -> (r: Option<F64Bits>)
    ensures
        r == Some(F64Bits { bits: 0x405e_0000_0000_0000 }),
{
    Some(F64Bits { bits: 0x405e_0000_0000_0000 })
}

/// Default of `laurel_rank` in the text model's configuration.
pub fn default_laurel_rank() -> (r: usize)
    ensures
        r == 64,
{
    64
}

/// Default of `vision_hidden_size` in the vision model's configuration.
pub fn default_vision_hidden_size() -> (r: usize)
    ensures
        r == 768,
{
    768
}

/// Default of `vision_intermediate_size` in the vision model's configuration.
pub fn default_vision_intermediate_size() -> (r: usize)
    ensures
        r == 3072,
{
    3072
}

/// Default of `vision_num_hidden_layers` in the vision model's configuration.
pub fn default_vision_num_hidden_layers() -> (r: usize)
    ensures
        r == 16,
{
    16
}

/// Default of `vision_num_attention_heads` in the vision model's configuration.
pub fn default_vision_num_attention_heads() -> (r: usize)
    ensures
        r == 12,
{
    12
}

/// Default of `vision_num_key_value_heads` in the vision model's configuration.
pub fn default_vision_num_key_value_heads() -> (r: usize)
    ensures
        r == 12,
{
    12
}

/// Default of `vision_head_dim` in the vision model's configuration.
pub fn default_vision_head_dim() -> (r: usize)
    ensures
        r == 64,
{
    64
}

/// Default of `vision_hidden_activation` in the vision model's configuration.
pub fn default_vision_hidden_activation() -> (r: Activation)
    ensures
        r == Activation::GeluPytorchTanh,
{
    Activation::GeluPytorchTanh
}

/// Default of `vision_rms_norm_eps` in the vision model's configuration (1e-06).
pub fn default_vision_rms_norm_eps() -> (r: F64Bits)
    ensures
        r == (F64Bits { bits: 0x3eb0_c6f7_a0b5_ed8d }),
{
    F64Bits { bits: 0x3eb0_c6f7_a0b5_ed8d }
}

/// Default of `vision_patch_size` in the vision model's configuration.
pub fn default_vision_patch_size() -> (r: usize)
    ensures
        r == 16,
{
    16
}

/// Default of `vision_position_embedding_size` in the vision model's configuration.
pub fn default_vision_position_embedding_size() -> (r: usize)
    ensures
        r == 10240,
{
    10240
}

/// Default of `vision_pooling_kernel_size` in the vision model's configuration.
pub fn default_vision_pooling_kernel_size() -> (r: usize)
    ensures
        r == 3,
{
    3
}

/// Default of `vision_default_output_length` in the vision model's configuration.
pub fn default_vision_default_output_length() -> (r: usize)
    ensures
        r == 280,
{
    280
}

/// Default of `vision_standardize` in the vision model's configuration.
pub fn default_vision_standardize() -> (r: bool)
    ensures
        r == false,
{
    false
}

/// Default of `audio_input_feat_size` in the audio model's configuration.
pub fn default_audio_input_feat_size() -> (r: usize)
    ensures
        r == 128,
{
    128
}

/// Default of `audio_hidden_size` in the audio model's configuration.
pub fn default_audio_hidden_size() -> (r: usize)
    ensures
        r == 1024,
{
    1024
}

/// Default of `conf_attention_chunk_size` in the audio model's configuration.
pub fn default_conf_attention_chunk_size() -> (r: usize)
    ensures
        r == 12,
{
    12
}

/// Default of `conf_attention_context_left` in the audio model's configuration.
pub fn default_conf_attention_context_left() -> (r: usize)
    ensures
        r == 13,
{
    13
}

/// Default of `conf_attention_context_right` in the audio model's configuration.
pub fn default_conf_attention_context_right() -> (r: usize)
    ensures
        r == 0,
{
    0
}

/// Default of `conf_attention_invalid_logits_value` in the audio model's configuration (-1e+09).
pub fn default_conf_attention_invalid_logits_value() -> (r: F64Bits)
    ensures
        r == (F64Bits { bits: 0xc1cd_cd65_0000_0000 }),
{
    F64Bits { bits: 0xc1cd_cd65_0000_0000 }
}

/// Default of `conf_attention_logit_cap` in the audio model's configuration (50).
pub fn default_conf_attention_logit_cap() -> (r: F64Bits)
    ensures
        r == (F64Bits { bits: 0x4049_0000_0000_0000 }),
{
    F64Bits { bits: 0x4049_0000_0000_0000 }
}

/// Default of `conf_num_attention_heads` in the audio model's configuration.
pub fn default_conf_num_attention_heads() -> (r: usize)
    ensures
        r == 8,
{
    8
}

/// Default of `conf_num_hidden_layers` in the audio model's configuration.
pub fn default_conf_num_hidden_layers() -> (r: usize)
    ensures
        r == 12,
{
    12
}

/// Default of `conf_conv_kernel_size` in the audio model's configuration.
pub fn default_conf_conv_kernel_size() -> (r: usize)
    ensures
        r == 5,
{
    5
}

/// Default of `conf_reduction_factor` in the audio model's configuration.
pub fn default_conf_reduction_factor() -> (r: usize)
    ensures
        r == 1,
{
    1
}

/// Default of `conf_residual_weight` in the audio model's configuration (0.5).
pub fn default_conf_residual_weight() -> (r: F64Bits)
    ensures
        r == (F64Bits { bits: 0x3fe0_0000_0000_0000 }),
{
    F64Bits { bits: 0x3fe0_0000_0000_0000 }
}

/// Default of `audio_vocab_size` in the audio model's configuration.
pub fn default_audio_vocab_size() -> (r: usize)
    ensures
        r == 128,
{
    128
}

/// Default of `sscp_conv_group_norm_eps` in the audio model's configuration (1e-06).
pub fn default_sscp_conv_group_norm_eps() -> (r: F64Bits)
    ensures
        r == (F64Bits { bits: 0x3eb0_c6f7_a0b5_ed8d }),
{
    F64Bits { bits: 0x3eb0_c6f7_a0b5_ed8d }
}

/// Default of `sscp_conv_eps` in the audio model's configuration (0.001).
pub fn default_sscp_conv_eps() -> (r: F64Bits)
    ensures
        r == (F64Bits { bits: 0x3f50_624d_d2f1_a9fc }),
{
    F64Bits { bits: 0x3f50_624d_d2f1_a9fc }
}

/// Default of `audio_rms_norm_eps` in the audio model's configuration (1e-06).
pub fn default_audio_rms_norm_eps() -> (r: F64Bits)
    ensures
        r == (F64Bits { bits: 0x3eb0_c6f7_a0b5_ed8d }),
{
    F64Bits { bits: 0x3eb0_c6f7_a0b5_ed8d }
}

/// Default of `gradient_clipping` in the audio model's configuration (1e+10).
pub fn default_gradient_clipping() -> (r: F64Bits)
    ensures
        r == (F64Bits { bits: 0x4202_a05f_2000_0000 }),
{
    F64Bits { bits: 0x4202_a05f_2000_0000 }
}

/// Default of `output_proj_dims` in the audio model's configuration.
pub fn default_output_proj_dims() -> (r: Option<usize>)
    ensures
        r == Some(1536usize),
{
    Some(1536)
}

/// Default of `image_token_id` in the whole model's configuration.
pub fn default_image_token_id() -> (r: usize)
    ensures
        r == 258880,
{
    258880
}

/// Default of `audio_token_id` in the whole model's configuration.
pub fn default_audio_token_id() -> (r: usize)
    ensures
        r == 258881,
{
    258881
}

/// Default of `video_token_id` in the whole model's configuration.
pub fn default_video_token_id() -> (r: usize)
    ensures
        r == 258884,
{
    258884
}

/// Default of `sscp_conv_channel_size` in the audio model's configuration.
pub fn default_sscp_conv_channel_size() -> (r: Vec<usize>)
    ensures
        r@ == seq![128usize, 32usize],
{
    let mut r: Vec<usize> = Vec::new();
    r.push(128);
    r.push(32);
    proof {
        assert(r@ =~= seq![128usize, 32usize]);
    }
    r
}

/// Two pairs of the same number.
fn two_pairs(n: usize) -> (r: Vec<Vec<usize>>)
    ensures
        r@.len() == 2,
        r@[0]@ == seq![n, n],
        r@[1]@ == seq![n, n],
{
    let mut a: Vec<usize> = Vec::new();
    a.push(n);
    a.push(n);
    let mut b: Vec<usize> = Vec::new();
    b.push(n);
    b.push(n);
    proof {
        assert(a@ =~= seq![n, n]);
        assert(b@ =~= seq![n, n]);
    }
    let mut r: Vec<Vec<usize>> = Vec::new();
    r.push(a);
    r.push(b);
    r
}

/// Default of `sscp_conv_kernel_size` in the audio model's configuration.
pub fn default_sscp_conv_kernel_size() -> (r: Vec<Vec<usize>>)
    ensures
        r@.len() == 2,
        r@[0]@ == seq![3usize, 3usize],
        r@[1]@ == seq![3usize, 3usize],
{
    two_pairs(3)
}

/// Default of `sscp_conv_stride_size` in the audio model's configuration.
pub fn default_sscp_conv_stride_size() -> (r: Vec<Vec<usize>>)
    ensures
        r@.len() == 2,
        r@[0]@ == seq![2usize, 2usize],
        r@[1]@ == seq![2usize, 2usize],
{
    two_pairs(2)
}

/// Rotary parameters of one kind of layer.
#[derive(Clone, Debug)]
pub struct Gemma4RopeLayerParams {
    pub rope_theta: Option<F64Bits>,
    pub rope_type: Option<String>,
    pub partial_rotary_factor: Option<F64Bits>,
}

/// Rotary parameters of a model.
#[derive(Clone, Debug)]
pub struct Gemma4RopeParameters {
    pub full_attention: Option<Gemma4RopeLayerParams>,
    pub sliding_attention: Option<Gemma4RopeLayerParams>,
    pub rope_theta: Option<F64Bits>,
    pub rope_type: Option<String>,
    pub partial_rotary_factor: Option<F64Bits>,
}

/// Configuration of the text model.
#[derive(Clone, Debug)]
pub struct Gemma4TextConfig {
    pub attention_bias: bool,
    pub head_dim: usize,
    pub hidden_activation: Activation,
    pub hidden_size: usize,
    pub intermediate_size: usize,
    /// Width of each layer's feed-forward block, where the layers differ.
    pub intermediate_sizes: Option<Vec<usize>>,
    pub num_attention_heads: usize,
    pub num_hidden_layers: usize,
    pub num_key_value_heads: usize,
    pub rms_norm_eps: F64Bits,
    pub rope_theta: F64Bits,
    pub vocab_size: usize,
    pub sliding_window: usize,
    pub final_logit_softcapping: Option<F64Bits>,
    pub query_pre_attn_scalar: usize,
    pub max_position_embeddings: usize,
    pub tie_word_embeddings: bool,
    pub sliding_window_pattern: usize,
    /// `sliding_attention` or `full_attention`, for each layer.
    pub layer_types: Vec<String>,
    pub global_head_dim: usize,
    pub num_global_key_value_heads: Option<usize>,
    pub rope_parameters: Option<Gemma4RopeParameters>,
    pub use_bidirectional_attention: Option<String>,
    pub use_flash_attn: bool,
    /// Width of the auxiliary embedding that every layer is given, where the
    /// model has one.
    pub hidden_size_per_layer_input: Option<usize>,
    /// Entries of the auxiliary embedding's table, where they are not those of
    /// the vocabulary.
    pub vocab_size_per_layer_input: Option<usize>,
    /// Parallel hidden streams.
    pub altup_num_inputs: usize,
    /// The stream that runs through attention and feed-forward.
    pub altup_active_idx: usize,
    /// Whether the corrected active stream is scaled before the auxiliary
    /// embedding's gate.
    pub altup_correct_scale: bool,
    pub altup_coef_clip: Option<F64Bits>,
    /// Rank of the low-rank residual beside attention.
    pub laurel_rank: usize,
    /// Share of each layer's gate values that is cut to zero.
    pub activation_sparsity_pattern: Option<Vec<F64Bits>>,
    pub disable_altup: bool,
    pub disable_laurel: bool,
    pub disable_per_layer_input_gate: bool,
    /// Layers at the end of the stack that use the keys and values of earlier
    /// ones.
    pub num_kv_shared_layers: usize,
}

/// A quarter.
pub const QUARTER: u64 = 0x3fd0_0000_0000_0000;

/// Ten thousand.
pub const TEN_THOUSAND: u64 = 0x40c3_8800_0000_0000;

/// A hundred.
pub const HUNDRED: u64 = 0x4059_0000_0000_0000;

impl Gemma4TextConfig {
    /// Positions that a sliding layer sees.
    pub open spec fn spec_effective_sliding_window(&self) -> nat {
        if self.use_bidirectional_attention matches Some(s) && s@ == "all"@ {
            (self.sliding_window / 2 + 1) as nat
        } else {
            self.sliding_window as nat
        }
    }

    /// Whether layer `i` is a sliding one.
    pub open spec fn spec_is_sliding(&self, i: int) -> bool {
        0 <= i < self.layer_types@.len() && self.layer_types@[i]@ == "sliding_attention"@
    }

    /// Width of the feed-forward block of layer `i`.
    pub open spec fn spec_intermediate_size_at(&self, i: int) -> usize {
        match self.intermediate_sizes {
            Some(v) if i < v@.len() => v@[i],
            _ => self.intermediate_size,
        }
    }

    /// Positions that a sliding layer sees: half the window and one more where
    /// attention looks both ways.
    pub fn effective_sliding_window(&self) -> (r: usize)
        ensures
            r == self.spec_effective_sliding_window(),
    {
        match &self.use_bidirectional_attention {
            Some(s) => {
                if str_eq(s.as_str(), "all") {
                    self.sliding_window / 2 + 1
                } else {
                    self.sliding_window
                }
            },
            None => self.sliding_window,
        }
    }

    /// Share of a full-attention head that is rotated.
    pub open spec fn spec_partial_rotary_factor(&self) -> F64Bits {
        match self.rope_parameters {
            Some(Gemma4RopeParameters {
                full_attention: Some(Gemma4RopeLayerParams { partial_rotary_factor: Some(f), .. }),
                ..
            }) => f,
            _ => F64Bits { bits: QUARTER },
        }
    }

    /// Base of the rotation frequencies of sliding layers.
    pub open spec fn spec_rope_local_base_freq(&self) -> F64Bits {
        match self.rope_parameters {
            Some(Gemma4RopeParameters {
                sliding_attention: Some(Gemma4RopeLayerParams { rope_theta: Some(f), .. }),
                ..
            }) => f,
            _ => F64Bits { bits: TEN_THOUSAND },
        }
    }

    /// Share of a full-attention head that is rotated.
    pub fn partial_rotary_factor(&self) -> (r: F64Bits)
        ensures
            r == self.spec_partial_rotary_factor(),
            r == match self.rope_parameters {
                Some(rp) => match rp.full_attention {
                    Some(fa) => match fa.partial_rotary_factor {
                        Some(f) => f,
                        None => F64Bits { bits: QUARTER },
                    },
                    None => F64Bits { bits: QUARTER },
                },
                None => F64Bits { bits: QUARTER },
            },
    {
        match &self.rope_parameters {
            Some(rp) => match &rp.full_attention {
                Some(fa) => match fa.partial_rotary_factor {
                    Some(f) => f,
                    None => F64Bits { bits: QUARTER },
                },
                None => F64Bits { bits: QUARTER },
            },
            None => F64Bits { bits: QUARTER },
        }
    }

    /// Base of the rotation frequencies of sliding layers.
    pub fn rope_local_base_freq(&self) -> (r: F64Bits)
        ensures
            r == self.spec_rope_local_base_freq(),
            r == match self.rope_parameters {
                Some(rp) => match rp.sliding_attention {
                    Some(sa) => match sa.rope_theta {
                        Some(f) => f,
                        None => F64Bits { bits: TEN_THOUSAND },
                    },
                    None => F64Bits { bits: TEN_THOUSAND },
                },
                None => F64Bits { bits: TEN_THOUSAND },
            },
    {
        match &self.rope_parameters {
            Some(rp) => match &rp.sliding_attention {
                Some(sa) => match sa.rope_theta {
                    Some(f) => f,
                    None => F64Bits { bits: TEN_THOUSAND },
                },
                None => F64Bits { bits: TEN_THOUSAND },
            },
            None => F64Bits { bits: TEN_THOUSAND },
        }
    }

    /// Whether a layer is a sliding one; a layer without a type is not.
    pub fn is_sliding(&self, layer_idx: usize) -> (r: bool)
        ensures
            r == self.spec_is_sliding(layer_idx as int),
    {
        layer_idx < self.layer_types.len() && str_eq(
            self.layer_types[layer_idx].as_str(),
            "sliding_attention",
        )
    }

    /// Width of a layer's feed-forward block: its own where the layers
    /// differ, the common one otherwise.
    pub fn intermediate_size_at(&self, layer_idx: usize) -> (r: usize)
        ensures
            r == self.spec_intermediate_size_at(layer_idx as int),
    {
        match &self.intermediate_sizes {
            Some(v) => {
                if layer_idx < v.len() {
                    v[layer_idx]
                } else {
                    self.intermediate_size
                }
            },
            None => self.intermediate_size,
        }
    }

    /// Share of a layer's gate values that is cut to zero; none where the
    /// model has no pattern for the layer.
    pub fn activation_sparsity_at(&self, layer_idx: usize) -> (r: F64Bits)
        ensures
            r == match self.activation_sparsity_pattern {
                Some(v) if layer_idx < v@.len() => v@[layer_idx as int],
                _ => F64Bits { bits: 0 },
            },
    {
        match &self.activation_sparsity_pattern {
            Some(v) => {
                if layer_idx < v.len() {
                    v[layer_idx]
                } else {
                    F64Bits { bits: 0 }
                }
            },
            None => F64Bits { bits: 0 },
        }
    }
}

/// Configuration of the vision model.
#[derive(Clone, Debug)]
pub struct Gemma4VisionConfig {
    pub hidden_size: usize,
    pub intermediate_size: usize,
    pub num_hidden_layers: usize,
    pub num_attention_heads: usize,
    pub num_key_value_heads: usize,
    pub head_dim: usize,
    pub hidden_activation: Activation,
    pub rms_norm_eps: F64Bits,
    pub patch_size: usize,
    pub position_embedding_size: usize,
    pub pooling_kernel_size: usize,
    pub default_output_length: usize,
    pub standardize: bool,
    pub rope_parameters: Option<Gemma4RopeParameters>,
}

impl Gemma4VisionConfig {
    /// Base of the rotation frequencies: that of full attention, or else the
    /// common one, or else a hundred.
    pub fn rope_theta(&self) -> (r: F64Bits)
        ensures
            r == match self.rope_parameters {
                Some(rp) => match (rp.full_attention, rp.rope_theta) {
                    (Some(fa), _) if fa.rope_theta is Some => fa.rope_theta->0,
                    (_, Some(t)) => t,
                    _ => F64Bits { bits: HUNDRED },
                },
                None => F64Bits { bits: HUNDRED },
            },
    {
        match &self.rope_parameters {
            Some(rp) => {
                if let Some(fa) = &rp.full_attention {
                    if let Some(t) = fa.rope_theta {
                        return t;
                    }
                }
                match rp.rope_theta {
                    Some(t) => t,
                    None => F64Bits { bits: HUNDRED },
                }
            },
            None => F64Bits { bits: HUNDRED },
        }
    }
}

/// Configuration of the audio model.
#[derive(Clone, Debug)]
pub struct Gemma4AudioConfig {
    pub input_feat_size: usize,
    pub hidden_size: usize,
    pub output_proj_dims: Option<usize>,
    pub conf_attention_chunk_size: usize,
    pub conf_attention_context_left: usize,
    pub conf_attention_context_right: usize,
    pub conf_attention_invalid_logits_value: F64Bits,
    pub conf_attention_logit_cap: F64Bits,
    pub conf_num_attention_heads: usize,
    pub conf_num_hidden_layers: usize,
    pub conf_conv_kernel_size: usize,
    pub conf_reduction_factor: usize,
    pub conf_residual_weight: F64Bits,
    pub sscp_conv_channel_size: Vec<usize>,
    pub sscp_conv_kernel_size: Vec<Vec<usize>>,
    pub sscp_conv_stride_size: Vec<Vec<usize>>,
    pub vocab_size: usize,
    pub sscp_conv_group_norm_eps: F64Bits,
    pub sscp_conv_eps: F64Bits,
    pub rms_norm_eps: F64Bits,
    pub gradient_clipping: F64Bits,
}

/// Configuration of the whole model.
#[derive(Clone, Debug)]
pub struct Gemma4Config {
    pub text_config: Gemma4TextConfig,
    pub vision_config: Gemma4VisionConfig,
    pub audio_config: Option<Gemma4AudioConfig>,
    pub image_token_id: usize,
    pub audio_token_id: usize,
    pub video_token_id: usize,
}

} // verus!
