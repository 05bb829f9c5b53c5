//! The Gemma 4 models: configuration, weights, caches, masks, and the tensor
//! programs of their forward passes.

pub mod attention;
pub mod attention_meaning;
pub mod bisect_dump;
pub mod block;
pub mod block_meaning;
pub mod checkpoint_names;
pub mod config;
pub mod e2b_reads;
pub mod embedding;
pub mod ends;
pub mod ends_meaning;
pub mod fit;
pub mod generate;
pub mod gguf_config;
pub mod gguf_keys;
pub mod gguf_names;
pub mod heads_meaning;
pub mod kv_cache;
pub mod layer;
pub mod layer_kinds;
pub mod layer_meaning;
pub mod mask;
pub mod pass;
pub mod pass_meaning;
pub mod pieces;
pub mod quantized;
pub mod quantized_e2b;
pub mod quantized_reads;
pub mod reads;
pub mod rotary;
pub mod streams;
pub mod streams_meaning;
pub mod text;
pub mod text_reads;
pub mod turns;
pub mod weight_names;
pub mod weights;
