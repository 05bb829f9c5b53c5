//! The Gemma 4 models: what is loaded, and what their programs compute when
//! they are run in software.

use candle_wgpu::dtype::{DType, GgmlDType};
use candle_wgpu::error::{Error, Op};
use candle_wgpu::gemma4::bisect_dump::{dump_bytes, dump_name, enabled};
use candle_wgpu::gemma4::config::{
    default_head_dim, default_output_proj_dims, default_rms_norm_eps, default_rope_theta,
    default_sscp_conv_kernel_size, Activation, F64Bits, Gemma4RopeLayerParams,
    Gemma4RopeParameters, Gemma4TextConfig, Gemma4VisionConfig,
};
use candle_wgpu::gemma4::embedding::QEmbedding;
use candle_wgpu::gemma4::generate::{escape, greedy_argmax, next_input, step_line};
use candle_wgpu::gemma4::gguf_config::{
    build_config_from_gguf, MetaElement, MetaEntry, MetaKey, Metadata,
};
use candle_wgpu::gemma4::kv_cache::{KvCache, SharedKvStore};
use candle_wgpu::gemma4::layer::Spread;
use candle_wgpu::gemma4::mask::{
    create_attention_masks, prepare_attention_mask, prepare_decoder_attention_mask,
    prepare_sliding_attention_mask, Mask,
};
use candle_wgpu::gemma4::quantized::{threshold, LayerCache, ModelWeights, Plan};
use candle_wgpu::gemma4::quantized_e2b;
use candle_wgpu::gemma4::rotary::{proportional_frequencies, rotary_frequencies};
use candle_wgpu::gemma4::text::{StepShape, TextModel};
use candle_wgpu::gemma4::weights::{Binding, Directory, TensorInfo};
use candle_wgpu::tensor::op::{
    BinOp, KvPart, LayerTensor, Leaf, MapOp, MaskKind, RopeTable, Scalar, StreamTensor, TOp,
    TopTensor,
};
use std::collections::HashMap;

// ── tensor programs in software ──────────────────────────────────────

#[derive(Clone, Debug, PartialEq)]
struct Array {
    dims: Vec<usize>,
    data: Vec<f32>,
}

fn count(dims: &[usize]) -> usize {
    dims.iter().product()
}

impl Array {
    fn new(dims: &[usize], data: Vec<f32>) -> Array {
        assert_eq!(count(dims), data.len());
        Array { dims: dims.to_vec(), data }
    }

    fn index(&self, i: usize) -> Vec<usize> {
        let mut out = vec![0; self.dims.len()];
        let mut rest = i;
        for a in (0..self.dims.len()).rev() {
            out[a] = rest % self.dims[a];
            rest /= self.dims[a];
        }
        out
    }

    fn at(&self, index: &[usize]) -> f32 {
        let mut i = 0;
        for a in 0..self.dims.len() {
            i = i * self.dims[a] + index[a];
        }
        self.data[i]
    }

    /// An array of the given shape, by the place that each entry comes from.
    fn pick(&self, dims: &[usize], from: impl Fn(&[usize]) -> Vec<usize>) -> Array {
        let shell = Array { dims: dims.to_vec(), data: Vec::new() };
        let data = (0..count(dims)).map(|i| self.at(&from(&shell.index(i)))).collect();
        Array::new(dims, data)
    }

    fn each(&self, f: impl Fn(f32) -> f32) -> Array {
        Array::new(&self.dims, self.data.iter().map(|x| f(*x)).collect())
    }

    fn rows(&self) -> impl Iterator<Item = &[f32]> {
        self.data.chunks(*self.dims.last().unwrap())
    }

    fn fold_last(&self, f: impl Fn(&[f32]) -> f32) -> Array {
        let mut dims = self.dims.clone();
        *dims.last_mut().unwrap() = 1;
        let data = self.rows().map(f).collect();
        Array::new(&dims, data)
    }

    /// `y` seen with this array's shape.
    fn broadcast(&self, y: &Array) -> Array {
        let lead = self.dims.len() - y.dims.len();
        y.pick(&self.dims, |i| {
            (0..y.dims.len()).map(|a| if y.dims[a] == 1 { 0 } else { i[a + lead] }).collect()
        })
    }
}

fn zip(op: BinOp, x: &Array, y: &Array) -> Array {
    let f = match op {
        BinOp::Add => |a: f32, b: f32| a + b,
        BinOp::Sub => |a: f32, b: f32| a - b,
        BinOp::Mul => |a: f32, b: f32| a * b,
        BinOp::Div => |a: f32, b: f32| a / b,
        BinOp::Maximum => f32::max,
    };
    assert_eq!(x.dims, y.dims);
    Array::new(&x.dims, x.data.iter().zip(&y.data).map(|(a, b)| f(*a, *b)).collect())
}

fn scalar(s: Scalar) -> f32 {
    match s {
        Scalar::One => 1.0,
        Scalar::Bits(b) => f64::from_bits(b.bits) as f32,
        Scalar::Count(n) => n as f32,
        Scalar::Sqrt(n) => (n as f64).sqrt() as f32,
        Scalar::RecipSqrt(n) => (n as f64).powf(-0.5) as f32,
        Scalar::Recip(n) => 1.0 / n as f32,
    }
}

fn softmax(row: &[f32]) -> Vec<f32> {
    let top = row.iter().copied().fold(f32::NEG_INFINITY, f32::max);
    let e: Vec<f32> = row.iter().map(|x| (x - top).exp()).collect();
    let sum: f32 = e.iter().sum();
    e.iter().map(|x| x / sum).collect()
}

fn product(x: &Array, y: &Array) -> Array {
    let (m, k, n) = (x.dims[2], x.dims[3], y.dims[3]);
    let mut data = Vec::new();
    for z in 0..x.dims[0] * x.dims[1] {
        for i in 0..m {
            for j in 0..n {
                data.push(
                    (0..k).map(|l| x.data[(z * m + i) * k + l] * y.data[(z * k + l) * n + j]).sum(),
                );
            }
        }
    }
    Array::new(&[x.dims[0], x.dims[1], m, n], data)
}

fn linear(x: &Array, w: &Array) -> Array {
    let (n, k) = (w.dims[0], w.dims[1]);
    let mut dims = x.dims.clone();
    *dims.last_mut().unwrap() = n;
    let mut data = Vec::new();
    for row in x.rows() {
        for o in 0..n {
            data.push((0..k).map(|i| row[i] * w.data[o * k + i]).sum());
        }
    }
    Array::new(&dims, data)
}

/// Sums of 64-bit words, mixed.
fn mix(mut h: u64) -> u64 {
    h ^= h >> 33;
    h = h.wrapping_mul(0xff51_afd7_ed55_8ccd);
    h ^= h >> 33;
    h = h.wrapping_mul(0xc4ce_b9fe_1a85_ec53);
    h ^ (h >> 33)
}

/// A weight: always the same numbers for the same name and shape.
fn weight(leaf: Leaf, dims: &[usize]) -> Array {
    let mut seed = 7u64;
    for b in format!("{leaf:?}").bytes() {
        seed = mix(seed ^ b as u64);
    }
    let data = (0..count(dims))
        .map(|i| (mix(seed ^ i as u64) % 2001) as f32 / 1000.0 - 1.0)
        .map(|v| v * 0.6)
        .collect();
    Array::new(dims, data)
}

/// What a model's run keeps from step to step.
struct Machine {
    ids: Vec<f32>,
    masks: Option<(Mask, Mask)>,
    offset: usize,
    embeds: Option<Array>,
    side: Option<Array>,
    cache: HashMap<(usize, bool), Array>,
    windows: HashMap<usize, usize>,
    partial_angles: usize,
}

impl Machine {
    fn new() -> Machine {
        Machine {
            ids: Vec::new(),
            masks: None,
            offset: 0,
            embeds: None,
            side: None,
            cache: HashMap::new(),
            windows: HashMap::new(),
            partial_angles: 1,
        }
    }

    fn leaf(&self, l: Leaf, dims: &[usize]) -> Array {
        match l {
            Leaf::TokenIds => Array::new(dims, self.ids.clone()),
            Leaf::Embeddings => self.embeds.clone().unwrap(),
            Leaf::PerLayerInputs => self.side.clone().unwrap(),
            Leaf::Mask(kind) => {
                let (full, sliding) = self.masks.as_ref().unwrap();
                let m = if kind == MaskKind::Full { full } else { sliding };
                assert_eq!(dims, &[m.batch, 1, m.rows, m.cols]);
                let one: Vec<f32> = m.bits.iter().map(|b| f32::from_bits(*b)).collect();
                Array::new(dims, (0..m.batch).flat_map(|_| one.clone()).collect())
            }
            _ => weight(l, dims),
        }
    }

    fn rope(&self, table: RopeTable, offset: usize, x: &Array) -> Array {
        let (t, d) = (x.dims[2], x.dims[3]);
        let half = d / 2;
        let freq: Vec<Option<usize>> = match table {
            RopeTable::Local => rotary_frequencies(d),
            RopeTable::Global => proportional_frequencies(d, self.partial_angles.min(half)),
        };
        let mut out = x.clone();
        for row in 0..count(&x.dims) / d {
            for j in 0..half {
                let inv = match freq[j] {
                    Some(e) => 1.0 / 100f32.powf(e as f32 / d as f32),
                    None => 0.0,
                };
                let angle = (offset + row % t) as f32 * inv;
                let (a, b) = (x.data[row * d + j], x.data[row * d + j + half]);
                out.data[row * d + j] = a * angle.cos() - b * angle.sin();
                out.data[row * d + j + half] = a * angle.sin() + b * angle.cos();
            }
        }
        out
    }

    /// The cached positions with `x` behind them.
    fn joined(&self, layer: usize, part: KvPart, x: &Array) -> Array {
        match self.cache.get(&(layer, part == KvPart::Keys)) {
            None => x.clone(),
            Some(c) => {
                let t = c.dims[2];
                let mut dims = x.dims.clone();
                dims[2] += t;
                let both = |i: &[usize]| {
                    let mut j = i.to_vec();
                    if i[2] < t {
                        c.at(&j)
                    } else {
                        j[2] -= t;
                        x.at(&j)
                    }
                };
                let shell = Array { dims: dims.clone(), data: Vec::new() };
                Array::new(&dims, (0..count(&dims)).map(|i| both(&shell.index(i))).collect())
            }
        }
    }

    fn run(&mut self, plan: &Plan) -> Array {
        let p = &plan.program;
        let mut out: Vec<Array> = Vec::new();
        let mut grown: Vec<((usize, bool), Array)> = Vec::new();
        for i in 0..p.len() {
            let s = p.step(i);
            let x = |k: usize| &out[s.args[k]];
            let dims = &s.ty.dims;
            let y = match s.op {
                TOp::Leaf(l) => self.leaf(l, dims),
                TOp::Each(op) => match op {
                    MapOp::Sqr => x(0).each(|v| v * v),
                    MapOp::Sqrt => x(0).each(f32::sqrt),
                    MapOp::Tanh => x(0).each(f32::tanh),
                    MapOp::Act(_) => x(0).each(|v| v / (1.0 + (-v).exp())),
                    MapOp::Mul(k) => x(0).each(|v| v * scalar(k)),
                    MapOp::Div(k) => x(0).each(|v| v / scalar(k)),
                    MapOp::Add(k) => x(0).each(|v| v + scalar(k)),
                    MapOp::AtLeast(k) => x(0).each(|v| v.max(scalar(k))),
                    MapOp::ZerosLike => x(0).each(|_| 0.0),
                    MapOp::Contiguous => x(0).clone(),
                },
                TOp::Cast(_) => x(0).clone(),
                TOp::Zip(op) => zip(op, x(0), x(1)),
                TOp::ZipBroadcast(op) => zip(op, x(0), &x(0).broadcast(x(1))),
                TOp::Linear => linear(x(0), x(1)),
                TOp::LinearBias => {
                    let y = linear(x(0), x(1));
                    let b = y.broadcast(x(2));
                    zip(BinOp::Add, &y, &b)
                }
                TOp::RmsNorm(eps) => {
                    let n = x(1).dims[0] as f32;
                    let e = f64::from_bits(eps.bits) as f32;
                    let root = x(0).fold_last(|r| {
                        (r.iter().map(|v| v * v).sum::<f32>() / n + e).sqrt()
                    });
                    let normed = zip(BinOp::Div, x(0), &x(0).broadcast(&root));
                    zip(BinOp::Mul, &normed, &normed.broadcast(x(1)))
                }
                TOp::SumKeepLast => x(0).fold_last(|r| r.iter().sum()),
                TOp::MeanKeepLast => x(0).fold_last(|r| r.iter().sum::<f32>() / r.len() as f32),
                TOp::MeanFirst => {
                    let n = x(0).dims[0];
                    let inner = count(&x(0).dims[1..]);
                    let data = (0..inner)
                        .map(|j| (0..n).map(|k| x(0).data[k * inner + j]).sum::<f32>() / n as f32)
                        .collect();
                    Array::new(&x(0).dims[1..], data)
                }
                TOp::SoftmaxLast => {
                    Array::new(&x(0).dims, x(0).rows().flat_map(|r| softmax(r)).collect())
                }
                TOp::Matmul => product(x(0), x(1)),
                TOp::SplitLast { .. } | TOp::MergeLast | TOp::Squeeze { .. } | TOp::Unsqueeze { .. } => {
                    Array::new(dims, x(0).data.clone())
                }
                TOp::Transpose { a, b } => x(0).pick(dims, |i| {
                    let mut j = i.to_vec();
                    j.swap(a, b);
                    j
                }),
                TOp::Permute3 { a, b, c } => x(0).pick(dims, |i| {
                    let mut j = vec![0; 3];
                    j[a] = i[0];
                    j[b] = i[1];
                    j[c] = i[2];
                    j
                }),
                TOp::Permute4 { a, b, c, d } => x(0).pick(dims, |i| {
                    let mut j = vec![0; 4];
                    j[a] = i[0];
                    j[b] = i[1];
                    j[c] = i[2];
                    j[d] = i[3];
                    j
                }),
                TOp::Narrow { axis, start, .. } => x(0).pick(dims, |i| {
                    let mut j = i.to_vec();
                    j[axis] += start;
                    j
                }),
                TOp::Select { axis, index } => x(0).pick(dims, |i| {
                    let mut j = i.to_vec();
                    j.insert(axis, index);
                    j
                }),
                TOp::ExpandFirst { .. } => x(0).pick(dims, |i| {
                    let mut j = i.to_vec();
                    j[0] = 0;
                    j
                }),
                TOp::Stack => {
                    let data = (0..s.args.len()).flat_map(|k| x(k).data.clone()).collect();
                    Array::new(dims, data)
                }
                TOp::Rope { table, offset } => self.rope(table, offset, x(0)),
                TOp::RepeatKv { groups } => x(0).pick(dims, |i| {
                    let mut j = i.to_vec();
                    j[1] /= groups;
                    j
                }),
                TOp::CacheAppend { layer, part } | TOp::CacheConcat { layer, part } => {
                    let all = self.joined(layer, part, x(0));
                    grown.push(((layer, part == KvPart::Keys), all.clone()));
                    all
                }
                TOp::FlashAttnDecode { window } => {
                    let (q, k, v) = (x(0), x(1), x(2));
                    let (kv, d) = (k.dims[2], k.dims[3]);
                    let first = match window {
                        Some(w) if (w as usize) < kv => kv - w as usize,
                        _ => 0,
                    };
                    let mut data = Vec::new();
                    for h in 0..q.dims[0] * q.dims[1] {
                        let scores: Vec<f32> = (first..kv)
                            .map(|i| {
                                (0..d)
                                    .map(|e| q.data[h * d + e] * k.data[(h * kv + i) * d + e])
                                    .sum()
                            })
                            .collect();
                        let w = softmax(&scores);
                        for e in 0..d {
                            data.push(
                                (first..kv)
                                    .map(|i| w[i - first] * v.data[(h * kv + i) * d + e])
                                    .sum(),
                            );
                        }
                    }
                    Array::new(&q.dims, data)
                }
                TOp::FlashAttn { .. } => panic!("not run here"),
                TOp::Embed => {
                    let cols = x(1).dims[1];
                    let data = x(0)
                        .data
                        .iter()
                        .flat_map(|id| {
                            let at = *id as usize * cols;
                            x(1).data[at..at + cols].to_vec()
                        })
                        .collect();
                    let mut dims = x(0).dims.clone();
                    dims.push(cols);
                    Array::new(&dims, data)
                }
            };
            assert_eq!(&y.dims, dims, "step {i}: {:?}", s.op);
            out.push(y);
        }
        for ((layer, keys), mut all) in grown {
            if let Some(w) = self.windows.get(&layer) {
                let t = all.dims[2];
                if t > *w {
                    let mut dims = all.dims.clone();
                    dims[2] = *w;
                    all = all.pick(&dims, |i| vec![i[0], i[1], i[2] + t - w, i[3]]);
                }
            }
            self.cache.insert((layer, keys), all);
        }
        out[plan.output].clone()
    }

    fn step(&mut self, ids: &[u32], offset: usize, window: usize) {
        self.ids = ids.iter().map(|i| *i as f32).collect();
        self.offset = offset;
        self.masks = if ids.len() > 1 {
            Some((
                prepare_attention_mask(1, ids.len(), offset),
                prepare_sliding_attention_mask(1, ids.len(), offset, window),
            ))
        } else {
            None
        };
    }
}

fn close(a: &Array, b: &Array, tol: f32) {
    assert_eq!(a.dims, b.dims);
    for (i, (x, y)) in a.data.iter().zip(&b.data).enumerate() {
        assert!((x - y).abs() <= tol, "[{i}]: {x} and {y}");
    }
}

// ── a small model ────────────────────────────────────────────────────

/// The last position of every sequence.
fn last(x: &Array) -> Array {
    let d = &x.dims;
    x.pick(&[d[0], 1, d[2]], |i| vec![i[0], d[1] - 1, i[2]])
}

fn bits(x: f64) -> F64Bits {
    F64Bits { bits: x.to_bits() }
}

fn types(pattern: &str) -> Vec<String> {
    pattern
        .chars()
        .map(|c| if c == 's' { "sliding_attention".to_string() } else { "full_attention".to_string() })
        .collect()
}

fn small_config(pattern: &str) -> Gemma4TextConfig {
    Gemma4TextConfig {
        attention_bias: false,
        head_dim: 4,
        hidden_activation: Activation::Silu,
        hidden_size: 8,
        intermediate_size: 12,
        intermediate_sizes: None,
        num_attention_heads: 4,
        num_hidden_layers: pattern.len(),
        num_key_value_heads: 2,
        rms_norm_eps: default_rms_norm_eps(),
        rope_theta: default_rope_theta(),
        vocab_size: 16,
        sliding_window: 64,
        final_logit_softcapping: Some(bits(30.0)),
        query_pre_attn_scalar: 4,
        max_position_embeddings: 32,
        tie_word_embeddings: true,
        sliding_window_pattern: 5,
        layer_types: types(pattern),
        global_head_dim: 8,
        num_global_key_value_heads: None,
        rope_parameters: None,
        use_bidirectional_attention: None,
        use_flash_attn: false,
        hidden_size_per_layer_input: Some(6),
        vocab_size_per_layer_input: None,
        altup_num_inputs: 1,
        altup_active_idx: 0,
        altup_correct_scale: true,
        altup_coef_clip: None,
        laurel_rank: 0,
        activation_sparsity_pattern: None,
        disable_altup: false,
        disable_laurel: false,
        disable_per_layer_input_gate: false,
        num_kv_shared_layers: 0,
    }
}

fn info(name: &str, dims: &[usize]) -> TensorInfo {
    TensorInfo {
        name: name.to_string(),
        dims: dims.to_vec(),
        dtype: GgmlDType::F32,
        bytes: 4 * count(dims) as u64,
    }
}

/// The shape of a tensor of a file: 12 wide inside of feed-forward blocks, and
/// three in low-rank residuals.
fn stored_dims(cfg: &Gemma4TextConfig, name: &str) -> Vec<usize> {
    let (h, n) = (cfg.hidden_size, cfg.altup_num_inputs);
    let side = cfg.hidden_size_per_layer_input.unwrap_or(0);
    let (layer, tail) = match name.strip_prefix("blk.").and_then(|r| r.split_once('.')) {
        Some((i, tail)) => (i.parse::<usize>().unwrap(), tail),
        None => (0, name),
    };
    let d = if cfg.is_sliding(layer) { cfg.head_dim } else { cfg.global_head_dim };
    let (q, kv) = (cfg.num_attention_heads * d, cfg.num_key_value_heads * d);
    match tail {
        "attn_q.weight" => vec![q, h],
        "attn_output.weight" => vec![h, q],
        "attn_k.weight" | "attn_v.weight" => vec![kv, h],
        "attn_q_norm.weight" | "attn_k_norm.weight" => vec![d],
        "ffn_gate.weight" | "ffn_up.weight" => vec![12, h],
        "ffn_down.weight" => vec![h, 12],
        "laurel_l.weight" => vec![3, h],
        "laurel_r.weight" => vec![h, 3],
        "layer_output_scale.weight" | "layer_scalar" => vec![1],
        "inp_gate.weight" => vec![side, h],
        "proj.weight" => vec![h, side],
        "altup_correction_coefs.weight" => vec![n, n],
        "altup_prediction_coefs.weight" => vec![n * n, n],
        "altup_modality_router.weight" => vec![n, h],
        "per_layer_model_proj.weight" => vec![cfg.num_hidden_layers * side, h],
        "per_layer_proj_norm.weight" => vec![side],
        t if t.starts_with("altup_proj.") || t.starts_with("altup_unembd_proj.") => vec![h, h],
        _ => vec![h],
    }
}

/// A file with the given tensors.
fn file(cfg: &Gemma4TextConfig, names: &[String]) -> Directory {
    let mut tensors = vec![info("token_embd.weight", &[16, 8]), info("output_norm.weight", &[8])];
    tensors.extend(names.iter().map(|n| info(n, &stored_dims(cfg, n))));
    Directory { tensors }
}

const LAYER: [&str; 13] = [
    "attn_q.weight",
    "attn_output.weight",
    "attn_k.weight",
    "attn_v.weight",
    "attn_q_norm.weight",
    "attn_k_norm.weight",
    "ffn_gate.weight",
    "ffn_up.weight",
    "ffn_down.weight",
    "attn_norm.weight",
    "post_attention_norm.weight",
    "ffn_norm.weight",
    "post_ffw_norm.weight",
];

fn layer_names(layers: usize, tails: &[&str]) -> Vec<String> {
    (0..layers).flat_map(|i| tails.iter().map(move |t| format!("blk.{i}.{t}"))).collect()
}

fn side_names(layers: usize) -> Vec<String> {
    let mut v = layer_names(layers, &["inp_gate.weight", "proj.weight", "post_norm.weight"]);
    v.push("per_layer_model_proj.weight".to_string());
    v.push("per_layer_proj_norm.weight".to_string());
    v
}

fn none(n: usize) -> Vec<Option<usize>> {
    vec![None; n]
}

fn no_thresholds(n: usize) -> Vec<F64Bits> {
    vec![bits(0.0); n]
}

// ── the small quantized model ────────────────────────────────────────

fn e2b_names(layers: usize) -> Vec<String> {
    let mut names = layer_names(layers, &LAYER);
    names.extend(side_names(layers));
    names.extend(layer_names(layers, &["layer_output_scale.weight"]));
    names
}

fn e2b(pattern: &str, donors: Vec<Option<usize>>, window: usize) -> quantized_e2b::ModelWeights {
    let mut cfg = small_config(pattern);
    cfg.sliding_window = window;
    let names = e2b_names(pattern.len());
    quantized_e2b::ModelWeights::from_gguf(&file(&cfg, &names), cfg, &donors, true).unwrap()
}

#[test]
fn steps_give_what_one_pass_gives() {
    let tokens = [3u32, 1, 4, 1, 5, 9];
    let mut whole = e2b("sf", none(2), 64);
    let mut machine = Machine::new();
    machine.step(&tokens, 0, 64);
    let want = machine.run(&whole.forward(1, tokens.len(), 0).unwrap());
    assert_eq!(want.dims, vec![1, 1, 16]);

    let mut stepwise = e2b("sf", none(2), 64);
    let mut machine = Machine::new();
    machine.step(&tokens[..3], 0, 64);
    machine.run(&stepwise.forward(1, 3, 0).unwrap());
    let mut got = None;
    for i in 3..tokens.len() {
        machine.step(&tokens[i..i + 1], i, 64);
        got = Some(machine.run(&stepwise.forward(1, 1, i).unwrap()));
    }
    close(&want, &got.unwrap(), 1e-4);
}

#[test]
fn shared_keys_and_values_are_the_donors() {
    let tokens = [2u32, 7, 1];
    let mut m = e2b("ssff", vec![None, Some(0), None, Some(2)], 64);
    let plan = m.forward(1, 3, 0).unwrap();
    let caches: Vec<usize> = (0..plan.program.len())
        .filter_map(|i| match plan.program.step(i).op {
            TOp::CacheConcat { layer, part: KvPart::Keys } => Some(layer),
            _ => None,
        })
        .collect();
    assert_eq!(caches, vec![0, 2]);
    let mut machine = Machine::new();
    machine.step(&tokens, 0, 64);
    assert!(machine.run(&plan).data.iter().all(|v| v.is_finite()));
    assert_eq!(m.caches.iter().map(|c| c.len()).collect::<Vec<_>>(), vec![3, 0, 3, 0]);
}

#[test]
fn a_missing_donor_stops_the_pass() {
    let mut m = e2b("sss", vec![None, Some(2), None], 64);
    assert_eq!(m.forward(1, 2, 0).unwrap_err(), Error::NoDonor { layer: 1, donor: 2 });
    assert_eq!(m.caches.iter().map(|c| c.len()).collect::<Vec<_>>(), vec![2, 0, 0]);
}

#[test]
fn donors_of_another_width_stop_the_pass() {
    let mut m = e2b("sf", vec![None, Some(0)], 64);
    assert_eq!(m.forward(1, 1, 0).unwrap_err(), Error::HeadsMismatch { layer: 1 });
}

#[test]
fn decoding_slides_along_the_window() {
    let mut m = e2b("s", none(1), 3);
    let mut machine = Machine::new();
    machine.windows.insert(0, 3);
    for i in 0..5 {
        machine.step(&[i as u32], i, 3);
        let out = machine.run(&m.forward(1, 1, i).unwrap());
        assert!(out.data.iter().all(|v| v.is_finite()));
    }
    assert_eq!(m.caches[0].len(), 3);
    m.clear_kv_cache();
    assert_eq!(m.caches[0].len(), 0);
}

#[test]
fn a_prefill_beyond_the_window_does_not_fit_its_mask() {
    let mut m = e2b("fs", none(2), 3);
    assert_eq!(
        m.forward(1, 4, 0).unwrap_err(),
        Error::MaskLength { layer: 1, cached: 3, masked: 4 }
    );
    assert_eq!(m.caches.iter().map(|c| c.len()).collect::<Vec<_>>(), vec![4, 3]);
}

#[test]
fn cached_sequences_stay_as_many() {
    let mut m = e2b("sf", none(2), 64);
    m.forward(2, 3, 0).unwrap();
    assert_eq!(m.forward(1, 1, 3).unwrap_err(), Error::CachedBatch { cached: 2, got: 1 });
    assert_eq!(m.caches[0].len(), 3);
    m.forward(2, 1, 3).unwrap();
    m.clear_kv_cache();
    m.forward(1, 1, 0).unwrap();
}

#[test]
fn positions_are_bounded() {
    let mut m = e2b("s", none(1), 64);
    assert_eq!(
        m.forward(1, 1, 32).unwrap_err(),
        Error::PositionsOutOfRange { offset: 32, len: 1, max: 32 }
    );
    assert!(m.forward(1, 1, 31).is_ok());
}

#[test]
fn gains_are_on_full_layers_only() {
    let m = e2b("sf", none(2), 64);
    assert_eq!(m.layers[0].body.gain, None);
    assert_eq!(m.layers[1].body.gain, Some(Spread { rank: 1, d0: 1, d1: 0, d2: 0 }));
}

#[test]
fn values_may_be_the_keys() {
    let cfg = small_config("f");
    let names: Vec<String> =
        layer_names(1, &LAYER).into_iter().filter(|n| n != "blk.0.attn_v.weight").collect();
    let mut m =
        quantized_e2b::ModelWeights::from_gguf(&file(&cfg, &names), cfg, &none(1), true).unwrap();
    assert!(!m.layers[0].attention.has_value);
    let plan = m.forward(1, 1, 0).unwrap();
    let asks_for_v = (0..plan.program.len())
        .any(|i| plan.program.step(i).op == TOp::Leaf(Leaf::Layer(0, LayerTensor::AttnV)));
    assert!(!asks_for_v);
}

#[test]
fn weights_of_another_shape_stop_the_pass() {
    let refused = |name: &str, dims: &[usize]| {
        let cfg = small_config("sf");
        let mut dir = file(&cfg, &e2b_names(2));
        let t = dir.tensors.iter_mut().find(|t| t.name == name).unwrap();
        *t = info(name, dims);
        let mut m = quantized_e2b::ModelWeights::from_gguf(&dir, cfg, &none(2), true).unwrap();
        let e = m.forward(1, 1, 0).unwrap_err();
        (e, m.caches[0].len(), m.caches[1].len())
    };
    let shape = |l: usize, t: LayerTensor| Error::TensorShape { leaf: Leaf::Layer(l, t) };
    assert_eq!(refused("blk.1.attn_q.weight", &[8, 8]), (shape(1, LayerTensor::AttnQ), 1, 0));
    assert_eq!(refused("blk.1.ffn_up.weight", &[11, 8]), (shape(1, LayerTensor::FfnUp), 1, 1));
    assert_eq!(refused("blk.0.attn_k_norm.weight", &[3]), (shape(0, LayerTensor::AttnKNorm), 0, 0));
    let top = |t: TopTensor| Error::TensorShape { leaf: Leaf::Top(t) };
    assert_eq!(
        refused("per_layer_model_proj.weight", &[6, 8]),
        (top(TopTensor::PerLayerModelProjection), 0, 0)
    );
    assert_eq!(refused("output_norm.weight", &[9]), (top(TopTensor::OutputNorm), 1, 1));
}

#[test]
fn gains_and_scales_are_spread() {
    let with = |name: &str, dims: &[usize]| {
        let cfg = small_config("f");
        let mut dir = file(&cfg, &e2b_names(1));
        let t = dir.tensors.iter_mut().find(|t| t.name == name).unwrap();
        *t = info(name, dims);
        quantized_e2b::ModelWeights::from_gguf(&dir, cfg, &none(1), true).unwrap()
    };
    let gain = "blk.0.layer_output_scale.weight";
    for dims in [vec![], vec![8], vec![1, 8], vec![2, 8], vec![2, 1], vec![1, 2, 8]] {
        let mut m = with(gain, &dims);
        let mut machine = Machine::new();
        machine.step(&[1, 2], 0, 64);
        let plan = m.forward(1, 2, 0).unwrap();
        let read = (0..plan.program.len())
            .map(|i| plan.program.step(i))
            .find(|s| s.op == TOp::Leaf(Leaf::Layer(0, LayerTensor::LayerScalar)))
            .unwrap();
        assert_eq!(read.ty.dims, dims);
        assert_eq!(machine.run(&plan).dims, vec![1, 1, 16]);
    }
    let refused = Error::TensorShape { leaf: Leaf::Layer(0, LayerTensor::LayerScalar) };
    for dims in [vec![7], vec![3, 8], vec![2, 2, 8], vec![1, 1, 1, 1]] {
        let mut m = with(gain, &dims);
        assert_eq!(m.forward(1, 2, 0).unwrap_err(), refused);
        assert_eq!(m.caches[0].len(), 2);
    }

    let mut cfg = small_config("s");
    cfg.altup_num_inputs = 2;
    let mut names = layer_names(1, &LAYER);
    names.extend(side_names(1));
    names.extend(stream_names(1, 2));
    for (dims, fits) in [(vec![8], true), (vec![1], true), (vec![1, 1, 8], true), (vec![5], false)] {
        let mut dir = file(&cfg, &names);
        let name = "blk.0.altup_correct_output_scale";
        let t = dir.tensors.iter_mut().find(|t| t.name == name).unwrap();
        *t = info(name, &dims);
        let m = ModelWeights::from_gguf(&dir, cfg.clone(), &none(1), &no_thresholds(1)).unwrap();
        let mut machine = Machine::new();
        machine.step(&[3], 0, 64);
        match m.forward(1, 1, 0, &vec![1]) {
            Ok(plan) => {
                assert!(fits);
                assert!(machine.run(&plan).data.iter().all(|v| v.is_finite()));
            }
            Err(e) => {
                assert!(!fits);
                let leaf = Leaf::Layer(0, LayerTensor::AltupCorrectOutputScale);
                assert_eq!(e, Error::TensorShape { leaf });
            }
        }
    }
}

#[test]
fn gates_of_one_value_are_repeated() {
    let cfg = small_config("s");
    let mut dir = file(&cfg, &e2b_names(1));
    let t = dir.tensors.iter_mut().find(|t| t.name == "blk.0.inp_gate.weight").unwrap();
    *t = info("blk.0.inp_gate.weight", &[1, 8]);
    let mut m = quantized_e2b::ModelWeights::from_gguf(&dir, cfg, &none(1), true).unwrap();
    assert_eq!((m.layers[0].body.gate, m.layers[0].body.side), (1, Some(6)));
    let mut machine = Machine::new();
    machine.step(&[3], 0, 64);
    let out = machine.run(&m.forward(1, 1, 0).unwrap());
    assert!(out.data.iter().all(|v| v.is_finite()));

    let cfg = small_config("s");
    let t = dir.tensors.iter_mut().find(|t| t.name == "blk.0.inp_gate.weight").unwrap();
    *t = info("blk.0.inp_gate.weight", &[5, 8]);
    let mut m = quantized_e2b::ModelWeights::from_gguf(&dir, cfg, &none(1), true).unwrap();
    let leaf = Leaf::Layer(0, LayerTensor::PerLayerInputGate);
    assert_eq!(m.forward(1, 1, 0).unwrap_err(), Error::TensorShape { leaf });
}

#[test]
fn widths_are_those_of_the_file() {
    let cfg = small_config("s");
    let mut dir = file(&cfg, &layer_names(1, &LAYER));
    for (name, dims) in [
        ("blk.0.ffn_gate.weight", [20, 8]),
        ("blk.0.ffn_up.weight", [20, 8]),
        ("blk.0.ffn_down.weight", [8, 20]),
    ] {
        let t = dir.tensors.iter_mut().find(|t| t.name == name).unwrap();
        *t = info(name, &dims);
    }
    dir.tensors.push(info("output.weight", &[40, 8]));
    let mut m = quantized_e2b::ModelWeights::from_gguf(&dir, cfg, &none(1), true).unwrap();
    assert_eq!(m.layers[0].body.inner, 20);
    let plan = m.forward(1, 1, 0).unwrap();
    assert_eq!(plan.program.step(plan.output).ty.dims, vec![1, 1, 40]);
}

#[test]
fn tables_are_left_out_where_there_is_no_room() {
    let mut names = layer_names(1, &LAYER);
    names.extend(side_names(1));
    let mut dir = file(&small_config("s"), &names);
    dir.tensors.push(info("embed_tokens_per_layer.weight", &[16, 6]));
    let load = |with_table| {
        quantized_e2b::ModelWeights::from_gguf(&dir, small_config("s"), &none(1), with_table)
            .unwrap()
    };
    assert_eq!(load(true).side.unwrap().rows, Some(16));
    assert_eq!(load(false).side.unwrap().rows, None);
    let mut m = load(true);
    let mut machine = Machine::new();
    machine.step(&[5], 0, 64);
    assert!(machine.run(&m.forward(1, 1, 0).unwrap()).data.iter().all(|v| v.is_finite()));
}

#[test]
fn truncated_tables_are_refused() {
    let mut dir = file(&small_config("s"), &layer_names(1, &LAYER));
    dir.tensors[0].bytes = 4;
    assert_eq!(
        quantized_e2b::ModelWeights::from_gguf(&dir, small_config("s"), &none(1), true).unwrap_err(),
        Error::StorageSize { expected: 512, got: 4 }
    );
}

// ── the quantized model ──────────────────────────────────────────────

fn load(cfg: Gemma4TextConfig, names: &[String], donors: Vec<Option<usize>>) -> ModelWeights {
    let n = cfg.num_hidden_layers;
    ModelWeights::from_gguf(&file(&cfg, names), cfg, &donors, &no_thresholds(n)).unwrap()
}

#[test]
fn fused_decoding_gives_what_one_pass_gives() {
    let tokens = [6u32, 2, 8, 3];
    let mut names = layer_names(2, &LAYER);
    names.extend(side_names(2));
    let m = load(small_config("sf"), &names, none(2));
    let mut machine = Machine::new();
    machine.step(&tokens, 0, 64);
    let want = machine.run(&m.forward(1, 4, 0, &vec![4, 4]).unwrap());
    assert_eq!(want.dims, vec![1, 4, 16]);
    let mut machine = Machine::new();
    for i in 0..4 {
        machine.step(&tokens[i..i + 1], i, 64);
        let got = machine.run(&m.forward(1, 1, i, &vec![i + 1, i + 1]).unwrap());
        close(&want.pick(&[1, 1, 16], |at| vec![at[0], i, at[2]]), &got, 1e-4);
    }
    assert_eq!(m.clear_kv_cache(), vec![0, 1]);
}

#[test]
fn loaded_parts_and_caches() {
    let mut cfg = small_config("sf");
    cfg.laurel_rank = 1;
    let mut names = layer_names(2, &LAYER);
    names.extend(layer_names(1, &["laurel_l.weight", "laurel_r.weight", "post_laurel_norm.weight"]));
    names.push("blk.1.laurel_l.weight".to_string());
    names.push("blk.1.layer_scalar".to_string());
    let m = load(cfg, &names, none(2));
    assert_eq!(m.layers[0].body.laurel, Some(3));
    assert_eq!(m.layers[1].body.laurel, None);
    assert!(m.layers[0].body.gain.is_none() && m.layers[1].body.gain.is_some());
    assert_eq!(m.caches, vec![LayerCache::Rotating { window: 64 }, LayerCache::Growing { initial: 32 }]);
    assert_eq!(m.side, None);
    let mut machine = Machine::new();
    machine.step(&[1, 2], 0, 64);
    let out = machine.run(&m.forward(1, 2, 0, &vec![2, 2]).unwrap());
    assert!(out.data.iter().all(|v| v.is_finite() && v.abs() <= 30.0));
}

#[test]
fn bindings_name_the_tensors_of_the_file() {
    let names = layer_names(1, &LAYER);
    let m = load(small_config("s"), &names, none(1));
    let dir = file(&small_config("s"), &names);
    let name = |leaf: Leaf| {
        let b = m.bindings.iter().find(|b| b.leaf == leaf).unwrap();
        dir.tensors[b.tensor].name.clone()
    };
    assert_eq!(name(Leaf::Top(TopTensor::Output)), "token_embd.weight");
    assert_eq!(name(Leaf::Layer(0, LayerTensor::InputNorm)), "blk.0.attn_norm.weight");
    assert_eq!(name(Leaf::Layer(0, LayerTensor::PreFeedforwardNorm)), "blk.0.ffn_norm.weight");
}

#[test]
fn receivers_need_no_keys_and_values() {
    let names: Vec<String> = layer_names(2, &LAYER)
        .into_iter()
        .filter(|n| !n.starts_with("blk.1.attn_k") && n != "blk.1.attn_v.weight")
        .collect();
    let m = load(small_config("ss"), &names, vec![None, Some(0)]);
    assert_eq!(m.layers[1].donor, Some(0));
    let cfg = small_config("ss");
    assert_eq!(
        ModelWeights::from_gguf(&file(&cfg, &names), cfg, &none(2), &no_thresholds(2)).unwrap_err(),
        Error::MissingTensor { leaf: Leaf::Layer(1, LayerTensor::AttnK) }
    );
}

fn stream_names(layers: usize, n: usize) -> Vec<String> {
    let mut v = layer_names(
        layers,
        &[
            "altup_correct_output_scale",
            "altup_correction_coefs.weight",
            "altup_prediction_coefs.weight",
            "altup_modality_router.weight",
            "altup_router_norm.weight",
        ],
    );
    for i in 0..n - 1 {
        v.push(format!("altup_proj.{i}.weight"));
        v.push(format!("altup_unembd_proj.{i}.weight"));
    }
    v
}

#[test]
fn parallel_streams_run() {
    let mut cfg = small_config("sf");
    cfg.altup_num_inputs = 3;
    cfg.altup_active_idx = 1;
    cfg.laurel_rank = 2;
    let mut names = layer_names(2, &LAYER);
    names.extend(side_names(2));
    names.extend(stream_names(2, 3));
    names.extend(layer_names(2, &["laurel_l.weight", "laurel_r.weight", "post_laurel_norm.weight"]));
    let m = load(cfg, &names, none(2));
    assert_eq!(m.streams.unwrap().n, 3);
    let tokens = [1u32, 2, 3];
    let mut machine = Machine::new();
    machine.step(&tokens, 0, 64);
    let want = machine.run(&m.forward(1, 3, 0, &vec![3, 3]).unwrap());
    assert_eq!(want.dims, vec![1, 3, 16]);
    let mut machine = Machine::new();
    let mut got = None;
    for i in 0..3 {
        machine.step(&tokens[i..i + 1], i, 64);
        got = Some(machine.run(&m.forward(1, 1, i, &vec![i + 1, i + 1]).unwrap()));
    }
    close(&last(&want), &got.unwrap(), 1e-4);
}

#[test]
fn models_without_an_active_stream_load_and_do_not_run() {
    let mut cfg = small_config("s");
    cfg.altup_num_inputs = 2;
    cfg.altup_active_idx = 2;
    let refused = Error::ActiveStream { active: 2, n: 2 };
    let mut names = layer_names(1, &LAYER);
    names.extend(stream_names(1, 2));
    let m = load(cfg.clone(), &names, none(1));
    assert_eq!(m.forward(1, 1, 0, &vec![1]).unwrap_err(), refused);
    let t = text_model(cfg);
    let w = StepShape { batch: 1, len: 1, offset: 0 };
    assert_eq!(t.forward(&w, &vec![1]).unwrap_err(), refused);
}

#[test]
fn models_without_all_stream_weights_work_on_one_stream() {
    let mut cfg = small_config("ss");
    let plain = load(cfg.clone(), &layer_names(2, &LAYER), none(2));
    let mut machine = Machine::new();
    machine.step(&[1, 2], 0, 64);
    let want = machine.run(&plain.forward(1, 2, 0, &vec![2, 2]).unwrap());
    cfg.altup_num_inputs = 2;
    for missing in ["altup_proj.0.weight", "blk.1.altup_router_norm.weight"] {
        let mut names = layer_names(2, &LAYER);
        names.extend(stream_names(2, 2).into_iter().filter(|n| n != missing));
        let m = load(cfg.clone(), &names, none(2));
        assert_eq!(m.streams, None);
        let mut machine = Machine::new();
        machine.step(&[1, 2], 0, 64);
        assert_eq!(machine.run(&m.forward(1, 2, 0, &vec![2, 2]).unwrap()), want);
    }
}

#[test]
fn thresholds_cut_the_gates() {
    let mut cfg = small_config("ss");
    cfg.activation_sparsity_pattern = Some(vec![bits(0.95), bits(0.5)]);
    let m = ModelWeights::from_gguf(
        &file(&small_config("ss"), &layer_names(2, &LAYER)),
        cfg,
        &none(2),
        &vec![bits(1.64), bits(0.0)],
    )
    .unwrap();
    assert_eq!(m.layers[0].body.z, Some(bits(1.64)));
    assert_eq!(m.layers[1].body.z, Some(bits(0.0)));
    let cut = |share: f64| threshold(bits(share), bits(0.25));
    assert_eq!(
        [0.0, -0.0, 1.0, 2.0, -0.5, f64::NAN].map(cut),
        [None, None, None, None, None, None]
    );
    assert_eq!([1e-300, 0.5, 0.999].map(cut), [Some(bits(0.25)); 3]);
    let mut machine = Machine::new();
    machine.step(&[1], 0, 64);
    let out = machine.run(&m.forward(1, 1, 0, &vec![1, 1]).unwrap());
    assert!(out.data.iter().all(|v| v.is_finite()));
}

#[test]
fn tables_of_partial_blocks_are_refused() {
    let mut dir = file(&small_config("s"), &layer_names(1, &LAYER));
    dir.tensors[0].dtype = GgmlDType::Q8_0;
    assert_eq!(
        ModelWeights::from_gguf(&dir, small_config("s"), &none(1), &no_thresholds(1)).unwrap_err(),
        Error::PartialRow { cols: 8, block: 32 }
    );
    dir.tensors[0].dims = vec![16];
    assert_eq!(
        ModelWeights::from_gguf(&dir, small_config("s"), &none(1), &no_thresholds(1)).unwrap_err(),
        Error::BadRank { op: Op::Embedding, rank: 1 }
    );
}

// ── the unquantized model ────────────────────────────────────────────

fn checkpoint(cfg: &Gemma4TextConfig) -> Directory {
    let (h, n) = (cfg.hidden_size, cfg.altup_num_inputs);
    let mut t = vec![info("model.embed_tokens.weight", &[cfg.vocab_size, h])];
    for i in 0..cfg.num_hidden_layers {
        let d = if cfg.is_sliding(i) { cfg.head_dim } else { cfg.global_head_dim };
        let (q, kv) = (cfg.num_attention_heads * d, cfg.num_key_value_heads * d);
        let mut layer = |tail: &str, dims: &[usize]| {
            t.push(info(&format!("model.layers.{i}.{tail}"), dims));
        };
        layer("self_attn.q_proj.weight", &[q, h]);
        layer("self_attn.k_proj.weight", &[kv, h]);
        layer("self_attn.v_proj.weight", &[kv, h]);
        layer("self_attn.o_proj.weight", &[h, q]);
        if cfg.attention_bias {
            layer("self_attn.q_proj.bias", &[q]);
            layer("self_attn.k_proj.bias", &[kv]);
            layer("self_attn.v_proj.bias", &[kv]);
            layer("self_attn.o_proj.bias", &[h]);
        }
        layer("self_attn.q_norm.weight", &[d]);
        layer("self_attn.k_norm.weight", &[d]);
        layer("mlp.gate_proj.weight", &[12, h]);
        layer("mlp.up_proj.weight", &[12, h]);
        layer("mlp.down_proj.weight", &[h, 12]);
        layer("input_layernorm.weight", &[h]);
        layer("post_attention_layernorm.weight", &[h]);
        layer("pre_feedforward_layernorm.weight", &[h]);
        layer("post_feedforward_layernorm.weight", &[h]);
        layer("altup.correct_output_scale", &[h]);
        layer("altup.correction_coefs.weight", &[n, n]);
        layer("altup.prediction_coefs.weight", &[n * n, n]);
        layer("altup.modality_router.weight", &[n, h]);
        layer("altup.router_norm.weight", &[h]);
        layer("per_layer_input_gate.weight", &[6, h]);
        layer("per_layer_projection.weight", &[h, 6]);
        layer("post_per_layer_input_norm.weight", &[h]);
    }
    t.push(info("model.norm.weight", &[h]));
    t.push(info("model.per_layer_model_projection.weight", &[6 * cfg.num_hidden_layers, h]));
    t.push(info("model.per_layer_projection_norm.weight", &[6]));
    for i in 0..n - 1 {
        t.push(info(&format!("model.altup_projections.{i}.weight"), &[h, h]));
        t.push(info(&format!("model.altup_unembed_projections.{i}.weight"), &[h, h]));
    }
    Directory { tensors: t }
}

fn text_model(cfg: Gemma4TextConfig) -> TextModel {
    let n = cfg.num_hidden_layers;
    TextModel::new(&checkpoint(&cfg), cfg, DType::F32, &no_thresholds(n)).unwrap()
}

fn text_step(machine: &mut Machine, ids: &[u32], offset: usize, window: usize) -> StepShape {
    machine.ids = ids.iter().map(|i| *i as f32).collect();
    machine.masks = create_attention_masks(1, ids.len(), offset, window);
    StepShape { batch: 1, len: ids.len(), offset }
}

#[test]
fn text_steps_give_what_one_pass_gives() {
    let mut cfg = small_config("sf");
    cfg.attention_bias = true;
    let m = text_model(cfg);
    let tokens = [7u32, 0, 3, 3];
    let mut machine = Machine::new();
    let w = text_step(&mut machine, &tokens, 0, 64);
    let want = machine.run(&m.forward(&w, &vec![4, 4]).unwrap());
    assert_eq!(want.dims, vec![1, 1, 16]);
    let mut machine = Machine::new();
    let mut got = None;
    for i in 0..4 {
        let w = text_step(&mut machine, &tokens[i..i + 1], i, 64);
        got = Some(machine.run(&m.forward(&w, &vec![i + 1, i + 1]).unwrap()));
    }
    close(&want, &got.unwrap(), 1e-4);
    assert_eq!(m.clear_kv_cache(), vec![0, 1]);
}

#[test]
fn text_pieces_make_up_the_whole() {
    let mut cfg = small_config("sf");
    cfg.altup_num_inputs = 3;
    cfg.altup_active_idx = 2;
    let m = text_model(cfg);
    let tokens = [4u32, 9];
    let w = StepShape { batch: 1, len: 2, offset: 0 };
    let kv = vec![2, 2];

    let mut machine = Machine::new();
    text_step(&mut machine, &tokens, 0, 64);
    let whole = machine.run(&m.forward(&w, &kv).unwrap());

    let mut machine = Machine::new();
    text_step(&mut machine, &tokens, 0, 64);
    let embeds = machine.run(&m.embed_tokens(1, 2));
    machine.embeds = Some(embeds.clone());
    let hidden = machine.run(&m.forward_embeds_hidden(&w, &kv).unwrap());
    assert_eq!(hidden.dims, vec![1, 1, 8]);
    let mut tail = Machine::new();
    tail.embeds = Some(hidden);
    close(&whole, &tail.run(&m.lm_head(1, 1)), 1e-4);

    let mut machine = Machine::new();
    text_step(&mut machine, &tokens, 0, 64);
    machine.embeds = Some(embeds.clone());
    close(&whole, &machine.run(&m.forward_embeds(&w, &kv).unwrap()), 1e-4);

    let mut machine = Machine::new();
    text_step(&mut machine, &tokens, 0, 64);
    machine.embeds = Some(embeds);
    let side = machine.run(&m.compute_per_layer_inputs(1, 2).unwrap());
    assert_eq!(side.dims, vec![1, 2, 2, 6]);
    machine.side = Some(side);
    let aided = machine.run(&m.forward_embeds_with_per_layer(&w, true, &kv).unwrap());
    assert!(aided.data.iter().zip(&whole.data).any(|(a, b)| (a - b).abs() > 1e-3));
}

#[test]
fn text_weights_are_checked() {
    let cfg = small_config("s");
    let mut dir = checkpoint(&cfg);
    dir.tensors[1].dims = vec![1, 1];
    assert_eq!(
        TextModel::new(&dir, cfg, DType::F32, &no_thresholds(1)).unwrap_err(),
        Error::TensorShape { leaf: Leaf::Layer(0, LayerTensor::AttnQ) }
    );
    let mut cfg = small_config("s");
    cfg.tie_word_embeddings = false;
    assert_eq!(
        TextModel::new(&checkpoint(&cfg), cfg, DType::F32, &no_thresholds(1)).unwrap_err(),
        Error::MissingTensor { leaf: Leaf::Top(TopTensor::Output) }
    );
}

#[test]
fn text_refusals() {
    let m = text_model(small_config("s"));
    let at = |len, offset| StepShape { batch: 1, len, offset };
    assert_eq!(
        m.forward(&at(2, 31), &vec![33]).unwrap_err(),
        Error::PositionsOutOfRange { offset: 31, len: 2, max: 32 }
    );
    assert_eq!(
        m.forward(&at(3, 2), &vec![4]).unwrap_err(),
        Error::MaskLength { layer: 0, cached: 4, masked: 5 }
    );
    let mut cfg = small_config("s");
    cfg.head_dim = 3;
    let m = text_model(cfg);
    assert_eq!(m.forward(&at(1, 0), &vec![1]).unwrap_err(), Error::OddHeadDim { dim: 3 });
    let mut cfg = small_config("s");
    cfg.num_attention_heads = 5;
    let m = text_model(cfg);
    assert_eq!(m.forward(&at(1, 0), &vec![1]).unwrap_err(), Error::HeadsMismatch { layer: 0 });
}

#[test]
fn streams_have_their_own_projections() {
    let mut cfg = small_config("s");
    cfg.altup_num_inputs = 3;
    cfg.altup_active_idx = 1;
    let m = text_model(cfg);
    let plan = m.forward(&StepShape { batch: 1, len: 1, offset: 0 }, &vec![1]).unwrap();
    let used: Vec<usize> = (0..plan.program.len())
        .filter_map(|i| match plan.program.step(i).op {
            TOp::Leaf(Leaf::Stream(k, StreamTensor::Projection)) => Some(k),
            _ => None,
        })
        .collect();
    assert_eq!(used, vec![0, 1]);
}

// ── what programs read ───────────────────────────────────────────────

/// The weights that a program reads, each once.
fn weights_read(plan: &Plan) -> Vec<Leaf> {
    let mut out: Vec<Leaf> = Vec::new();
    for i in 0..plan.program.len() {
        if let TOp::Leaf(l) = plan.program.step(i).op {
            let weight = matches!(l, Leaf::Top(_) | Leaf::Layer(..) | Leaf::Stream(..));
            if weight && !out.contains(&l) {
                out.push(l);
            }
        }
    }
    out
}

/// Every weight that a program reads is one of the file's tensors, and has the
/// file's shape in the program.
fn assert_bound(plan: &Plan, dir: &Directory, bindings: &[Binding], at_least: usize) {
    assert!(weights_read(plan).len() >= at_least);
    for i in 0..plan.program.len() {
        let s = plan.program.step(i);
        if let TOp::Leaf(l @ (Leaf::Top(_) | Leaf::Layer(..) | Leaf::Stream(..))) = s.op {
            let b = bindings.iter().find(|b| b.leaf == l).expect("not loaded");
            assert_eq!(s.ty.dims, dir.tensors[b.tensor].dims, "{l:?}");
        }
    }
}

#[test]
fn passes_read_what_was_loaded() {
    let mut cfg = small_config("sf");
    cfg.altup_num_inputs = 3;
    cfg.laurel_rank = 2;
    let mut names = layer_names(2, &LAYER);
    names.extend(side_names(2));
    names.extend(stream_names(2, 3));
    names.extend(layer_names(2, &["laurel_l.weight", "laurel_r.weight", "post_laurel_norm.weight"]));
    let dir = file(&cfg, &names);
    let m = load(cfg.clone(), &names, vec![None, None]);
    assert_bound(&m.forward(1, 2, 0, &vec![2, 2]).unwrap(), &dir, &m.bindings, 40);

    let mut small = e2b("ssff", vec![None, Some(0), None, Some(2)], 64);
    let plan = small.forward(1, 2, 0).unwrap();
    let dir = file(&small_config("ssff"), &e2b_names(4));
    assert_bound(&plan, &dir, &small.bindings, 40);
    let values = |l: &Leaf| matches!(l, Leaf::Layer(1 | 3, LayerTensor::AttnV));
    assert!(!weights_read(&plan).iter().any(values));

    let dir = checkpoint(&cfg);
    let t = text_model(cfg);
    let w = StepShape { batch: 1, len: 2, offset: 0 };
    let kv = vec![2, 2];
    assert_bound(&t.forward(&w, &kv).unwrap(), &dir, &t.bindings, 30);
    let aided = t.forward_embeds_with_per_layer(&w, true, &kv).unwrap();
    assert_bound(&aided, &dir, &t.bindings, 30);
    assert_bound(&t.compute_per_layer_inputs(1, 2).unwrap(), &dir, &t.bindings, 2);
}

#[test]
fn layers_have_names_of_their_own() {
    let m = e2b("ssssssssssss", none(12), 64);
    let mut tensors: Vec<usize> = m
        .bindings
        .iter()
        .filter(|b| matches!(b.leaf, Leaf::Layer(..)))
        .map(|b| b.tensor)
        .collect();
    let n = tensors.len();
    tensors.sort();
    tensors.dedup();
    assert_eq!(tensors.len(), n);
}

#[test]
fn cleared_models_start_over() {
    let run = |m: &mut quantized_e2b::ModelWeights| {
        let mut machine = Machine::new();
        machine.step(&[5, 6], 0, 4);
        machine.run(&m.forward(1, 2, 0).unwrap())
    };
    let mut m = e2b("sf", none(2), 4);
    let want = run(&mut m);
    for i in 2..7 {
        m.forward(1, 1, i).unwrap();
    }
    assert_eq!((m.caches[0].len(), m.caches[1].len()), (4, 7));
    m.clear_kv_cache();
    assert_eq!((m.caches[0].len(), m.caches[1].len()), (0, 0));
    assert_eq!(run(&mut m), want);
}

// ── configuration ────────────────────────────────────────────────────

#[test]
fn configuration_rules() {
    let mut cfg = small_config("sf");
    assert!(cfg.is_sliding(0) && !cfg.is_sliding(1) && !cfg.is_sliding(2));
    assert_eq!(cfg.effective_sliding_window(), 64);
    cfg.use_bidirectional_attention = Some("all".to_string());
    assert_eq!(cfg.effective_sliding_window(), 33);
    cfg.intermediate_sizes = Some(vec![20]);
    assert_eq!((cfg.intermediate_size_at(0), cfg.intermediate_size_at(1)), (20, 12));
    assert_eq!(cfg.partial_rotary_factor(), bits(0.25));
    assert_eq!(cfg.rope_local_base_freq(), bits(10_000.0));
    cfg.activation_sparsity_pattern = Some(vec![bits(0.9)]);
    assert_eq!(cfg.activation_sparsity_at(0), bits(0.9));
    assert_eq!(cfg.activation_sparsity_at(1), bits(0.0));
    let part = |theta: f64| Gemma4RopeLayerParams {
        rope_theta: Some(bits(theta)),
        rope_type: None,
        partial_rotary_factor: Some(bits(0.5)),
    };
    cfg.rope_parameters = Some(Gemma4RopeParameters {
        full_attention: Some(part(3.0)),
        sliding_attention: Some(part(4.0)),
        rope_theta: None,
        rope_type: None,
        partial_rotary_factor: None,
    });
    assert_eq!(cfg.partial_rotary_factor(), bits(0.5));
    assert_eq!(cfg.rope_local_base_freq(), bits(4.0));
}

#[test]
fn configuration_defaults() {
    assert_eq!(default_head_dim(), 256);
    assert_eq!(default_rms_norm_eps(), bits(1e-6));
    assert_eq!(default_rope_theta(), bits(1_000_000.0));
    assert_eq!(default_output_proj_dims(), Some(1536));
    assert_eq!(default_sscp_conv_kernel_size(), vec![vec![3, 3], vec![3, 3]]);
    let vision = |rp| Gemma4VisionConfig {
        hidden_size: 1,
        intermediate_size: 1,
        num_hidden_layers: 1,
        num_attention_heads: 1,
        num_key_value_heads: 1,
        head_dim: 1,
        hidden_activation: Activation::Gelu,
        rms_norm_eps: bits(0.0),
        patch_size: 1,
        position_embedding_size: 1,
        pooling_kernel_size: 1,
        default_output_length: 1,
        standardize: false,
        rope_parameters: rp,
    };
    assert_eq!(vision(None).rope_theta(), bits(100.0));
    let common = Gemma4RopeParameters {
        full_attention: None,
        sliding_attention: None,
        rope_theta: Some(bits(7.0)),
        rope_type: None,
        partial_rotary_factor: None,
    };
    assert_eq!(vision(Some(common)).rope_theta(), bits(7.0));
}

fn entry(key: &str, number: u32) -> MetaEntry {
    MetaEntry { key: key.to_string(), number: Some(number), float: None, array: None }
}

fn float(key: &str, x: f64) -> MetaEntry {
    MetaEntry { key: key.to_string(), number: None, float: Some(bits(x)), array: None }
}

fn array(key: &str, a: Vec<MetaElement>) -> MetaEntry {
    MetaEntry { key: key.to_string(), number: None, float: None, array: Some(a) }
}

fn metadata(prefix: &str, layers: u32) -> Vec<MetaEntry> {
    let key = |t: &str| format!("{prefix}.{t}");
    vec![
        entry(&key("attention.head_count"), 8),
        entry(&key("attention.head_count_kv"), 1),
        entry(&key("block_count"), layers),
        entry(&key("embedding_length"), 1536),
        entry(&key("feed_forward_length"), 6144),
        entry(&key("attention.key_length"), 512),
        float(&key("attention.layer_norm_rms_epsilon"), 1e-6),
        entry(&key("context_length"), 131072),
    ]
}

#[test]
fn metadata_with_defaults() {
    let dir = file(&small_config("s"), &[]);
    let cfg = build_config_from_gguf(&Metadata { entries: metadata("gemma4", 35) }, &dir).unwrap();
    assert_eq!(cfg.vocab_size, 16);
    assert_eq!((cfg.head_dim, cfg.global_head_dim), (512, 512));
    assert_eq!(cfg.sliding_window, 512);
    assert_eq!(cfg.num_kv_shared_layers, 20);
    assert_eq!(cfg.layer_types.len(), 35);
    assert!(cfg.is_sliding(3) && !cfg.is_sliding(4) && cfg.is_sliding(5) && !cfg.is_sliding(34));
    assert_eq!(cfg.sliding_window_pattern, 5);
    assert_eq!(cfg.rope_theta, bits(1_000_000.0));
    assert_eq!(cfg.rope_local_base_freq(), bits(10_000.0));
    assert_eq!(cfg.final_logit_softcapping, None);
    assert!(cfg.tie_word_embeddings && cfg.disable_altup && cfg.disable_laurel);
}

#[test]
fn metadata_with_everything() {
    let mut md = metadata("gemma3", 3);
    md[4] = array(
        "gemma3.feed_forward_length",
        vec![MetaElement::Unsigned(5), MetaElement::Signed(6), MetaElement::Signed(7)],
    );
    md.push(array(
        "gemma3.attention.sliding_window_pattern",
        vec![MetaElement::Flag(true), MetaElement::Flag(false)],
    ));
    md.push(entry("gemma3.attention.key_length_swa", 256));
    md.push(entry("gemma3.attention.kv_shared_layers", 2));
    md.push(float("gemma3.final_logit_softcapping", 30.0));
    md.push(entry("gemma3.embedding_length_per_layer_input", 256));
    let cfg = build_config_from_gguf(&Metadata { entries: md }, &file(&small_config("s"), &[])).unwrap();
    assert_eq!(cfg.intermediate_size, 5);
    assert_eq!(cfg.intermediate_sizes, Some(vec![5, 6, 7]));
    assert_eq!((cfg.head_dim, cfg.global_head_dim), (256, 512));
    assert_eq!(cfg.layer_types, types("sfs"));
    assert_eq!(cfg.sliding_window_pattern, 2);
    assert_eq!(cfg.num_kv_shared_layers, 2);
    assert_eq!(cfg.final_logit_softcapping, Some(bits(30.0)));
    assert_eq!(cfg.hidden_size_per_layer_input, Some(256));
}

#[test]
fn metadata_refusals() {
    let build = |entries, dir: &Directory| build_config_from_gguf(&Metadata { entries }, dir);
    let mut md = metadata("gemma4", 1);
    md.remove(3);
    assert_eq!(
        build(md, &file(&small_config("s"), &[])).unwrap_err(),
        Error::MissingMetadata { key: MetaKey::EmbeddingLength }
    );
    let mut md = metadata("gemma4", 1);
    md[6].float = None;
    assert_eq!(
        build(md, &file(&small_config("s"), &[])).unwrap_err(),
        Error::MetadataType { key: MetaKey::RmsEpsilon }
    );
    let mut md = metadata("gemma4", 1);
    md[4] = array("gemma4.feed_forward_length", vec![MetaElement::Other]);
    assert_eq!(
        build(md, &file(&small_config("s"), &[])).unwrap_err(),
        Error::MetadataType { key: MetaKey::FeedForwardLength }
    );
    assert_eq!(
        build(metadata("gemma4", 1), &Directory { tensors: Vec::new() }).unwrap_err(),
        Error::MissingTensor { leaf: Leaf::Top(TopTensor::TokenEmbedding) }
    );
    let mut md = metadata("gemma4", 1);
    md.push(entry("gemma4.attention.sliding_window_type", 0));
    assert_eq!(
        build(md, &Directory { tensors: Vec::new() }).unwrap_err(),
        Error::MissingTensor { leaf: Leaf::Top(TopTensor::TokenEmbedding) }
    );
    let mut md = metadata("gemma4", 0);
    md.push(entry("gemma4.attention.sliding_window_type", 0));
    assert!(build(md, &file(&small_config("s"), &[])).unwrap().layer_types.is_empty());
}

#[test]
fn layers_that_are_not_reached_may_have_no_keys() {
    let lacks_query = Error::MissingTensor { leaf: Leaf::Layer(0, LayerTensor::AttnQ) };
    let mut cfg = small_config("sf");
    cfg.num_global_key_value_heads = Some(0);
    assert_eq!(
        ModelWeights::from_gguf(&file(&cfg, &[]), cfg, &none(2), &no_thresholds(2)).unwrap_err(),
        lacks_query
    );
    let mut cfg = small_config("s");
    cfg.num_key_value_heads = 0;
    assert_eq!(
        quantized_e2b::ModelWeights::from_gguf(&file(&cfg, &[]), cfg, &none(1), true).unwrap_err(),
        lacks_query
    );
    let mut cfg = small_config("s");
    cfg.num_key_value_heads = 0;
    let empty = Directory { tensors: Vec::new() };
    assert_eq!(
        TextModel::new(&empty, cfg, DType::F32, &no_thresholds(1)).unwrap_err(),
        Error::MissingTensor { leaf: Leaf::Top(TopTensor::TokenEmbedding) }
    );
}

// ── masks, caches, tables ────────────────────────────────────────────

fn drawn(m: &Mask) -> Vec<String> {
    m.bits
        .chunks(m.cols)
        .map(|r| r.iter().map(|b| if *b == 0 { '.' } else { 'x' }).collect())
        .collect()
}

#[test]
fn masks_hide_what_comes_later() {
    assert_eq!(drawn(&prepare_attention_mask(1, 3, 1)), vec!["..xx", "...x", "...."]);
    assert_eq!(drawn(&prepare_sliding_attention_mask(1, 3, 1, 2)), vec!["..xx", "x..x", "xx.."]);
    assert_eq!(
        drawn(&prepare_decoder_attention_mask(1, 3, 1, None)),
        vec!["..xx", "...x", "...."]
    );
    assert_eq!(
        drawn(&prepare_decoder_attention_mask(1, 4, 0, Some(1))),
        vec![".xxx", "..xx", "x..x", "xx.."]
    );
    assert!(create_attention_masks(1, 1, 5, 4).is_none());
    let (full, sliding) = create_attention_masks(2, 3, 0, 1).unwrap();
    assert_eq!((full.batch, full.rows, full.cols), (2, 3, 3));
    assert_eq!(drawn(&sliding), vec![".xx", "..x", "x.."]);
}

#[test]
fn caches_keep_their_window() {
    let mut c = KvCache::new(Some(3));
    assert_eq!(c.append(1, &[1, 2]), Ok(vec![1, 2]));
    assert_eq!(c.append(1, &[3, 4]), Ok(vec![2, 3, 4]));
    assert_eq!(c.append(2, &[5]), Err(Error::CachedBatch { cached: 1, got: 2 }));
    assert_eq!((c.len(), c.batch()), (3, Some(1)));
    let mut all = KvCache::new(Some(3));
    assert_eq!(all.append(1, &[1, 2, 3, 4]), Ok(vec![2, 3, 4]));
    c.reset();
    assert_eq!((c.len(), c.window(), c.batch()), (0, Some(3), None));
    let mut free = KvCache::new(None);
    free.append(2, &[1, 2, 3]).unwrap();
    assert_eq!(free.append(2, &[4]).unwrap().len(), 4);
}

#[test]
fn an_empty_store_has_no_donor() {
    let s = SharedKvStore::new(2);
    assert_eq!(s.get(1, 0).unwrap_err(), Error::NoDonor { layer: 1, donor: 0 });
    assert_eq!(s.get(1, 7).unwrap_err(), Error::NoDonor { layer: 1, donor: 7 });
}

#[test]
fn rows_of_a_quantized_table() {
    let t = QEmbedding::new(&vec![4, 64], GgmlDType::Q8_0).unwrap();
    let (rows, shape) = t.forward(&[3, 0], &vec![1, 2], 4 * 68).unwrap();
    assert_eq!(shape, vec![1, 2, 64]);
    assert_eq!((rows[0].start, rows[0].end), (204, 272));
    assert_eq!((rows[1].start, rows[1].end), (0, 68));
    assert_eq!(
        t.forward(&[4], &vec![1], 272).unwrap_err(),
        Error::IndexOutOfRange { index: 4, rows: 4 }
    );
    assert_eq!(
        t.forward(&[3], &vec![1], 100).unwrap_err(),
        Error::RowOutOfBounds { start: 204, end: 272, len: 100 }
    );
    assert_eq!(
        QEmbedding::with_storage(&vec![4, 64], GgmlDType::Q8_0, 271).unwrap_err(),
        Error::StorageSize { expected: 272, got: 271 }
    );
}

#[test]
fn rotated_parts_of_a_head() {
    assert_eq!(rotary_frequencies(4), vec![Some(0), Some(2)]);
    assert_eq!(proportional_frequencies(8, 1), vec![Some(0), None, None, None]);
    assert_eq!(proportional_frequencies(4, 2), rotary_frequencies(4));
}

// ── reports ──────────────────────────────────────────────────────────

#[test]
fn the_largest_logit_wins() {
    let b = |v: &[f32]| v.iter().map(|x| x.to_bits()).collect::<Vec<u32>>();
    assert_eq!(greedy_argmax(&b(&[-1.0, 2.0, 0.5, 2.0])), 1);
    assert_eq!(greedy_argmax(&b(&[-3.0, -2.0])), 1);
    assert_eq!(greedy_argmax(&b(&[f32::NAN, f32::NEG_INFINITY])), 0);
    assert_eq!(greedy_argmax(&b(&[f32::NAN, -1.0, f32::INFINITY])), 2);
    assert_eq!(greedy_argmax(&b(&[-0.0, 0.0])), 0);
}

#[test]
fn reports_are_one_line() {
    assert_eq!(escape("a\\b\nc"), "a\\\\b\\nc");
    assert_eq!(step_line(3, 107, "\n"), "[step 3] id=107 token=\\n");
    let all = next_input(&vec![5, 6, 7], true);
    assert_eq!((all.ids, all.offset), (vec![5, 6, 7], 0));
    let last = next_input(&vec![5, 6, 7], false);
    assert_eq!((last.ids, last.offset), (vec![7], 2));
}

#[test]
fn dumped_tensors() {
    assert_eq!(dump_name(7, 12, "00_input"), "step0007_layer012_00_input.bin");
    assert_eq!(dump_name(12345, 1234, "x"), "step12345_layer1234_x.bin");
    let bytes = dump_bytes(&vec![2], &vec![1.0f32.to_bits(), 0]);
    assert_eq!(&bytes[..5], b"BST1\x01");
    assert_eq!(&bytes[5..14], &[2, 0, 0, 0, 0, 0, 0, 0, 0]);
    assert_eq!(&bytes[14..], &[0, 0, 0x80, 0x3f, 0, 0, 0, 0]);
    assert_eq!(enabled(true, Some("d".to_string())), None);
    assert_eq!(enabled(false, Some("d".to_string())), Some("d".to_string()));
}
