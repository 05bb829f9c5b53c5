//! Fused attention of one query position.

use candle_wgpu::cpu_storage::CpuStorage;
use candle_wgpu::device::{AdapterFeatures, WgpuDevice};
use candle_wgpu::dtype::DType;
use candle_wgpu::error::{Error, Op};
use candle_wgpu::flash_attn::{
    decode_mask, flash_attn_decode, plan_host_decode, DecodeBuffer, DecodeCommand, NO_WINDOW,
};
use candle_wgpu::layout::Layout;
use candle_wgpu::ops::dispatch::Groups;
use candle_wgpu::storage::WgpuStorage;

fn upload(data: &[f32]) -> WgpuStorage {
    let device = WgpuDevice::from_adapter(1, AdapterFeatures { shader_f16: false, dp4a: false });
    let cpu = CpuStorage::F32(data.iter().map(|v| v.to_bits()).collect());
    WgpuStorage::from_cpu_storage(device, &cpu).unwrap()
}

/// Softmax over the visible positions, the maximum taken off first, and the
/// weighted values.
fn attend(scores: &[f32], visible: &[bool], v: &[f32], d: usize) -> Vec<f32> {
    let top = (0..scores.len())
        .filter(|i| visible[*i])
        .map(|i| scores[i])
        .fold(f32::NEG_INFINITY, f32::max);
    let w: Vec<f32> = (0..scores.len())
        .map(|i| if visible[i] { (scores[i] - top).exp() } else { 0.0 })
        .collect();
    let sum: f32 = w.iter().sum();
    (0..d).map(|e| (0..w.len()).map(|i| w[i] * v[i * d + e]).sum::<f32>() / sum).collect()
}

/// What the host computes in place of the kernel.
fn on_host(q: &[f32], k: &[f32], v: &[f32], dims: [usize; 4], window: Option<u32>) -> Vec<f32> {
    let [b, h, kv, d] = dims;
    let plan = plan_host_decode(
        DType::F32,
        &Layout::contiguous(vec![b, h, 1, d]),
        DType::F32,
        &Layout::contiguous(vec![b, h, kv, d]),
        DType::F32,
        &Layout::contiguous(vec![b, h, kv, d]),
        window,
    )
    .unwrap();
    assert_eq!(plan.shape, vec![b, h, 1, d]);
    let visible: Vec<bool> = plan.hidden.iter().map(|x| !x).collect();
    let mut out = vec![0f32; b * h * d];
    for s in &plan.heads {
        let scores: Vec<f32> = (0..plan.kv_len)
            .map(|i| (0..d).map(|e| q[s.q_base + e] * k[s.k_base + i * d + e]).sum())
            .collect();
        let row = attend(&scores, &visible, &v[s.v_base..s.v_base + kv * d], d);
        out[s.out_base..s.out_base + d].copy_from_slice(&row);
    }
    out
}

/// What the kernel computes: one workgroup for each head.
fn on_device(c: &DecodeCommand, q: &[f32], k: &[f32], v: &[f32]) -> Vec<f32> {
    let p: Vec<usize> = c.params.iter().map(|w| *w as usize).collect();
    let (b, h, d, kv) = (p[0], p[1], p[3], p[4]);
    assert_eq!(c.groups, Groups { x: (b * h) as u32, y: 1, z: 1 });
    assert_eq!(
        c.bindings,
        vec![
            DecodeBuffer::Output,
            DecodeBuffer::Query,
            DecodeBuffer::Keys,
            DecodeBuffer::Values
        ]
    );
    let visible: Vec<bool> = (0..kv)
        .map(|i| c.params[5] == NO_WINDOW || i + p[5] > kv - 1)
        .collect();
    let mut out = Vec::new();
    for g in 0..b * h {
        let scores: Vec<f32> = (0..kv)
            .map(|i| (0..d).map(|e| q[p[6] + g * d + e] * k[p[7] + (g * kv + i) * d + e]).sum())
            .collect();
        let at = p[7] + g * kv * d;
        out.extend(attend(&scores, &visible, &v[at..at + kv * d], d));
    }
    out
}

fn compare(q: &[f32], k: &[f32], v: &[f32], dims: [usize; 4], window: Option<u32>) {
    let [b, h, kv, d] = dims;
    let (lq, lk) = (Layout::contiguous(vec![b, h, 1, d]), Layout::contiguous(vec![b, h, kv, d]));
    let (s, shape, c) =
        flash_attn_decode(&upload(q), &lq, &upload(k), &lk, &upload(v), &lk, window).unwrap();
    assert_eq!(shape, vec![b, h, 1, d]);
    assert_eq!(s.len, b * h * d);
    let host = on_host(q, k, v, dims, window);
    let gpu = on_device(&c, q, k, v);
    assert_eq!(host.len(), gpu.len());
    for (i, (c, g)) in host.iter().zip(gpu.iter()).enumerate() {
        let diff = (c - g).abs();
        let rel = diff / c.abs().max(1e-6);
        assert!(diff < 1e-3 || rel < 1e-3, "divergence at {i}: host={c} gpu={g} diff={diff}");
    }
}

#[test]
fn flash_attn_decode_wgpu_matches_cpu_no_sliding() {
    let (b, h, kv, d) = (1usize, 2usize, 8usize, 64usize);
    let q: Vec<f32> = (0..b * h * d).map(|i| ((i as f32) * 0.013 - 0.5).sin()).collect();
    let k: Vec<f32> = (0..b * h * kv * d).map(|i| ((i as f32) * 0.017 + 0.25).cos()).collect();
    let v: Vec<f32> = (0..b * h * kv * d).map(|i| ((i as f32) * 0.011 - 0.1).sin()).collect();
    compare(&q, &k, &v, [b, h, kv, d], None);
}

#[test]
fn flash_attn_decode_wgpu_matches_cpu_sliding() {
    let (b, h, kv, d) = (1usize, 2usize, 16usize, 64usize);
    let q: Vec<f32> = (0..b * h * d).map(|i| ((i as f32) * 0.019 + 0.1).cos()).collect();
    let k: Vec<f32> = (0..b * h * kv * d).map(|i| ((i as f32) * 0.021 - 0.3).sin()).collect();
    let v: Vec<f32> = (0..b * h * kv * d).map(|i| ((i as f32) * 0.023 + 0.7).cos()).collect();
    compare(&q, &k, &v, [b, h, kv, d], Some(4));
}

#[test]
fn a_window_shows_the_last_positions() {
    assert_eq!(decode_mask(5, Some(2)), vec![true, true, true, false, false]);
    assert_eq!(decode_mask(3, None), vec![false, false, false]);
    assert_eq!(decode_mask(2, Some(9)), vec![false, false]);
}

#[test]
fn decode_refusals() {
    let s = upload(&[0.0; 256]);
    let l = |t: usize, d: usize| Layout::contiguous(vec![1, 1, t, d]);
    let run = |lq: &Layout, lk: &Layout, lv: &Layout| {
        flash_attn_decode(&s, lq, &s, lk, &s, lv, None).unwrap_err()
    };
    let op = Op::FlashAttnDecode;
    assert_eq!(run(&l(2, 64), &l(2, 64), &l(2, 64)), Error::QueryLength { got: 2 });
    assert_eq!(run(&l(1, 64), &l(2, 32), &l(2, 64)), Error::ShapeMismatch { op });
    assert_eq!(run(&l(1, 64), &l(2, 64), &l(3, 64)), Error::ShapeMismatch { op });
    let flat = Layout::contiguous(vec![1, 64]);
    assert_eq!(run(&flat, &l(2, 64), &l(2, 64)), Error::BadRank { op, rank: 2 });
}

#[test]
fn only_the_window_matters() {
    let (kv, d) = (6usize, 2usize);
    let (lq, lk) = (Layout::contiguous(vec![1, 2, 1, d]), Layout::contiguous(vec![1, 2, kv, d]));
    let f = DType::F32;
    let plan = |w| plan_host_decode(f, &lq, f, &lk, f, &lk, w).unwrap();
    let q: Vec<u32> = (0..4).collect();
    let k: Vec<u32> = (100..124).collect();
    let mut other = k.clone();
    for head in 0..2 {
        for x in &mut other[head * kv * d..(head * kv + 4) * d] {
            *x += 1000;
        }
    }
    let two = plan(Some(2));
    assert_eq!(two.first, 4);
    for head in 0..2 {
        let h = two.inputs(head, &q, &k, &k);
        assert_eq!(h, two.inputs(head, &q, &other, &other));
        let at = (100 + head * kv * d + 8) as u32;
        assert_eq!(h.keys, vec![vec![at, at + 1], vec![at + 2, at + 3]]);
        assert_eq!(h.query, vec![2 * head as u32, 2 * head as u32 + 1]);
        let all = plan(None).inputs(head, &q, &k, &k);
        assert_eq!(all.values.len(), kv);
        assert_eq!(all, plan(Some(6)).inputs(head, &q, &k, &k));
        assert!(plan(Some(0)).inputs(head, &q, &k, &k).keys.is_empty());
    }
}
