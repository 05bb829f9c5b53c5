//! Quantized tensors: packing, products and unpacking, carried out in
//! software and held against plain loops.

use candle_wgpu::cpu_storage::CpuStorage;
use candle_wgpu::device::{AdapterFeatures, WgpuDevice};
use candle_wgpu::dtype::{DType, GgmlDType};
use candle_wgpu::error::{Error, Op};
use candle_wgpu::layout::Layout;
use candle_wgpu::ops::dispatch::Groups;
use candle_wgpu::quantized::command::{QBuffer, QCommand, QFunction, Work};
use candle_wgpu::quantized::matmul::{
    get_best_algorithm, FwdPlan, FwdStep, QExtents, QuantizedMatmulAlgorithm,
};
use candle_wgpu::quantized::q8k::{peak, quantize_row_to_q8k, BlockQ8K, BLOCK_BYTES, QK_K};
use candle_wgpu::quantized::storage::{load_quantized, DequantizePlan, QWgpuStorage};
use candle_wgpu::storage::WgpuStorage;
use half::f16;
use rand::rngs::StdRng;
use rand::{Rng, SeedableRng};

fn device() -> WgpuDevice {
    WgpuDevice::from_adapter(1, AdapterFeatures { shader_f16: false, dp4a: true })
}

// ── packing of rows ──────────────────────────────────────────────────

/// The blocks of a row, element by element, as the host packs them.
fn host_blocks(xs: &[f32]) -> Vec<u8> {
    assert_eq!(xs.len() % QK_K, 0);
    let mut bytes = Vec::new();
    for row in xs.chunks(QK_K) {
        let (mut max, mut amax) = (0f32, 0f32);
        for x in row {
            if amax < x.abs() {
                amax = x.abs();
                max = *x;
            }
        }
        let (mut d, mut qs) = (0f32, vec![0i8; QK_K]);
        if amax != 0.0 {
            let iscale = -128f32 / max;
            for (q, x) in qs.iter_mut().zip(row) {
                *q = (iscale * x).round().min(127.0) as i8;
            }
            d = 1.0 / iscale;
        }
        bytes.extend(d.to_le_bytes());
        bytes.extend(qs.iter().map(|q| *q as u8));
        for g in qs.chunks(16) {
            let sum: i16 = g.iter().map(|q| *q as i16).sum();
            bytes.extend(sum.to_le_bytes());
        }
    }
    bytes
}

/// Carries out the command that packs a row: one workgroup for each block.
fn run_pack(c: &QCommand, xs: &[f32]) -> Vec<u8> {
    assert_eq!(c.pipeline.function, QFunction::QuantizeRowToQ8k);
    assert_eq!(c.params, vec![xs.len()]);
    let groups = match c.work {
        Work::Groups(Groups { x, y: 1, z: 1 }) => x as usize,
        w => panic!("{w:?}"),
    };
    let mut bytes = Vec::new();
    for g in 0..groups {
        let row = &xs[g * QK_K..(g + 1) * QK_K];
        let bits: Vec<u32> = row.iter().map(|x| x.to_bits()).collect();
        let block = match peak(&bits) {
            None => BlockQ8K { d: 0, qs: vec![0; QK_K] },
            Some(p) => {
                let iscale = -128f32 / row[p];
                let qs = row.iter().map(|x| (iscale * x).round().min(127.0) as i8).collect();
                BlockQ8K { d: (1.0 / iscale).to_bits(), qs }
            }
        };
        bytes.extend(block.to_bytes());
    }
    bytes
}

fn assert_byte_identical(label: &str, xs: &[f32]) {
    let (dst, c) = quantize_row_to_q8k(&device(), xs.len()).unwrap();
    let n_blocks = xs.len() / QK_K;
    assert_eq!(dst.dtype, DType::U32);
    assert_eq!(dst.buffer.size as usize, n_blocks * BLOCK_BYTES);
    let cpu = host_blocks(xs);
    let gpu = run_pack(&c, xs);
    assert_eq!(cpu.len(), gpu.len(), "{label}: length mismatch");
    for i in 0..cpu.len() {
        assert_eq!(cpu[i], gpu[i], "{label}: byte {} of block {}", i % 292, i / 292);
    }
}

#[test]
fn q8k_quantize_wgpu_random_sweep() {
    let mut rng = StdRng::seed_from_u64(0xC4_5DE_8E1_F00DA);
    for &k in &[256usize, 512, 1024, 2048, 4096] {
        let xs: Vec<f32> = (0..k).map(|_| (rng.random::<f32>() - 0.5) * 4.0).collect();
        assert_byte_identical(&format!("random k={k}"), &xs);
    }
}

#[test]
fn q8k_quantize_wgpu_all_zero() {
    let xs = vec![0.0f32; 512];
    assert_byte_identical("all-zero", &xs);
    assert!(host_blocks(&xs).iter().all(|b| *b == 0));
}

#[test]
fn q8k_quantize_wgpu_single_spike() {
    let mut xs = vec![0.01f32; QK_K];
    xs[100] = 12.34;
    assert_byte_identical("single positive spike", &xs);
}

#[test]
fn q8k_quantize_wgpu_negative_spike() {
    let mut xs = vec![0.01f32; QK_K];
    xs[200] = -7.5;
    assert_byte_identical("single negative spike", &xs);
    let (_, c) = quantize_row_to_q8k(&device(), QK_K).unwrap();
    assert_eq!(run_pack(&c, &xs)[4 + 200] as i8, -128);
}

#[test]
fn q8k_quantize_wgpu_tied_magnitude() {
    let mut xs = vec![0.001f32; QK_K];
    xs[10] = 5.0;
    xs[200] = -5.0;
    assert_byte_identical("tied magnitude (positive first)", &xs);
    let mut xs2 = vec![0.001f32; QK_K];
    xs2[10] = -5.0;
    xs2[200] = 5.0;
    assert_byte_identical("tied magnitude (negative first)", &xs2);
    let bits: Vec<u32> = xs.iter().map(|x| x.to_bits()).collect();
    assert_eq!(peak(&bits), Some(10));
}

#[test]
fn q8k_quantize_wgpu_uniform_row() {
    let xs = vec![0.5f32; QK_K];
    assert_byte_identical("uniform positive", &xs);
    let xs2 = vec![-0.5f32; QK_K];
    assert_byte_identical("uniform negative", &xs2);
    let block = BlockQ8K { d: 0, qs: vec![-128; QK_K] };
    assert_eq!(block.bsums(), vec![-2048i16; 16]);
}

#[test]
fn a_row_must_fill_its_blocks() {
    assert_eq!(
        quantize_row_to_q8k(&device(), 300).unwrap_err(),
        Error::PartialBlock { elems: 300, block: 256 }
    );
}

// ── products with 4-bit weights ──────────────────────────────────────

/// Packs a row into 4-bit blocks of 256: eight groups of 32, each with a
/// 6-bit scale and a 6-bit minimum.
fn pack_q4k(xs: &[f32]) -> Vec<u8> {
    let mut out = Vec::new();
    for row in xs.chunks(QK_K) {
        let (mut scales, mut mins) = ([0f32; 8], [0f32; 8]);
        for (g, group) in row.chunks(32).enumerate() {
            let lo = group.iter().copied().fold(0f32, f32::min);
            let hi = group.iter().copied().fold(0f32, f32::max);
            scales[g] = (hi - lo) / 15.0;
            mins[g] = -lo;
        }
        let top = |v: &[f32; 8]| v.iter().copied().fold(0f32, f32::max);
        let d = f16::from_f32(top(&scales) / 63.0);
        let dmin = f16::from_f32(top(&mins) / 63.0);
        let six = |v: f32, unit: f32| {
            if unit == 0.0 {
                0u8
            } else {
                (v / unit).round().min(63.0) as u8
            }
        };
        let sc: Vec<u8> = scales.iter().map(|v| six(*v, d.to_f32())).collect();
        let mn: Vec<u8> = mins.iter().map(|v| six(*v, dmin.to_f32())).collect();
        out.extend(d.to_bits().to_le_bytes());
        out.extend(dmin.to_bits().to_le_bytes());
        let mut packed = [0u8; 12];
        for j in 0..8 {
            if j < 4 {
                packed[j] |= sc[j];
                packed[j + 4] |= mn[j];
            } else {
                packed[j + 4] = (sc[j] & 15) | ((mn[j] & 15) << 4);
                packed[j - 4] |= (sc[j] >> 4) << 6;
                packed[j] |= (mn[j] >> 4) << 6;
            }
        }
        out.extend(packed);
        let level = |i: usize| -> u8 {
            let g = i / 32;
            let step = d.to_f32() * sc[g] as f32;
            if step == 0.0 {
                return 0;
            }
            let v = (row[i] + dmin.to_f32() * mn[g] as f32) / step;
            v.round().clamp(0.0, 15.0) as u8
        };
        for j in (0..QK_K).step_by(64) {
            for l in 0..32 {
                out.push(level(j + l) | (level(j + l + 32) << 4));
            }
        }
    }
    out
}

/// Scale, minimum and 4-bit levels of one 4-bit block.
struct Q4Block {
    d: f32,
    dmin: f32,
    sc: [i32; 8],
    mn: [i32; 8],
    q: Vec<i32>,
}

fn unpack_q4k(b: &[u8]) -> Q4Block {
    let half = |i: usize| f16::from_bits(u16::from_le_bytes([b[i], b[i + 1]])).to_f32();
    let s = &b[4..16];
    let (mut sc, mut mn) = ([0i32; 8], [0i32; 8]);
    for j in 0..8 {
        if j < 4 {
            sc[j] = (s[j] & 63) as i32;
            mn[j] = (s[j + 4] & 63) as i32;
        } else {
            sc[j] = ((s[j + 4] & 15) | ((s[j - 4] >> 6) << 4)) as i32;
            mn[j] = ((s[j + 4] >> 4) | ((s[j] >> 6) << 4)) as i32;
        }
    }
    let mut q = vec![0i32; QK_K];
    for j in 0..4 {
        for l in 0..32 {
            let byte = b[16 + 32 * j + l];
            q[64 * j + l] = (byte & 15) as i32;
            q[64 * j + l + 32] = (byte >> 4) as i32;
        }
    }
    Q4Block { d: half(0), dmin: half(2), sc, mn, q }
}

/// The integer product of 4-bit rows with one packed row, as the command
/// says: one workgroup for each output.
fn run_packed_product(c: &QCommand, weights: &[u8], row: &[u8]) -> Vec<f32> {
    assert_eq!(c.pipeline.function, QFunction::MatmulQ4kQ8kM1);
    let (m, k, n) = (c.params[0], c.params[1], c.params[2]);
    assert_eq!(m, 1);
    let outputs = match c.work {
        Work::Groups(Groups { x, y: 1, z: 1 }) => x as usize,
        w => panic!("{w:?}"),
    };
    assert_eq!(outputs, n);
    let blocks = k / QK_K;
    let mut out = Vec::new();
    for o in 0..outputs {
        let mut acc = 0f32;
        for b in 0..blocks {
            let w = unpack_q4k(&weights[(o * blocks + b) * 144..(o * blocks + b + 1) * 144]);
            let y = &row[b * BLOCK_BYTES..(b + 1) * BLOCK_BYTES];
            let dy = f32::from_le_bytes([y[0], y[1], y[2], y[3]]);
            let (mut dot, mut low) = (0i32, 0i32);
            for g in 0..8 {
                let mut s = 0i32;
                for l in 0..32 {
                    s += w.q[32 * g + l] * (y[4 + 32 * g + l] as i8) as i32;
                }
                dot += w.sc[g] * s;
                for h in 0..2 {
                    let at = 260 + 2 * (2 * g + h);
                    low += w.mn[g] * i16::from_le_bytes([y[at], y[at + 1]]) as i32;
                }
            }
            acc += w.d * dy * dot as f32 - w.dmin * dy * low as f32;
        }
        out.push(acc);
    }
    out
}

/// The product of the unpacked weights with the unpacked row.
fn plain_product(weights: &[u8], row: &[u8], k: usize, n: usize) -> Vec<f32> {
    let blocks = k / QK_K;
    let x: Vec<f64> = row
        .chunks(BLOCK_BYTES)
        .flat_map(|y| {
            let dy = f32::from_le_bytes([y[0], y[1], y[2], y[3]]) as f64;
            (0..QK_K).map(move |i| dy * (y[4 + i] as i8) as f64)
        })
        .collect();
    (0..n)
        .map(|o| {
            let mut s = 0f64;
            for b in 0..blocks {
                let w = unpack_q4k(&weights[(o * blocks + b) * 144..(o * blocks + b + 1) * 144]);
                for i in 0..QK_K {
                    let v = w.d as f64 * w.sc[i / 32] as f64 * w.q[i] as f64
                        - w.dmin as f64 * w.mn[i / 32] as f64;
                    s += v * x[b * QK_K + i];
                }
            }
            s as f32
        })
        .collect()
}

fn run_one(label: &str, m: usize, k: usize, n: usize, tol: f32, seed: u64) {
    let mut rng = StdRng::seed_from_u64(seed);
    let lhs: Vec<f32> = (0..(m * k)).map(|_| rng.random::<f32>() - 0.5).collect();
    let rhs: Vec<f32> = (0..(k * n)).map(|_| (rng.random::<f32>() - 0.5) * 0.05).collect();
    let mut bytes = Vec::new();
    for o in 0..n {
        let row: Vec<f32> = (0..k).map(|i| rhs[i * n + o]).collect();
        bytes.extend(pack_q4k(&row));
    }
    let weights = load_quantized(&device(), GgmlDType::Q4K, &bytes).unwrap();
    let x = WgpuStorage::from_cpu_storage(
        device(),
        &CpuStorage::F32(lhs.iter().map(|v| v.to_bits()).collect()),
    )
    .unwrap();
    let fwd = weights
        .fwd(
            QuantizedMatmulAlgorithm::Naive,
            &vec![n, k],
            &x,
            &Layout::contiguous(vec![m, k]),
        )
        .unwrap();
    assert_eq!(fwd.shape, vec![m, n]);
    assert_eq!(fwd.output.len, m * n);
    let (got, row) = match &fwd.plan {
        FwdPlan::PackedRow { blocks, pack, multiply } => {
            assert_eq!(pack.bindings, vec![QBuffer::Packed, QBuffer::Source]);
            assert_eq!(
                multiply.bindings,
                vec![QBuffer::Output, QBuffer::Packed, QBuffer::Weights]
            );
            let order: Vec<QFunction> = fwd
                .plan
                .clone()
                .steps()
                .iter()
                .map(|s| match s {
                    FwdStep::Run(c) => c.pipeline.function,
                    FwdStep::Tiled(c) => c.pipeline.function,
                })
                .collect();
            assert_eq!(order, vec![QFunction::QuantizeRowToQ8k, QFunction::MatmulQ4kQ8kM1]);
            let row = run_pack(pack, &lhs);
            assert_eq!(blocks.buffer.size as usize, row.len());
            (run_packed_product(multiply, &weights.data(), &row), row)
        }
        p => panic!("{label}: {p:?}"),
    };
    let want = plain_product(&bytes, &row, k, n);
    assert_eq!(want.len(), got.len());
    let top = want.iter().map(|v| v.abs()).fold(0.0f32, f32::max);
    let worst = want.iter().zip(&got).map(|(a, b)| (a - b).abs()).fold(0.0f32, f32::max);
    let rel = if top > 0.0 { worst / top } else { worst };
    assert!(rel < tol, "{label}: {rel:.3e} exceeds {tol:.0e} (k={k}, n={n})");
}

#[test]
fn q4k_int_matmul_wgpu_k_1024() {
    run_one("k=1024 (decode)", 1, 1024, 256, 1e-5, 0xC4_5DE_8E1_F00D0);
}

#[test]
fn q4k_int_matmul_wgpu_k_2048() {
    run_one("k=2048 (decode hot)", 1, 2048, 256, 1e-5, 0xC4_5DE_8E1_F00D1);
}

#[test]
fn q4k_int_matmul_wgpu_k_4096() {
    run_one("k=4096", 1, 4096, 256, 1e-5, 0xC4_5DE_8E1_F00D2);
}

#[test]
fn q4k_int_matmul_wgpu_k_8192() {
    run_one("k=8192", 1, 8192, 256, 1e-5, 0xC4_5DE_8E1_F00D3);
}

#[test]
fn q4k_int_matmul_wgpu_n_1() {
    run_one("n=1", 1, 2048, 1, 1e-5, 0xC4_5DE_8E1_F00D4);
}

#[test]
fn q4k_int_matmul_wgpu_n_vocab() {
    run_one("n=8192 (vocab-ish)", 1, 2048, 8192, 1e-5, 0xC4_5DE_8E1_F00D5);
}

#[test]
fn products_fall_back_without_packed_dots() {
    let plain = WgpuDevice::from_adapter(2, AdapterFeatures { shader_f16: false, dp4a: false });
    let w = load_quantized(&plain, GgmlDType::Q4K, &vec![0u8; 144 * 40]).unwrap();
    let x = WgpuStorage::alloc_zeros(plain, DType::F32, &[1, 256]).unwrap();
    let f = w
        .fwd(
            QuantizedMatmulAlgorithm::Naive,
            &vec![40, 256],
            &x,
            &Layout::contiguous(vec![1, 256]),
        )
        .unwrap();
    match f.plan {
        FwdPlan::Direct(c) => {
            assert_eq!(c.pipeline.function, QFunction::MatmulNaiveBlockM1);
            assert_eq!(c.params, vec![1, 256, 40, 1, 0, 1, 256]);
            assert_eq!(c.bindings, vec![QBuffer::Output, QBuffer::Source, QBuffer::Weights]);
            assert_eq!(c.work, Work::Groups(Groups { x: 2, y: 1, z: 1 }));
        }
        p => panic!("{p:?}"),
    }
}

#[test]
fn products_of_other_shapes_are_refused() {
    let w = load_quantized(&device(), GgmlDType::Q8_0, &vec![0u8; 34]).unwrap();
    let x = WgpuStorage::alloc_zeros(device(), DType::F32, &[1, 16]).unwrap();
    let auto = QuantizedMatmulAlgorithm::Auto;
    assert_eq!(
        w.fwd(auto, &vec![1, 32], &x, &Layout::contiguous(vec![1, 16])).unwrap_err(),
        Error::ShapeMismatch { op: Op::QMatmul }
    );
    assert_eq!(
        w.fwd(auto, &vec![1, 32], &x, &Layout::contiguous(vec![16])).unwrap_err(),
        Error::BadRank { op: Op::QMatmul, rank: 1 }
    );
}

#[test]
fn shapes_are_looked_at_before_the_weights() {
    let w = load_quantized(&device(), GgmlDType::F16, &vec![0u8; 64]).unwrap();
    let x = WgpuStorage::alloc_zeros(device(), DType::F32, &[1, 16]).unwrap();
    assert_eq!(
        w.fwd(
            QuantizedMatmulAlgorithm::Auto,
            &vec![1, 32],
            &x,
            &Layout::contiguous(vec![1, 16])
        )
        .unwrap_err(),
        Error::ShapeMismatch { op: Op::QMatmul }
    );
}

#[test]
fn tiled_products_have_a_group_for_each_tile() {
    let w = load_quantized(&device(), GgmlDType::Q8_0, &vec![0u8; 34 * 128]).unwrap();
    let x = WgpuStorage::alloc_zeros(device(), DType::F32, &[64, 32]).unwrap();
    let f = w
        .fwd(
            QuantizedMatmulAlgorithm::Auto,
            &vec![128, 32],
            &x,
            &Layout::contiguous(vec![64, 32]),
        )
        .unwrap();
    match f.plan {
        FwdPlan::Tiled(c) => assert_eq!(c.groups(), Some(Groups { x: 1, y: 1, z: 1 })),
        p => panic!("{p:?}"),
    }
}

#[test]
fn tiles_divide_the_product() {
    let e = QExtents { b: 1, m: 64, n: 128, k: 256 };
    match get_best_algorithm(GgmlDType::Q8_0, e, 1) {
        QuantizedMatmulAlgorithm::Tiled(s) => {
            assert_eq!(64 % s.settings.m_tile, 0);
            assert_eq!(128 % s.settings.n_tile, 0);
            assert_eq!(256 % s.settings.k_tile, 0);
        }
        QuantizedMatmulAlgorithm::Naive => {}
        QuantizedMatmulAlgorithm::Auto => panic!("no choice was made"),
    }
    let odd = QExtents { b: 1, m: 7, n: 13, k: 32 };
    assert_eq!(get_best_algorithm(GgmlDType::Q8_0, odd, 1), QuantizedMatmulAlgorithm::Naive);
}

// ── storages ─────────────────────────────────────────────────────────

#[test]
fn loaded_blocks_are_kept() {
    let bytes: Vec<u8> = (0..34).collect();
    let q = load_quantized(&device(), GgmlDType::Q8_0, &bytes).unwrap();
    assert_eq!(q.dtype(), GgmlDType::Q8_0);
    assert_eq!(q.storage_size_in_bytes(), 34);
    assert_eq!(&q.data()[..34], &bytes[..]);
    assert_eq!(q.buffer().size, 36);
    assert_eq!(*q.device(), device());
}

#[test]
fn zeroed_blocks() {
    let q = QWgpuStorage::zeros(&device(), 512, GgmlDType::Q4K).unwrap();
    assert_eq!(q.storage_size_in_bytes(), 288);
    assert!(q.data().iter().all(|b| *b == 0));
}

#[test]
fn quantizing_takes_32_bit_floats_only() {
    let mut q = QWgpuStorage::zeros(&device(), 32, GgmlDType::Q8_0).unwrap();
    let blocks: Vec<u8> = (0..34).collect();
    let ints = CpuStorage::U32(vec![0; 32]);
    assert_eq!(
        q.quantize_onto(&ints, &blocks).unwrap_err(),
        Error::UnexpectedDType { expected: DType::F32, got: DType::U32 }
    );
    assert!(q.data().iter().all(|b| *b == 0));
    let floats = CpuStorage::F32(vec![0; 32]);
    q.quantize_onto(&floats, &blocks).unwrap();
    assert_eq!(&q.data()[..34], &blocks[..]);
    let on_gpu = WgpuStorage::from_cpu_storage(device(), &floats).unwrap();
    q.quantize(&on_gpu, &vec![9u8; 34]).unwrap();
    assert_eq!(q.data()[0], 9);
    q.quantize_imatrix(&on_gpu, &vec![8u8; 34]).unwrap();
    assert_eq!(q.data()[0], 8);
    q.quantize_imatrix_onto(&floats, &vec![7u8; 34]).unwrap();
    assert_eq!(q.data()[0], 7);
}

#[test]
fn packing_leaves_the_same_bytes_either_way() {
    let floats = CpuStorage::F32(vec![0; 32]);
    let on_gpu = WgpuStorage::from_cpu_storage(device(), &floats).unwrap();
    let blocks: Vec<u8> = (0..34).collect();
    let mut a = load_quantized(&device(), GgmlDType::Q8_0, &vec![1u8; 34]).unwrap();
    let mut b = QWgpuStorage::zeros(&device(), 64, GgmlDType::Q8_0).unwrap();
    a.quantize(&on_gpu, &blocks).unwrap();
    b.quantize_onto(&floats, &blocks).unwrap();
    assert_eq!(a.data(), b.data());
    assert_eq!(a.data()[..34], blocks[..]);
    assert_eq!(b.dtype(), GgmlDType::Q8_0);
    let short = Error::PackedSize { elems: 32, got: 33 };
    assert_eq!(a.quantize(&on_gpu, &blocks[..33]).unwrap_err(), short);
    assert_eq!(b.quantize_onto(&floats, &blocks[..33]).unwrap_err(), short);
    assert_eq!(a.quantize_imatrix(&on_gpu, &blocks[..33]).unwrap_err(), short);
    assert_eq!(b.quantize_imatrix_onto(&floats, &blocks[..33]).unwrap_err(), short);
    assert_eq!(a.data(), b.data());
}

#[test]
fn unpacking_plans() {
    let q = QWgpuStorage::zeros(&device(), 512, GgmlDType::Q4K).unwrap();
    let (s, p) = q.dequantize(512).unwrap();
    assert_eq!((s.len, s.dtype), (512, DType::F32));
    match p {
        DequantizePlan::Run(c) => {
            assert_eq!(c.pipeline.function, QFunction::DequantizeBlockToF32);
            assert_eq!(c.params, vec![512]);
            assert_eq!(c.work, Work::Threads64 { length: 2 });
        }
        DequantizePlan::Copy { .. } => panic!("blocks are not copied"),
    }
    let f = QWgpuStorage::zeros(&device(), 8, GgmlDType::F32).unwrap();
    assert!(matches!(f.dequantize(8).unwrap().1, DequantizePlan::Copy { words: 8 }));
    let h = QWgpuStorage::zeros(&device(), 8, GgmlDType::F16).unwrap();
    assert_eq!(
        h.dequantize(8).unwrap_err(),
        Error::DequantizeUnsupported { dtype: GgmlDType::F16 }
    );
}
