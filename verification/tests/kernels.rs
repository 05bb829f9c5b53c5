//! The kernels' plans, carried out in software and held against plain loops.

use candle_wgpu::cpu_storage::CpuStorage;
use candle_wgpu::device::{AdapterFeatures, WgpuDevice};
use candle_wgpu::dtype::DType;
use candle_wgpu::error::{Error, Op, Quantity};
use candle_wgpu::layout::Layout;
use candle_wgpu::ops::affine::affine;
use candle_wgpu::ops::binary::binary;
use candle_wgpu::ops::cast::to_dtype;
use candle_wgpu::ops::copy::{copy2d, copy_strided_src, plan_rows, CopyPlan, RowsPlan, Window};
use candle_wgpu::ops::dispatch::{
    split_1d_dispatch, Dispatch, Groups, Kernel, Lift, Outcome, Template,
};
use candle_wgpu::ops::index_select::index_select;
use candle_wgpu::ops::matmul::{matmul, Bmnk};
use candle_wgpu::ops::reduce::{reduce_op, ReduceOp};
use candle_wgpu::ops::rope::{rope, RopeVariant};
use candle_wgpu::ops::softmax::softmax_last_dim as softmax_plan;
use candle_wgpu::ops::unary::unary;
use candle_wgpu::storage::{BufferCopy, WgpuStorage};
use half::{bf16, f16};
use rand::rngs::StdRng;
use rand::{Rng, SeedableRng};

// ── a device in software ─────────────────────────────────────────────

fn device() -> WgpuDevice {
    WgpuDevice::from_adapter(1, AdapterFeatures { shader_f16: false, dp4a: true })
}

/// A tensor on the device.
struct T {
    s: WgpuStorage,
    l: Layout,
}

fn product(dims: &[usize]) -> usize {
    dims.iter().product()
}

fn upload(cpu: CpuStorage, dims: &[usize]) -> T {
    let s = WgpuStorage::from_cpu_storage(device(), &cpu).unwrap();
    T { s, l: Layout::contiguous(dims.to_vec()) }
}

fn f32_tensor(data: &[f32], dims: &[usize]) -> T {
    assert_eq!(data.len(), product(dims));
    upload(CpuStorage::F32(data.iter().map(|v| v.to_bits()).collect()), dims)
}

fn u32_tensor(data: &[u32], dims: &[usize]) -> T {
    upload(CpuStorage::U32(data.to_vec()), dims)
}

fn bf16_of(data: &[bf16], dims: &[usize]) -> T {
    upload(CpuStorage::BF16(data.iter().map(|v| v.to_bits()).collect()), dims)
}

fn bf16_tensor(data: &[f32], dims: &[usize]) -> T {
    let v: Vec<bf16> = data.iter().copied().map(bf16::from_f32).collect();
    bf16_of(&v, dims)
}

fn f16_tensor(data: &[f16], dims: &[usize]) -> T {
    upload(CpuStorage::F16(data.iter().map(|v| v.to_bits()).collect()), dims)
}

fn words(s: &WgpuStorage) -> Vec<u32> {
    s.buffer
        .bytes
        .chunks(4)
        .map(|b| u32::from_le_bytes([b[0], b[1], b[2], b[3]]))
        .collect()
}

fn halves(s: &WgpuStorage) -> Vec<u16> {
    s.buffer.bytes.chunks(2).map(|b| u16::from_le_bytes([b[0], b[1]])).collect()
}

/// Places of a tensor's elements in its storage, in row-major order.
fn places(l: &Layout) -> Vec<usize> {
    let n = product(&l.dims);
    (0..n)
        .map(|i| {
            let mut rest = i;
            let mut at = l.start_offset;
            for a in (0..l.dims.len()).rev() {
                at += (rest % l.dims[a]) * l.stride[a];
                rest /= l.dims[a];
            }
            at
        })
        .collect()
}

/// A tensor's elements as single-precision numbers.
fn values(t: &T) -> Vec<f32> {
    match t.s.dtype {
        DType::F32 => {
            let w = words(&t.s);
            places(&t.l).iter().map(|i| f32::from_bits(w[*i])).collect()
        }
        DType::BF16 => {
            let h = halves(&t.s);
            places(&t.l).iter().map(|i| bf16::from_bits(h[*i]).to_f32()).collect()
        }
        d => panic!("no numbers in {d:?}"),
    }
}

fn fill_f32(out: &mut WgpuStorage, v: &[f32]) {
    assert!(v.len() * 4 <= out.buffer.size as usize);
    out.buffer.bytes = v.iter().flat_map(|x| x.to_bits().to_le_bytes()).collect();
    out.buffer.bytes.resize(out.buffer.size as usize, 0);
}

fn fill_bf16(out: &mut WgpuStorage, v: &[f32]) {
    assert!(v.len() * 2 <= out.buffer.size as usize);
    out.buffer.bytes = v.iter().flat_map(|x| bf16::from_f32(*x).to_bits().to_le_bytes()).collect();
    out.buffer.bytes.resize(out.buffer.size as usize, 0);
}

/// What is bound for an operand: numbers, or raw words where it is not one of
/// numbers.
enum Bound {
    Numbers(Vec<f32>),
    Words(Vec<u32>),
}

impl Bound {
    fn f(&self) -> &Vec<f32> {
        match self {
            Bound::Numbers(v) => v,
            Bound::Words(_) => panic!("words where numbers are read"),
        }
    }
    fn u(&self) -> &Vec<u32> {
        match self {
            Bound::Words(v) => v,
            Bound::Numbers(_) => panic!("numbers where words are read"),
        }
    }
}

fn bind(t: &T, lift: Lift) -> Bound {
    match (lift, t.s.dtype) {
        (Lift::AsIs | Lift::Clone, DType::F32) => {
            Bound::Numbers(words(&t.s).iter().map(|w| f32::from_bits(*w)).collect())
        }
        (Lift::AsIs | Lift::Clone, DType::BF16) => {
            Bound::Numbers(halves(&t.s).iter().map(|h| bf16::from_bits(*h).to_f32()).collect())
        }
        (Lift::AsIs | Lift::Clone, _) => Bound::Words(words(&t.s)),
        (Lift::Gather, DType::F32) | (Lift::Widen, DType::BF16) => Bound::Numbers(values(t)),
        (l, d) => panic!("{l:?} of {d:?}"),
    }
}

/// Threads of a dispatch, in workgroups of 64.
fn threads(g: Groups) -> u64 {
    g.x as u64 * g.y as u64 * g.z as u64 * 64
}

fn text<'a>(k: &'a Kernel, marker: &str) -> &'a str {
    k.substitutions.iter().find(|s| s.marker == marker).unwrap().text
}

fn erf_of(s: f32) -> f32 {
    let t = 1.0 / (1.0 + 0.3275911 * s.abs());
    let p = ((((1.061405429 * t - 1.453152027) * t) + 1.421413741) * t - 0.284496736) * t
        + 0.254829592;
    let y = 1.0 - p * t * (-s * s).exp();
    if s >= 0.0 {
        y
    } else {
        -y
    }
}

/// What a unary shader body computes.
fn unary_body(body: &str, x: f32) -> f32 {
    match body {
        "return -x;" => -x,
        "return abs(x);" => x.abs(),
        "return sqrt(x);" => x.sqrt(),
        "return x * x;" => x * x,
        "return exp(x);" => x.exp(),
        "return log(x);" => x.ln(),
        "return sin(x);" => x.sin(),
        "return cos(x);" => x.cos(),
        "return tanh(x);" => x.tanh(),
        "return 1.0 / x;" => 1.0 / x,
        "return floor(x);" => x.floor(),
        "return ceil(x);" => x.ceil(),
        "return max(x, 0.0);" => x.max(0.0),
        "return x / (1.0 + exp(-x));" => x / (1.0 + (-x).exp()),
        b if b.starts_with("let kappa") => {
            let cube = 0.044715 * x * x * x;
            0.5 * x * (1.0 + (0.797_884_6 * (x + cube)).tanh())
        }
        b if b.starts_with("let s: f32") => 0.5 * x * (1.0 + erf_of(x * std::f32::consts::FRAC_1_SQRT_2)),
        b if b.starts_with("let t: f32") => erf_of(x),
        b => panic!("no such body: {b}"),
    }
}

fn binary_body(body: &str, a: f32, b: f32) -> f32 {
    match body {
        "return x + y;" => a + b,
        "return x - y;" => a - b,
        "return x * y;" => a * b,
        "return x / y;" => a / b,
        "return min(x, y);" => a.min(b),
        "return max(x, y);" => a.max(b),
        t => panic!("no such body: {t}"),
    }
}

/// The place of row-major index `i` by four padded axes of a uniform.
fn strided(i: usize, rank: usize, dims: &[u32], strides: &[u32]) -> usize {
    let mut rest = i;
    let mut at = 0;
    for a in (0..rank).rev() {
        at += (rest % dims[a] as usize) * strides[a] as usize;
        rest /= dims[a] as usize;
    }
    at
}

/// Runs a kernel; the numbers of its output.
fn run_kernel(k: &Kernel, bound: &[Bound]) -> Vec<f32> {
    let m = &k.meta;
    match k.template {
        Template::ElementwiseUnary | Template::Affine => {
            let (n, rank, offset) = (m[0] as usize, m[1] as usize, m[2] as usize);
            assert!(threads(k.groups) >= n as u64);
            (0..n)
                .map(|i| {
                    let x = bound[0].f()[offset + strided(i, rank, &m[4..8], &m[8..12])];
                    if k.template == Template::Affine {
                        f32::from_bits(m[12]) * x + f32::from_bits(m[13])
                    } else {
                        unary_body(text(k, "__OP_BODY__"), x)
                    }
                })
                .collect()
        }
        Template::ElementwiseBinary => {
            let (n, rank) = (m[0] as usize, m[1] as usize);
            assert!(threads(k.groups) >= n as u64);
            (0..n)
                .map(|i| {
                    let a = bound[0].f()[m[2] as usize + strided(i, rank, &m[4..8], &m[8..12])];
                    let b = bound[1].f()[m[3] as usize + strided(i, rank, &m[4..8], &m[12..16])];
                    binary_body(text(k, "__OP_BODY__"), a, b)
                })
                .collect()
        }
        Template::Reduce => {
            let (n_out, rank, offset) = (m[0] as usize, m[1] as usize, m[2] as usize);
            let (dims, strides) = (&m[4..8], &m[8..12]);
            let (out_shape, mask, reduce_shape) = (&m[12..16], &m[16..20], &m[20..24]);
            assert_eq!(f32::from_bits(m[24]), 1.0);
            let total = m[25] as usize;
            assert!(threads(k.groups) >= n_out as u64);
            (0..n_out)
                .map(|o| {
                    let init: f32 = text(k, "__INIT__").parse().unwrap();
                    let mut acc = init;
                    for r in 0..total {
                        let (mut ro, mut rr, mut at) = (o, r, offset);
                        for a in (0..rank).rev() {
                            let i = if mask[a] == 1 {
                                let i = rr % reduce_shape[a] as usize;
                                rr /= reduce_shape[a] as usize;
                                i
                            } else {
                                let i = ro % out_shape[a] as usize;
                                ro /= out_shape[a] as usize;
                                i
                            };
                            assert!(i < dims[a] as usize);
                            at += i * strides[a] as usize;
                        }
                        let v = bound[0].f()[at];
                        acc = match text(k, "__COMBINE__") {
                            "return acc + v;" => acc + v,
                            "return max(acc, v);" => acc.max(v),
                            "return min(acc, v);" => acc.min(v),
                            t => panic!("no such body: {t}"),
                        };
                    }
                    acc
                })
                .collect()
        }
        Template::Softmax => {
            let (rows, cols, offset) = (m[0] as usize, m[1] as usize, m[2] as usize);
            assert_eq!(k.groups, Groups { x: rows as u32, y: 1, z: 1 });
            let mut out = Vec::new();
            for r in 0..rows {
                let row = &bound[0].f()[offset + r * cols..offset + (r + 1) * cols];
                let top = row.iter().copied().fold(f32::NEG_INFINITY, f32::max);
                let e: Vec<f32> = row.iter().map(|x| (x - top).exp()).collect();
                let sum: f32 = e.iter().sum();
                out.extend(e.iter().map(|x| x / sum));
            }
            out
        }
        Template::IndexSelect => {
            let (n, outer, dim, picked, inner) =
                (m[0] as usize, m[1] as usize, m[2] as usize, m[3] as usize, m[4] as usize);
            assert_eq!(n, outer * picked * inner);
            assert!(threads(k.groups) >= n as u64);
            (0..n)
                .map(|i| {
                    let (o, p, e) = (i / (picked * inner), i / inner % picked, i % inner);
                    let id = bound[1].u()[m[5] as usize + p * m[6] as usize] as usize;
                    assert!(id < dim);
                    bound[0].f()[m[7] as usize + (o * dim + id) * inner + e]
                })
                .collect()
        }
        Template::Rope => {
            let (pairs, h, t, d) = (m[0] as usize, m[2] as usize, m[3] as usize, m[4] as usize);
            let per_batch = m[5] == 1;
            assert!(threads(k.groups) >= pairs as u64);
            let (x, cos, sin) = (bound[0].f(), bound[1].f(), bound[2].f());
            let mut out = vec![0f32; pairs * 2];
            let half = d / 2;
            for p in 0..pairs {
                let (row, j) = (p / half, p % half);
                let (batch, time) = match m[6] {
                    2 => (row / (t * h), row / h % t),
                    _ => (row / (h * t), row % t),
                };
                let angle = (if per_batch { batch * t } else { 0 } + time) * half + j;
                let (a, b) = match m[6] {
                    0 => (row * d + 2 * j, row * d + 2 * j + 1),
                    _ => (row * d + j, row * d + j + half),
                };
                out[a] = x[a] * cos[angle] - x[b] * sin[angle];
                out[b] = x[a] * sin[angle] + x[b] * cos[angle];
            }
            out
        }
        Template::Matmul | Template::MatmulBf16 => {
            let (rows, cols, len) = (m[0] as usize, m[1] as usize, m[2] as usize);
            let s: Vec<usize> = m.iter().map(|v| *v as usize).collect();
            assert!(k.groups.x as usize * 16 >= cols);
            assert!(k.groups.y as usize * 16 >= rows);
            assert_eq!(k.groups.z as usize, s[9]);
            let (a, b) = (bound[0].f(), bound[1].f());
            let mut out = vec![0f32; s[9] * rows * cols];
            for z in 0..s[9] {
                for i in 0..rows {
                    for j in 0..cols {
                        let mut acc = 0f32;
                        for l in 0..len {
                            acc += a[s[13] + z * s[10] + i * s[3] + l * s[4]]
                                * b[s[14] + z * s[11] + l * s[5] + j * s[6]];
                        }
                        out[z * s[12] + i * s[7] + j * s[8]] = acc;
                    }
                }
            }
            out
        }
        t => panic!("{t:?} is not run here"),
    }
}

/// Carries out a dispatch. The result has the given shape.
fn run(d: Dispatch, operands: &[&T], dims: &[usize]) -> T {
    assert_eq!(d.lifts.len(), operands.len());
    let bound: Vec<Bound> = operands.iter().zip(&d.lifts).map(|(t, l)| bind(t, *l)).collect();
    let v = run_kernel(&d.kernel, &bound);
    assert_eq!(v.len(), d.output.len);
    assert_eq!(v.len(), product(dims));
    let mut s = d.output.clone();
    match (d.output.dtype, d.result_dtype) {
        (DType::F32, DType::F32) => fill_f32(&mut s, &v),
        (DType::BF16, DType::BF16) => fill_bf16(&mut s, &v),
        (DType::F32, DType::BF16) => return bf16_tensor(&v, dims),
        (a, b) => panic!("{a:?} for {b:?}"),
    }
    T { s, l: Layout::contiguous(dims.to_vec()) }
}

// ── operations on tensors of the device ──────────────────────────────

fn map(name: &str, t: &T) -> T {
    run(unary(&t.s, &t.l, name).unwrap(), &[t], &t.l.dims)
}

fn zip(name: &str, a: &T, b: &T) -> T {
    run(binary(&a.s, &b.s, &a.l, &b.l, name).unwrap(), &[a, b], &a.l.dims)
}

/// `t` seen with the given shape, axes of one entry repeated.
fn broadcast(t: &T, dims: &[usize]) -> T {
    let lead = dims.len() - t.l.dims.len();
    let stride = (0..dims.len())
        .map(|a| if a < lead || t.l.dims[a - lead] == 1 && dims[a] != 1 { 0 } else { t.l.stride[a - lead] })
        .collect();
    T {
        s: t.s.clone(),
        l: Layout { dims: dims.to_vec(), stride, start_offset: t.l.start_offset },
    }
}

fn zip_broadcast(name: &str, a: &T, b: &T) -> T {
    zip(name, a, &broadcast(b, &a.l.dims))
}

fn reduced(op: ReduceOp, t: &T, axes: &[usize]) -> T {
    let mut dims = t.l.dims.clone();
    for a in axes {
        dims[*a] = 1;
    }
    run(reduce_op(&t.s, op, &t.l, axes).unwrap(), &[t], &dims)
}

fn scale(t: &T, mul: f32, add: f32) -> T {
    run(affine(&t.s, &t.l, mul.to_bits(), add.to_bits()).unwrap(), &[t], &t.l.dims)
}

fn mean(t: &T, axis: usize) -> T {
    let n = t.l.dims[axis];
    scale(&reduced(ReduceOp::Sum, t, &[axis]), (1f64 / n as f64) as f32, 0.0)
}

fn select(t: &T, ids: &T, dim: usize) -> T {
    let mut dims = t.l.dims.clone();
    dims[dim] = ids.l.dims[0];
    match index_select(&t.s, &ids.s, &t.l, &ids.l, dim).unwrap() {
        Outcome::Run(d) => run(d, &[t, ids], &dims),
        Outcome::Ready(s) => T { s, l: Layout::contiguous(dims) },
    }
}

fn fused_softmax(t: &T) -> T {
    let (o, dims) = softmax_plan(&t.s, &t.l).unwrap();
    match o {
        Outcome::Run(d) => run(d, &[t], &dims),
        Outcome::Ready(s) => T { s, l: Layout::contiguous(dims) },
    }
}

fn rotate(v: RopeVariant, x: &T, cos: &T, sin: &T) -> T {
    let (d, dims) = rope(v, &x.s, &x.l, &cos.s, &cos.l, &sin.s, &sin.l).unwrap();
    run(d, &[x, cos, sin], &dims)
}

fn transposed(t: &T) -> T {
    let r = t.l.dims.len();
    let (mut dims, mut stride) = (t.l.dims.clone(), t.l.stride.clone());
    dims.swap(r - 2, r - 1);
    stride.swap(r - 2, r - 1);
    T { s: t.s.clone(), l: Layout { dims, stride, start_offset: t.l.start_offset } }
}

fn times(a: &T, b: &T) -> T {
    let r = a.l.dims.len();
    let e = Bmnk {
        b: product(&a.l.dims[..r - 2]),
        m: a.l.dims[r - 2],
        n: b.l.dims[r - 1],
        k: a.l.dims[r - 1],
    };
    let mut dims = a.l.dims.clone();
    dims[r - 1] = e.n;
    run(matmul(&a.s, &b.s, e, &a.l, &b.l).unwrap(), &[a, b], &dims)
}

fn apply_copy(src: &WgpuStorage, dst: &mut WgpuStorage, c: &BufferCopy) {
    let (s, d, n) = (c.src_offset as usize, c.dst_offset as usize, c.size as usize);
    assert!(s % 4 == 0 && d % 4 == 0 && n % 4 == 0);
    dst.buffer.bytes[d..d + n].copy_from_slice(&src.buffer.bytes[s..s + n]);
}

/// Carries out copies of rows, one thread at a time where a kernel moves them.
fn apply_rows(src: &WgpuStorage, dst: &mut WgpuStorage, plan: &RowsPlan) {
    match plan {
        RowsPlan::Copies(v) => v.iter().for_each(|c| apply_copy(src, dst, c)),
        RowsPlan::Moves(v) => {
            for m in v {
                assert_eq!(m.kernel.template, Template::CopyBytes);
                let [from, to, n] = [0, 1, 2].map(|i| m.kernel.meta[i] as usize);
                let (sb, db) = (m.src.base as usize, m.dst.base as usize);
                assert!(sb % 256 == 0 && db % 256 == 0);
                let bound_src = &src.buffer.bytes[sb..sb + m.src.len as usize];
                let bound_dst = &mut dst.buffer.bytes[db..db + m.dst.len as usize];
                assert!(threads(m.kernel.groups) >= m.dst.len / 4);
                for word in 0..bound_dst.len() / 4 {
                    for p in 4 * word..4 * word + 4 {
                        if p >= to && p < to + n {
                            bound_dst[p] = bound_src[p - to + from];
                        }
                    }
                }
            }
        }
    }
}

/// Carries out a copy into `dst`, from element `at` on.
fn copy_into(src: &T, dst: &mut WgpuStorage, at: usize) {
    match copy_strided_src(&src.s, dst, at, &src.l).unwrap() {
        CopyPlan::Nothing => {}
        CopyPlan::Block(c) => apply_rows(&src.s, dst, &plan_rows(vec![c])),
        CopyPlan::Strided(k) => {
            let m = &k.meta;
            let (n, rank) = (m[0] as usize, m[1] as usize);
            assert!(threads(k.groups) >= n as u64);
            let width = match k.template {
                Template::Copy => 4,
                Template::CopyBf16 => 2,
                t => panic!("{t:?}"),
            };
            for i in 0..n {
                let s = (m[2] as usize + strided(i, rank, &m[4..8], &m[8..12])) * width;
                let d = (m[3] as usize + i) * width;
                let cell: Vec<u8> = src.s.buffer.bytes[s..s + width].to_vec();
                dst.buffer.bytes[d..d + width].copy_from_slice(&cell);
            }
        }
    }
}

fn zeros(dtype: DType, dims: &[usize]) -> T {
    let s = WgpuStorage::alloc_zeros(device(), dtype, dims).unwrap();
    T { s, l: Layout::contiguous(dims.to_vec()) }
}

fn contiguous(t: &T) -> T {
    let mut out = zeros(t.s.dtype, &t.l.dims);
    copy_into(t, &mut out.s, 0);
    out
}

/// Tensors one behind the other along an axis.
fn cat(a: &T, b: &T, axis: usize) -> T {
    let mut dims = a.l.dims.clone();
    dims[axis] += b.l.dims[axis];
    let mut out = zeros(a.s.dtype, &dims);
    let rows = product(&dims[..axis]);
    let inner = product(&dims[axis + 1..]);
    let (wa, wb, wo) = (a.l.dims[axis] * inner, b.l.dims[axis] * inner, dims[axis] * inner);
    if axis == 0 {
        copy_into(a, &mut out.s, 0);
        copy_into(b, &mut out.s, wa);
    } else {
        let first = copy2d(&a.s, &out.s, rows, wa, wa, wo, 0, 0).unwrap();
        apply_rows(&a.s, &mut out.s, &first);
        let second = copy2d(&b.s, &out.s, rows, wb, wb, wo, 0, wa).unwrap();
        apply_rows(&b.s, &mut out.s, &second);
    }
    out
}

// ── plain loops to hold the results against ──────────────────────────

fn cat_reference(a: &[f32], da: &[usize], b: &[f32], db: &[usize], axis: usize) -> Vec<f32> {
    let (wa, wb) = (product(&da[axis..]), product(&db[axis..]));
    let mut out = Vec::new();
    for r in 0..product(&da[..axis]) {
        out.extend_from_slice(&a[r * wa..(r + 1) * wa]);
        out.extend_from_slice(&b[r * wb..(r + 1) * wb]);
    }
    out
}

fn reduce_reference(x: &[f32], dims: &[usize], axes: &[usize], f: fn(f32, f32) -> f32) -> Vec<f32> {
    let kept: Vec<usize> =
        (0..dims.len()).map(|a| if axes.contains(&a) { 1 } else { dims[a] }).collect();
    let mut out: Vec<Option<f32>> = vec![None; product(&kept)];
    for (i, v) in x.iter().enumerate() {
        let (mut rest, mut at, mut step) = (i, 0, 1);
        for a in (0..dims.len()).rev() {
            let j = rest % dims[a];
            rest /= dims[a];
            if !axes.contains(&a) {
                at += j * step;
            }
            step *= kept[a];
        }
        out[at] = Some(match out[at] {
            Some(o) => f(o, *v),
            None => *v,
        });
    }
    out.iter().map(|v| v.unwrap()).collect()
}

fn matmul_reference(a: &[f32], b: &[f32], m: usize, k: usize, n: usize) -> Vec<f32> {
    let mut out = vec![0f32; m * n];
    for i in 0..m {
        for j in 0..n {
            let mut s = 0f64;
            for l in 0..k {
                s += a[i * k + l] as f64 * b[l * n + j] as f64;
            }
            out[i * n + j] = s as f32;
        }
    }
    out
}

fn softmax_reference(x: &[f32], n: usize) -> Vec<f32> {
    let mut out = Vec::new();
    for row in x.chunks(n) {
        let top = row.iter().copied().fold(f32::NEG_INFINITY, f32::max);
        let e: Vec<f32> = row.iter().map(|v| (v - top).exp()).collect();
        let sum: f32 = e.iter().sum();
        out.extend(e.iter().map(|v| v / sum));
    }
    out
}

fn transpose_reference(x: &[f32], rows: usize, cols: usize) -> Vec<f32> {
    (0..rows * cols).map(|i| x[(i % rows) * cols + i / rows]).collect()
}

fn assert_close(want: &[f32], got: &[f32], tol: f32, label: &str) {
    assert_eq!(want.len(), got.len(), "{label}: length mismatch");
    for (i, (a, b)) in want.iter().zip(got.iter()).enumerate() {
        let diff = (a - b).abs();
        let bad = diff > tol || a.is_nan() != b.is_nan() || a.is_infinite() != b.is_infinite();
        assert!(!bad, "{label}[{i}]: want={a} got={b} diff={diff} (tol={tol})");
    }
}

fn assert_bf16_close(label: &str, want: &[f32], got: &T, tol: f32) {
    assert_eq!(got.s.dtype, DType::BF16);
    let got = values(got);
    assert_eq!(want.len(), got.len(), "{label}: length mismatch");
    for (i, (c, g)) in want.iter().zip(got.iter()).enumerate() {
        let diff = (c - g).abs();
        let rel = diff / c.abs().max(1e-3);
        assert!(diff < tol || rel < tol, "{label}[{i}]: want={c} got={g} diff={diff}");
    }
}

// ── concatenation ────────────────────────────────────────────────────

#[test]
fn cat_along_seq_axis_f32() {
    let past: Vec<f32> = (0..(1 * 2 * 3 * 4)).map(|i| i as f32).collect();
    let new: Vec<f32> = (100..(100 + 1 * 2 * 1 * 4)).map(|i| i as f32).collect();
    let want = cat_reference(&past, &[1, 2, 3, 4], &new, &[1, 2, 1, 4], 2);
    let got = cat(&f32_tensor(&past, &[1, 2, 3, 4]), &f32_tensor(&new, &[1, 2, 1, 4]), 2);
    assert_eq!(want.len(), 1 * 2 * 4 * 4);
    assert_close(&want, &values(&got), 0.0, "cat-seq");
}

#[test]
fn cat_along_batch_axis_f32() {
    let a: Vec<f32> = (0..6).map(|i| i as f32).collect();
    let b: Vec<f32> = (10..16).map(|i| i as f32).collect();
    let want = cat_reference(&a, &[2, 3], &b, &[2, 3], 0);
    let got = cat(&f32_tensor(&a, &[2, 3]), &f32_tensor(&b, &[2, 3]), 0);
    assert_close(&want, &values(&got), 0.0, "cat-batch");
}

#[test]
fn kv_cache_append_loop_f32() {
    let head_dim = 8usize;
    let n_heads = 2usize;
    let steps = 5usize;
    let make_step = |step: usize| -> Vec<f32> {
        (0..n_heads * head_dim).map(|i| (step * 1000 + i) as f32 * 0.01).collect()
    };
    let mut want: Vec<f32> = Vec::new();
    for h in 0..n_heads {
        for s in 0..steps {
            want.extend_from_slice(&make_step(s)[h * head_dim..(h + 1) * head_dim]);
        }
    }
    let mut cache: Option<T> = None;
    for s in 0..steps {
        let step = f32_tensor(&make_step(s), &[1, n_heads, 1, head_dim]);
        cache = Some(match cache.take() {
            None => step,
            Some(c) => cat(&c, &step, 2),
        });
    }
    let cache = cache.unwrap();
    assert_eq!(cache.l.dims, vec![1, n_heads, steps, head_dim]);
    assert_close(&want, &values(&cache), 0.0, "kv-cache-loop");
}

// ── element-wise operations ──────────────────────────────────────────

const F32_TOL: f32 = 1e-4;

fn gelu_reference(x: f32) -> f32 {
    let c = (2.0 / std::f64::consts::PI).sqrt();
    let x = x as f64;
    (0.5 * x * (1.0 + (c * x * (1.0 + 0.044715 * x * x)).tanh())) as f32
}

fn silu_reference(x: f32) -> f32 {
    x / (1.0 + (-x).exp())
}

fn check_unary(name: &str, xs: &[f32], shape: &[usize], reference: fn(f32) -> f32) {
    let want: Vec<f32> = xs.iter().map(|x| reference(*x)).collect();
    let got = values(&map(name, &f32_tensor(xs, shape)));
    assert_close(&want, &got, F32_TOL, name);
}

#[test]
fn unary_gelu_f32() {
    let xs = [-2.0f32, -0.5, 0.0, 0.5, 2.0];
    check_unary("gelu", &xs, &[5], gelu_reference);
}

#[test]
fn unary_silu_f32() {
    let xs = [-3.0f32, -1.0, 0.0, 1.0, 3.0];
    check_unary("silu", &xs, &[5], silu_reference);
}

#[test]
fn binary_add_broadcast_f32() {
    let a: Vec<f32> = (1..=6).map(|x| x as f32).collect();
    let b: Vec<f32> = vec![10.0, 20.0, 30.0];
    let want: Vec<f32> = a.iter().enumerate().map(|(i, x)| x + b[i % 3]).collect();
    let got = zip_broadcast("add", &f32_tensor(&a, &[2, 3]), &f32_tensor(&b, &[3]));
    assert_close(&want, &values(&got), F32_TOL, "add_broadcast_f32");
}

#[test]
fn unary_random_shapes() {
    let mut rng = StdRng::seed_from_u64(0xCAFE_F00D);
    let raw: Vec<f32> = (0..120).map(|_| rng.random::<f32>() * 3.0 - 1.5).collect();
    let shapes: &[&[usize]] = &[&[8], &[3, 5], &[2, 3, 4]];
    for shape in shapes {
        let n: usize = shape.iter().product();
        let xs = &raw[..n];
        check_unary("neg", xs, shape, |t| -t);
        check_unary("abs", xs, shape, |t| t.abs());
        let pos: Vec<f32> = xs.iter().map(|v| v + 2.0).collect();
        check_unary("sqrt", &pos, shape, |t| t.sqrt());
        check_unary("log", &pos, shape, |t| t.ln());
        check_unary("exp", xs, shape, |t| t.exp());
        check_unary("tanh", xs, shape, |t| t.tanh());
        check_unary("relu", xs, shape, |t| t.max(0.0));
        check_unary("gelu", xs, shape, gelu_reference);
        check_unary("silu", xs, shape, silu_reference);
        check_unary("recip", &pos, shape, |t| 1.0 / t);
    }
}

#[test]
fn binary_random_shapes() {
    let mut rng = StdRng::seed_from_u64(0xDEAD_BEEF);
    let shapes: &[&[usize]] = &[&[8], &[3, 5], &[2, 3, 4]];
    for shape in shapes {
        let n: usize = shape.iter().product();
        let a: Vec<f32> = (0..n).map(|_| rng.random::<f32>() * 3.0 - 1.5).collect();
        let b: Vec<f32> = (0..n)
            .map(|_| {
                let v: f32 = rng.random::<f32>() * 3.0 - 1.5;
                if v.abs() < 0.25 {
                    v + 0.5
                } else {
                    v
                }
            })
            .collect();
        let cases: [(&str, fn(f32, f32) -> f32); 6] = [
            ("add", |x, y| x + y),
            ("sub", |x, y| x - y),
            ("mul", |x, y| x * y),
            ("div", |x, y| x / y),
            ("minimum", f32::min),
            ("maximum", f32::max),
        ];
        for (name, reference) in cases {
            let want: Vec<f32> = a.iter().zip(&b).map(|(x, y)| reference(*x, *y)).collect();
            let got = zip(name, &f32_tensor(&a, shape), &f32_tensor(&b, shape));
            assert_close(&want, &values(&got), F32_TOL, &format!("{name}@{shape:?}"));
        }
    }
}

#[test]
fn gelu_erf_and_erf_bodies() {
    check_unary("gelu_erf", &[-1.0, 0.0, 1.0], &[3], |x| match x {
        v if v < 0.0 => -0.15865525,
        v if v > 0.0 => 0.8413447,
        _ => 0.0,
    });
    check_unary("erf", &[-0.5, 0.5], &[2], |x| 0.5204999 * x.signum());
}

#[test]
fn strided_views_are_read_in_their_own_order() {
    let t = transposed(&f32_tensor(&[1.0, 2.0, 3.0, 4.0, 5.0, 6.0], &[2, 3]));
    assert_eq!(values(&map("sqr", &t)), vec![1.0, 16.0, 4.0, 25.0, 9.0, 36.0]);
}

#[test]
fn unary_refusals() {
    let t = f32_tensor(&[1.0], &[1]);
    assert_eq!(
        unary(&t.s, &t.l, "cbrt").unwrap_err(),
        Error::UnknownOperator { op: Op::Unary }
    );
    let five = f32_tensor(&[1.0], &[1, 1, 1, 1, 1]);
    assert_eq!(
        unary(&five.s, &five.l, "neg").unwrap_err(),
        Error::RankTooLarge { op: Op::Unary, rank: 5 }
    );
    let h = f16_tensor(&[f16::from_f32(1.0)], &[1]);
    assert_eq!(unary(&h.s, &h.l, "neg").unwrap_err(), Error::F16Unsupported { op: Op::Unary });
    let u = u32_tensor(&[1], &[1]);
    assert_eq!(
        unary(&u.s, &u.l, "neg").unwrap_err(),
        Error::UnsupportedDType { op: Op::Unary, dtype: DType::U32 }
    );
}

#[test]
fn binary_refusals() {
    let a = f32_tensor(&[1.0, 2.0], &[2]);
    let b = u32_tensor(&[1, 2], &[2]);
    assert_eq!(
        binary(&a.s, &b.s, &a.l, &b.l, "add").unwrap_err(),
        Error::DTypeMismatch { op: Op::Binary, lhs: DType::F32, rhs: DType::U32 }
    );
    let c = f32_tensor(&[1.0], &[1]);
    assert_eq!(
        binary(&a.s, &c.s, &a.l, &c.l, "add").unwrap_err(),
        Error::ShapeMismatch { op: Op::Binary }
    );
    assert_eq!(
        binary(&a.s, &a.s, &a.l, &a.l, "pow").unwrap_err(),
        Error::UnknownOperator { op: Op::Binary }
    );
}

#[test]
fn shader_source_is_rendered() {
    let t = f32_tensor(&[1.0], &[1]);
    let d = unary(&t.s, &t.l, "neg").unwrap();
    let text = d.kernel.render_wgsl("array<__SCALAR_T__> { __OP_BODY__ } array<__SCALAR_T__>");
    assert_eq!(text, "array<f32> { return -x; } array<f32>");
    assert_eq!(d.kernel.key, "unary:neg:f32");
}

// ── index selection ──────────────────────────────────────────────────

fn select_reference(x: &[f32], dims: &[usize], ids: &[u32], dim: usize) -> Vec<f32> {
    let (outer, inner) = (product(&dims[..dim]), product(&dims[dim + 1..]));
    let mut out = Vec::new();
    for o in 0..outer {
        for id in ids {
            let at = (o * dims[dim] + *id as usize) * inner;
            out.extend_from_slice(&x[at..at + inner]);
        }
    }
    out
}

#[test]
fn index_select_dim0() {
    let src: Vec<f32> = (0..12).map(|i| (i as f32) * 0.1).collect();
    let ids: Vec<u32> = vec![2, 0, 3, 1];
    let got = select(&f32_tensor(&src, &[4, 3]), &u32_tensor(&ids, &[4]), 0);
    assert_close(&select_reference(&src, &[4, 3], &ids, 0), &values(&got), 1e-6, "index_select_dim0");
}

#[test]
fn index_select_dim1() {
    let src: Vec<f32> = (0..15).map(|i| (i as f32) * 0.1 + 1.0).collect();
    let ids: Vec<u32> = vec![4, 1];
    let got = select(&f32_tensor(&src, &[3, 5]), &u32_tensor(&ids, &[2]), 1);
    assert_close(&select_reference(&src, &[3, 5], &ids, 1), &values(&got), 1e-6, "index_select_dim1");
}

#[test]
fn index_select_large_embedding() {
    let vocab = 128;
    let hidden = 64;
    let seq_len = 8;
    let src: Vec<f32> = (0..(vocab * hidden)).map(|i| ((i as f32) * 0.001).sin()).collect();
    let ids: Vec<u32> = (0..seq_len).map(|i| ((i * 17 + 3) % vocab) as u32).collect();
    let got = select(&f32_tensor(&src, &[vocab, hidden]), &u32_tensor(&ids, &[seq_len]), 0);
    let want = select_reference(&src, &[vocab, hidden], &ids, 0);
    assert_close(&want, &values(&got), 1e-6, "index_select_large");
}

#[test]
fn index_select_refusals_and_empty() {
    let t = f32_tensor(&[1.0, 2.0], &[2]);
    let ids = u32_tensor(&[0], &[1]);
    assert_eq!(
        index_select(&t.s, &ids.s, &t.l, &ids.l, 1).unwrap_err(),
        Error::DimOutOfRange { op: Op::IndexSelect, dim: 1, rank: 1 }
    );
    assert_eq!(
        index_select(&t.s, &t.s, &t.l, &t.l, 0).unwrap_err(),
        Error::UnsupportedDType { op: Op::IndexSelect, dtype: DType::F32 }
    );
    let none = u32_tensor(&[], &[0]);
    let got = select(&t, &none, 0);
    assert_eq!(got.s.len, 0);
}

// ── matrix products ──────────────────────────────────────────────────

const F32_TOL_RANDOM: f32 = 1e-3;
const BF16_TOL: f32 = 5e-2;

fn max_err(r: &[f32], g: &[f32]) -> f32 {
    assert_eq!(r.len(), g.len());
    r.iter().zip(g).fold(0.0f32, |m, (a, b)| m.max((a - b).abs()))
}

#[test]
fn matmul_f32_basic() {
    let a = [1.0f32, 2.0, 3.0, 4.0];
    let b = [5.0f32, 6.0, 7.0, 8.0];
    let r = matmul_reference(&a, &b, 2, 2, 2);
    let g = values(&times(&f32_tensor(&a, &[2, 2]), &f32_tensor(&b, &[2, 2])));
    assert_eq!(r.len(), g.len());
    for (rv, gv) in r.iter().zip(g.iter()) {
        assert!((rv - gv).abs() < F32_TOL, "matmul_f32_basic mismatch ref={rv} got={gv}");
    }
    assert_eq!(g, vec![19.0, 22.0, 43.0, 50.0]);
}

#[test]
fn matmul_f32_random_shapes() {
    let mut rng = StdRng::seed_from_u64(42);
    let shapes: &[(usize, usize, usize)] =
        &[(1, 8, 8), (8, 16, 32), (33, 17, 23), (128, 128, 128), (1, 2048, 4096)];
    for &(m, k, n) in shapes {
        let a: Vec<f32> = (0..m * k).map(|_| rng.random::<f32>() - 0.5).collect();
        let b: Vec<f32> = (0..k * n).map(|_| rng.random::<f32>() - 0.5).collect();
        let g = values(&times(&f32_tensor(&a, &[m, k]), &f32_tensor(&b, &[k, n])));
        let e = max_err(&matmul_reference(&a, &b, m, k, n), &g);
        assert!(e < F32_TOL_RANDOM, "shape ({m},{k},{n}): max_err={e} > tol={F32_TOL_RANDOM}");
    }
}

#[test]
fn matmul_f32_batched() {
    let mut rng = StdRng::seed_from_u64(7);
    let (b, m, k, n) = (4usize, 8usize, 16usize, 8usize);
    let x: Vec<f32> = (0..b * m * k).map(|_| rng.random::<f32>() - 0.5).collect();
    let y: Vec<f32> = (0..b * k * n).map(|_| rng.random::<f32>() - 0.5).collect();
    let mut r = Vec::new();
    for z in 0..b {
        r.extend(matmul_reference(&x[z * m * k..], &y[z * k * n..], m, k, n));
    }
    let g = values(&times(&f32_tensor(&x, &[b, m, k]), &f32_tensor(&y, &[b, k, n])));
    assert_eq!(r.len(), b * m * n);
    let e = max_err(&r, &g);
    assert!(e < F32_TOL_RANDOM, "batched: max_err={e}");
}

#[test]
fn matmul_f32_transposed_rhs() {
    let mut rng = StdRng::seed_from_u64(99);
    let (m, k, n) = (16usize, 24usize, 12usize);
    let a: Vec<f32> = (0..m * k).map(|_| rng.random::<f32>() - 0.5).collect();
    let b: Vec<f32> = (0..n * k).map(|_| rng.random::<f32>() - 0.5).collect();
    let r = matmul_reference(&a, &transpose_reference(&b, n, k), m, k, n);
    let g = values(&times(&f32_tensor(&a, &[m, k]), &transposed(&f32_tensor(&b, &[n, k]))));
    let e = max_err(&r, &g);
    assert!(e < F32_TOL_RANDOM, "transposed_rhs: max_err={e}");
}

#[test]
fn matmul_f16_basic() {
    let mut rng = StdRng::seed_from_u64(1);
    let (m, k, n) = (8usize, 16usize, 8usize);
    let a: Vec<f16> = (0..m * k).map(|_| f16::from_f32(rng.random::<f32>() - 0.5)).collect();
    let b: Vec<f16> = (0..k * n).map(|_| f16::from_f32(rng.random::<f32>() - 0.5)).collect();
    let (a, b) = (f16_tensor(&a, &[m, k]), f16_tensor(&b, &[k, n]));
    let e = Bmnk { b: 1, m, n, k };
    assert_eq!(
        matmul(&a.s, &b.s, e, &a.l, &b.l).unwrap_err(),
        Error::NoShaderF16 { op: Op::Matmul }
    );
}

#[test]
fn matmul_bf16_basic() {
    let a = [1.0f32, 2.0, 3.0, 4.0];
    let b = [5.0f32, 6.0, 7.0, 8.0];
    let c = times(&bf16_tensor(&a, &[2, 2]), &bf16_tensor(&b, &[2, 2]));
    assert_eq!(c.s.dtype, DType::BF16);
    let (r, g) = (matmul_reference(&a, &b, 2, 2, 2), values(&c));
    assert_eq!(r.len(), g.len());
    for (rv, gv) in r.iter().zip(g.iter()) {
        let e = (rv - gv).abs();
        assert!(e < BF16_TOL, "matmul_bf16_basic mismatch ref={rv} got={gv} err={e}");
    }
}

fn bf16_values(rng: &mut StdRng, n: usize) -> Vec<f32> {
    let raw: Vec<f32> = (0..n).map(|_| rng.random::<f32>() - 0.5).collect();
    raw.iter().map(|v| bf16::from_f32(*v).to_f32()).collect()
}

#[test]
fn matmul_bf16_random_shapes() {
    let mut rng = StdRng::seed_from_u64(0xb16);
    let shapes: &[(usize, usize, usize)] =
        &[(1, 8, 8), (8, 16, 32), (33, 17, 23), (5, 7, 11), (128, 128, 128)];
    for &(m, k, n) in shapes {
        let a = bf16_values(&mut rng, m * k);
        let b = bf16_values(&mut rng, k * n);
        let g = values(&times(&bf16_tensor(&a, &[m, k]), &bf16_tensor(&b, &[k, n])));
        let e = max_err(&matmul_reference(&a, &b, m, k, n), &g);
        assert!(e < BF16_TOL, "bf16 shape ({m},{k},{n}): max_err={e} > tol={BF16_TOL}");
    }
}

#[test]
fn matmul_bf16_transposed_rhs() {
    let mut rng = StdRng::seed_from_u64(0xb17);
    let (m, k, n) = (16usize, 24usize, 12usize);
    let a = bf16_values(&mut rng, m * k);
    let b = bf16_values(&mut rng, n * k);
    let r = matmul_reference(&a, &transpose_reference(&b, n, k), m, k, n);
    let g = values(&times(&bf16_tensor(&a, &[m, k]), &transposed(&bf16_tensor(&b, &[n, k]))));
    let e = max_err(&r, &g);
    assert!(e < BF16_TOL, "bf16 transposed_rhs: max_err={e}");
}

#[test]
fn wgpu_f32_matmul_1x1_sanity() {
    let out = values(&times(&f32_tensor(&[2.0], &[1, 1]), &f32_tensor(&[3.0], &[1, 1])));
    assert!((out[0] - 6.0).abs() < 1e-4, "f32 1x1@1x1: got {} want 6.0", out[0]);
}

#[test]
fn wgpu_bf16_matmul_naive() {
    let (m, k, n) = (2usize, 8usize, 4usize);
    let a: Vec<f32> = (0..m * k).map(|i| (i as f32 * 0.1) - 0.4).collect();
    let b: Vec<f32> = (0..k * n).map(|i| (i as f32 * 0.07) - 0.2).collect();
    let c = times(&bf16_tensor(&a, &[m, k]), &bf16_tensor(&b, &[k, n]));
    assert_bf16_close("bf16 matmul (m=2 k=8 n=4)", &matmul_reference(&a, &b, m, k, n), &c, 5e-2);
}

#[test]
fn wgpu_bf16_matmul_minimal_1x1() {
    let c = times(&bf16_tensor(&[2.0], &[1, 1]), &bf16_tensor(&[3.0], &[1, 1]));
    assert_bf16_close("bf16 matmul 1x1@1x1", &[6.0], &c, 1e-2);
}

#[test]
fn wgpu_bf16_matmul_decode_shape() {
    let (k, n) = (64usize, 32usize);
    let a: Vec<f32> = (0..k).map(|i| ((i as f32) * 0.011).sin()).collect();
    let b: Vec<f32> = (0..k * n).map(|i| ((i as f32) * 0.013).cos()).collect();
    let c = times(&bf16_tensor(&a, &[1, k]), &bf16_tensor(&b, &[k, n]));
    assert_bf16_close("bf16 matmul1_m1 (1xk @ kxn)", &matmul_reference(&a, &b, 1, k, n), &c, 1e-1);
}

#[test]
fn matmul_refuses_a_broadcast_sum() {
    let a = f32_tensor(&[1.0, 2.0, 3.0, 4.0], &[2, 2]);
    let one = broadcast(&f32_tensor(&[1.0, 2.0], &[1, 2]), &[2, 2]);
    let e = Bmnk { b: 1, m: 2, n: 2, k: 2 };
    assert_eq!(matmul(&a.s, &one.s, e, &a.l, &one.l).unwrap_err(), Error::BroadcastSum);
}

#[test]
fn matmul_walks_a_broadcast_batch() {
    let a = f32_tensor(&[1.0, 2.0, 3.0, 4.0], &[2, 1, 2]);
    let b = broadcast(&f32_tensor(&[10.0, 1.0], &[1, 2, 1]), &[2, 2, 1]);
    assert_eq!(values(&times(&a, &b)), vec![12.0, 34.0]);
}

#[test]
fn single_matrices_are_read_by_the_whole_batch() {
    let (b, m, k, n) = (4, 2, 3, 2);
    let a = waves(m * k);
    let c = waves(b * k * n);
    let e = Bmnk { b, m, n, k };
    for dims in [vec![m, k], vec![1, m, k], vec![1, 1, m, k]] {
        let x = f32_tensor(&a, &dims);
        let y = f32_tensor(&c, &[b, k, n]);
        let d = matmul(&x.s, &y.s, e, &x.l, &y.l).unwrap();
        assert_eq!(d.kernel.meta[10], 0);
        let got = values(&run(d, &[&x, &y], &[b, m, n]));
        for i in 0..b {
            for r in 0..m {
                for j in 0..n {
                    let want: f32 =
                        (0..k).map(|s| a[r * k + s] * c[(i * k + s) * n + j]).sum();
                    assert!((got[(i * m + r) * n + j] - want).abs() < 1e-6);
                }
            }
        }
    }
}

// ── reductions ───────────────────────────────────────────────────────

const F32_TOL_TIGHT: f32 = 1e-4;

#[test]
fn sum_along_axis_f32() {
    let xs: Vec<f32> = (1..=24).map(|x| x as f32).collect();
    let t = f32_tensor(&xs, &[2, 3, 4]);
    for axis in 0..3 {
        let want = reduce_reference(&xs, &[2, 3, 4], &[axis], |a, b| a + b);
        let got = values(&reduced(ReduceOp::Sum, &t, &[axis]));
        assert_close(&want, &got, F32_TOL_TIGHT, &format!("sum axis={axis}"));
    }
    let want = reduce_reference(&xs, &[2, 3, 4], &[0, 2], |a, b| a + b);
    let got = values(&reduced(ReduceOp::Sum, &t, &[0, 2]));
    assert_close(&want, &got, F32_TOL_TIGHT, "sum axes=(0,2)");
    assert_eq!(got, vec![68.0, 100.0, 132.0]);
}

#[test]
fn max_along_axis_f32() {
    let mut rng = StdRng::seed_from_u64(0xA5A5_F00D);
    let xs: Vec<f32> = (0..60).map(|_| rng.random::<f32>() * 4.0 - 2.0).collect();
    let t = f32_tensor(&xs, &[3, 4, 5]);
    for axis in 0..3 {
        let want = reduce_reference(&xs, &[3, 4, 5], &[axis], f32::max);
        let got = values(&reduced(ReduceOp::Max, &t, &[axis]));
        assert_close(&want, &got, F32_TOL_TIGHT, &format!("max axis={axis}"));
        let want = reduce_reference(&xs, &[3, 4, 5], &[axis], f32::min);
        let got = values(&reduced(ReduceOp::Min, &t, &[axis]));
        assert_close(&want, &got, F32_TOL_TIGHT, &format!("min axis={axis}"));
    }
}

fn mean_reference(xs: &[f32], dims: &[usize], axis: usize) -> Vec<f32> {
    let sum = reduce_reference(xs, dims, &[axis], |a, b| a + b);
    sum.iter().map(|s| s / dims[axis] as f32).collect()
}

#[test]
fn mean_along_axis_f32() {
    let xs: Vec<f32> = (1..=24).map(|x| x as f32).collect();
    let t = f32_tensor(&xs, &[2, 3, 4]);
    for axis in 0..3 {
        let want = mean_reference(&xs, &[2, 3, 4], axis);
        assert_close(&want, &values(&mean(&t, axis)), F32_TOL_TIGHT, &format!("mean axis={axis}"));
    }
}

fn softmax_via_composition(t: &T, dim: usize) -> T {
    let max = reduced(ReduceOp::Max, t, &[dim]);
    let num = map("exp", &zip_broadcast("sub", t, &max));
    let den = reduced(ReduceOp::Sum, &num, &[dim]);
    zip_broadcast("div", &num, &den)
}

#[test]
fn softmax_last_axis_f32() {
    let xs: Vec<f32> = vec![
        0.0, 1.0, 0.0, 1.0, //
        -2.0, 2.0, 3.0, -3.0, //
        10.0, 10.0, 10.0, 10.0, //
        -50.0, 0.0, 50.0, 100.0,
    ];
    let want = softmax_reference(&xs, 4);
    let got = values(&softmax_via_composition(&f32_tensor(&xs, &[4, 4]), 1));
    assert_close(&want, &got, F32_TOL_TIGHT, "softmax last axis");
    let sums: Vec<f32> = got.chunks(4).map(|r| r.iter().sum::<f32>()).collect();
    for (i, s) in sums.iter().enumerate() {
        assert!((s - 1.0).abs() < 1e-4, "softmax row {i} sum = {s} (expected ~1)");
    }
}

#[test]
fn layernorm_f32() {
    let mut rng = StdRng::seed_from_u64(0xDEAD_F00D);
    let (rows, cols) = (3usize, 8usize);
    let xs: Vec<f32> = (0..rows * cols).map(|_| rng.random::<f32>() * 2.0 - 1.0).collect();
    let alpha: Vec<f32> = (0..cols).map(|i| 1.0 + (i as f32) * 0.1).collect();
    let beta: Vec<f32> = (0..cols).map(|i| (i as f32) * 0.05).collect();
    let eps = 1e-5f32;
    let mut want = Vec::new();
    for row in xs.chunks(cols) {
        let m = row.iter().sum::<f32>() / cols as f32;
        let v = row.iter().map(|x| (x - m) * (x - m)).sum::<f32>() / cols as f32;
        want.extend((0..cols).map(|i| (row[i] - m) / (v + eps).sqrt() * alpha[i] + beta[i]));
    }
    let x = f32_tensor(&xs, &[rows, cols]);
    let inv = (1f64 / cols as f64) as f32;
    let centred = zip_broadcast("sub", &x, &scale(&reduced(ReduceOp::Sum, &x, &[1]), inv, 0.0));
    let var = scale(&reduced(ReduceOp::Sum, &map("sqr", &centred), &[1]), inv, 0.0);
    let normed = zip_broadcast("div", &centred, &map("sqrt", &scale(&var, 1.0, eps)));
    let scaled = zip_broadcast("mul", &normed, &f32_tensor(&alpha, &[cols]));
    let got = zip_broadcast("add", &scaled, &f32_tensor(&beta, &[cols]));
    assert_close(&want, &values(&got), F32_TOL_TIGHT, "layer_norm_slow");
}

fn rms_norm_via_composition(x: &T, alpha: &T, eps: f32) -> T {
    let last = x.l.dims.len() - 1;
    let n = x.l.dims[last];
    let mean = scale(
        &reduced(ReduceOp::Sum, &map("sqr", x), &[last]),
        (1f64 / n as f64) as f32,
        0.0,
    );
    let normed = zip_broadcast("div", x, &map("sqrt", &scale(&mean, 1.0, eps)));
    zip_broadcast("mul", &normed, alpha)
}

fn rms_norm_reference(xs: &[f32], alpha: &[f32], eps: f32) -> Vec<f32> {
    let n = alpha.len();
    let mut out = Vec::new();
    for row in xs.chunks(n) {
        let mean = row.iter().map(|v| v * v).sum::<f32>() / n as f32;
        out.extend((0..n).map(|i| row[i] / (mean + eps).sqrt() * alpha[i]));
    }
    out
}

#[test]
fn rmsnorm_f32() {
    let mut rng = StdRng::seed_from_u64(0xCAFE_BABE);
    let (rows, cols) = (3usize, 8usize);
    let xs: Vec<f32> = (0..rows * cols).map(|_| rng.random::<f32>() * 2.0 - 1.0).collect();
    let alpha: Vec<f32> = (0..cols).map(|i| 1.0 + (i as f32) * 0.1).collect();
    let eps = 1e-5f32;
    let want = rms_norm_reference(&xs, &alpha, eps);
    let got =
        rms_norm_via_composition(&f32_tensor(&xs, &[rows, cols]), &f32_tensor(&alpha, &[cols]), eps);
    assert_close(&want, &values(&got), F32_TOL_TIGHT, "rms_norm_slow");
}

#[test]
fn reduce_random_shapes() {
    let mut rng = StdRng::seed_from_u64(0xBAD_F00D);
    let shapes: &[&[usize]] =
        &[&[8, 16], &[5, 7], &[32, 64], &[2, 3, 4], &[4, 8, 16], &[3, 5, 11]];
    for dims in shapes {
        let n = product(dims);
        let xs: Vec<f32> = (0..n).map(|_| rng.random::<f32>() * 2.0 - 1.0).collect();
        let t = f32_tensor(&xs, dims);
        for axis in 0..dims.len() {
            let tol = if dims[axis] > 1024 { 1e-3 } else { F32_TOL_TIGHT };
            let want = reduce_reference(&xs, dims, &[axis], |a, b| a + b);
            let got = values(&reduced(ReduceOp::Sum, &t, &[axis]));
            assert_close(&want, &got, tol, &format!("sum axis={axis} {dims:?}"));
            let want = reduce_reference(&xs, dims, &[axis], f32::max);
            let got = values(&reduced(ReduceOp::Max, &t, &[axis]));
            assert_close(&want, &got, F32_TOL_TIGHT, &format!("max axis={axis} {dims:?}"));
            let want = mean_reference(&xs, dims, axis);
            assert_close(&want, &values(&mean(&t, axis)), tol, &format!("mean axis={axis} {dims:?}"));
        }
    }
}

#[test]
fn dtype_check() {
    let t = f32_tensor(&[1.0], &[1]);
    assert_eq!(reduced(ReduceOp::Sum, &t, &[0]).s.dtype, DType::F32);
}

#[test]
fn reduce_refusals() {
    let t = f32_tensor(&[1.0, 2.0], &[2]);
    assert_eq!(reduce_op(&t.s, ReduceOp::ArgMax, &t.l, &[0]).unwrap_err(), Error::ArgReduction);
    assert_eq!(
        reduce_op(&t.s, ReduceOp::Sum, &t.l, &[1]).unwrap_err(),
        Error::DimOutOfRange { op: Op::Reduce, dim: 1, rank: 1 }
    );
    let none = f32_tensor(&[], &[0]);
    assert_eq!(reduce_op(&none.s, ReduceOp::Sum, &none.l, &[0]).unwrap_err(), Error::EmptyReduction);
}

#[test]
fn axes_are_a_set() {
    let t = f32_tensor(&waves(24), &[2, 3, 4]);
    let sum = |axes: &[usize]| reduce_op(&t.s, ReduceOp::Sum, &t.l, axes).unwrap();
    let (a, b) = (sum(&[0, 2]), sum(&[2, 0, 2]));
    assert_eq!(a.kernel.meta, b.kernel.meta);
    assert_eq!(a.output.len, 3);
    let all = sum(&[]);
    assert_eq!(values(&run(all, &[&t], &[2, 3, 4])), values(&t));
}

// ── softmax, rotation, attention ─────────────────────────────────────

#[test]
fn softmax_last_dim() {
    let data: Vec<f32> = (0..16).map(|i| (i as f32 - 8.0) * 0.3).collect();
    let got = values(&fused_softmax(&f32_tensor(&data, &[2, 8])));
    assert_close(&softmax_reference(&data, 8), &got, 1e-5, "softmax_last_dim");
}

#[test]
fn softmax_large_row() {
    let n = 256;
    let data: Vec<f32> = (0..(2 * n)).map(|i| ((i as f32) * 0.01).sin()).collect();
    let got = values(&fused_softmax(&f32_tensor(&data, &[2, n])));
    assert_close(&softmax_reference(&data, n), &got, 1e-5, "softmax_large_row");
}

#[test]
fn softmax_refuses_what_is_not_contiguous() {
    let t = transposed(&f32_tensor(&[1.0, 2.0, 3.0, 4.0, 5.0, 6.0], &[2, 3]));
    assert_eq!(softmax_plan(&t.s, &t.l).unwrap_err(), Error::NotContiguous { op: Op::Softmax });
}

fn angles(t: usize, d: usize, step: f32) -> (Vec<f32>, Vec<f32>) {
    let cos = (0..t * d / 2).map(|i| ((i as f32) * step).cos()).collect();
    let sin = (0..t * d / 2).map(|i| ((i as f32) * step).sin()).collect();
    (cos, sin)
}

fn waves(n: usize) -> Vec<f32> {
    (0..n).map(|i| ((i as f32) * 0.013).sin()).collect()
}

/// Rotation of `(b, h, t, d)` with adjacent pairs.
fn rope_i_reference(x: &[f32], cos: &[f32], sin: &[f32], t: usize, d: usize) -> Vec<f32> {
    let mut out = vec![0f32; x.len()];
    for row in 0..x.len() / d {
        for j in 0..d / 2 {
            let (c, s) = (cos[row % t * d / 2 + j], sin[row % t * d / 2 + j]);
            let (a, b) = (x[row * d + 2 * j], x[row * d + 2 * j + 1]);
            out[row * d + 2 * j] = a * c - b * s;
            out[row * d + 2 * j + 1] = a * s + b * c;
        }
    }
    out
}

/// Rotation of rows of `d`, pairs half a row apart; `time` tells a row's
/// position.
fn rope_half_reference(
    x: &[f32],
    cos: &[f32],
    sin: &[f32],
    d: usize,
    time: impl Fn(usize) -> usize,
) -> Vec<f32> {
    let half = d / 2;
    let mut out = vec![0f32; x.len()];
    for row in 0..x.len() / d {
        for j in 0..half {
            let (c, s) = (cos[time(row) * half + j], sin[time(row) * half + j]);
            let (a, b) = (x[row * d + j], x[row * d + j + half]);
            out[row * d + j] = a * c - b * s;
            out[row * d + j + half] = a * s + b * c;
        }
    }
    out
}

#[test]
fn rope_interleaved_f32() {
    let (b, h, t, d) = (1, 2, 4, 8);
    let x = waves(b * h * t * d);
    let (cos, sin) = angles(t, d, 0.05);
    let got = rotate(
        RopeVariant::Interleaved,
        &f32_tensor(&x, &[b, h, t, d]),
        &f32_tensor(&cos, &[t, d / 2]),
        &f32_tensor(&sin, &[t, d / 2]),
    );
    assert_close(&rope_i_reference(&x, &cos, &sin, t, d), &values(&got), 1e-5, "rope_i");
}

#[test]
fn rope_non_interleaved_f32() {
    let (b, h, t, d) = (1, 2, 4, 8);
    let x = waves(b * h * t * d);
    let (cos, sin) = angles(t, d, 0.05);
    let got = rotate(
        RopeVariant::SplitHalves,
        &f32_tensor(&x, &[b, h, t, d]),
        &f32_tensor(&cos, &[t, d / 2]),
        &f32_tensor(&sin, &[t, d / 2]),
    );
    let want = rope_half_reference(&x, &cos, &sin, d, |row| row % t);
    assert_close(&want, &values(&got), 1e-5, "rope");
}

#[test]
fn rope_thd_f32() {
    let (b, t, h, d) = (1, 4, 2, 8);
    let x = waves(b * h * t * d);
    let (cos, sin) = angles(t, d, 0.05);
    let got = rotate(
        RopeVariant::SplitHalvesThd,
        &f32_tensor(&x, &[b, t, h, d]),
        &f32_tensor(&cos, &[t, d / 2]),
        &f32_tensor(&sin, &[t, d / 2]),
    );
    let want = rope_half_reference(&x, &cos, &sin, d, |row| row / h % t);
    assert_close(&want, &values(&got), 1e-5, "rope_thd");
}

#[test]
fn sources_that_must_be_contiguous() {
    for t in [f32_tensor(&waves(4), &[2, 2]), bf16_tensor(&waves(4), &[2, 2])] {
        let flipped = transposed(&t);
        assert_eq!(
            softmax_plan(&flipped.s, &flipped.l).unwrap_err(),
            Error::NotContiguous { op: Op::Softmax }
        );
        let ids = u32_tensor(&[0], &[1]);
        assert_eq!(
            index_select(&flipped.s, &ids.s, &flipped.l, &ids.l, 0).unwrap_err(),
            Error::NotContiguous { op: Op::IndexSelect }
        );
    }
}

#[test]
fn rope_reads_the_rows_that_the_tables_describe() {
    let (b, h, t, d, at) = (1, 2, 3, 8, 5);
    let x = waves(b * h * t * d);
    let (cos, sin) = angles(t + at, d, 0.05);
    let rows = |v: &[f32]| T {
        s: f32_tensor(v, &[t + at, d / 2]).s,
        l: Layout { dims: vec![t, d / 2], stride: vec![d / 2, 1], start_offset: at * d / 2 },
    };
    let want = rope_half_reference(&x, &cos, &sin, d, |row| at + row % t);
    let got = rotate(
        RopeVariant::SplitHalves,
        &f32_tensor(&x, &[b, h, t, d]),
        &rows(&cos),
        &rows(&sin),
    );
    assert_close(&want, &values(&got), 1e-5, "narrowed tables");
    let mixed = rotate(
        RopeVariant::SplitHalves,
        &bf16_tensor(&x, &[b, h, t, d]),
        &rows(&cos),
        &rows(&sin),
    );
    assert_eq!(mixed.s.dtype, DType::BF16);
    assert_close(&want, &values(&mixed), 2e-2, "narrowed tables, bf16 source");
    let mut padded = vec![9.0f32; 4];
    padded.extend(&x);
    let later = T {
        s: f32_tensor(&padded, &[padded.len()]).s,
        l: Layout { start_offset: 4, ..Layout::contiguous(vec![b, h, t, d]) },
    };
    let got = rotate(RopeVariant::SplitHalves, &later, &rows(&cos), &rows(&sin));
    assert_close(&want, &values(&got), 1e-5, "narrowed source");
}

#[test]
fn rope_refusals() {
    let x = f32_tensor(&[0.0; 6], &[1, 1, 2, 3]);
    let a = f32_tensor(&[0.0; 2], &[2, 1]);
    assert_eq!(
        rope(RopeVariant::SplitHalves, &x.s, &x.l, &a.s, &a.l, &a.s, &a.l).unwrap_err(),
        Error::OddHeadDim { dim: 3 }
    );
}

/// Scaled dot-product attention of `(b, h, t, d)`, under a causal mask.
fn causal_sdpa(q: &T, k: &T, v: &T, mask: &T) -> T {
    let dim = q.l.dims[3];
    let scores = scale(&times(q, &transposed(k)), (1.0 / (dim as f64).sqrt()) as f32, 0.0);
    let scores = zip_broadcast("add", &scores, mask);
    times(&softmax_via_composition(&scores, 3), v)
}

fn causal_mask(t: usize) -> T {
    let m: Vec<f32> = (0..t)
        .flat_map(|i| (0..t).map(move |j| if i < j { f32::NEG_INFINITY } else { 0. }))
        .collect();
    f32_tensor(&m, &[1, 1, t, t])
}

fn sdpa_reference(q: &[f32], k: &[f32], v: &[f32], heads: usize, t: usize, d: usize) -> Vec<f32> {
    let mut out = Vec::new();
    for h in 0..heads {
        let at = h * t * d;
        for i in 0..t {
            let scores: Vec<f32> = (0..=i)
                .map(|j| {
                    (0..d).map(|e| q[at + i * d + e] * k[at + j * d + e]).sum::<f32>()
                        / (d as f32).sqrt()
                })
                .collect();
            let w = softmax_reference(&scores, scores.len());
            out.extend((0..d).map(|e| (0..=i).map(|j| w[j] * v[at + j * d + e]).sum::<f32>()));
        }
    }
    out
}

fn qkv(n: usize) -> (Vec<f32>, Vec<f32>, Vec<f32>) {
    let q = (0..n).map(|i| ((i as f32) * 0.011).sin()).collect();
    let k = (0..n).map(|i| ((i as f32) * 0.017).cos()).collect();
    let v = (0..n).map(|i| ((i as f32) * 0.023).sin()).collect();
    (q, k, v)
}

#[test]
fn causal_attention_block_f32() {
    let (b, h, t, dh) = (1, 2, 4, 8);
    let (q, k, v) = qkv(b * h * t * dh);
    let dims = [b, h, t, dh];
    let got = causal_sdpa(
        &f32_tensor(&q, &dims),
        &f32_tensor(&k, &dims),
        &f32_tensor(&v, &dims),
        &causal_mask(t),
    );
    assert_close(&sdpa_reference(&q, &k, &v, h, t, dh), &values(&got), 1e-3, "causal-sdpa");
}

#[test]
fn rope_then_causal_attention_f32() {
    let (b, h, t, dh) = (1, 2, 4, 8);
    let (q, k, v) = qkv(b * h * t * dh);
    let (cos, sin) = angles(t, dh, 0.05);
    let dims = [b, h, t, dh];
    let (cos_t, sin_t) = (f32_tensor(&cos, &[t, dh / 2]), f32_tensor(&sin, &[t, dh / 2]));
    let turn = |x: &[f32]| {
        rotate(RopeVariant::SplitHalves, &f32_tensor(x, &dims), &cos_t, &sin_t)
    };
    let got = causal_sdpa(&turn(&q), &turn(&k), &f32_tensor(&v, &dims), &causal_mask(t));
    let rq = rope_half_reference(&q, &cos, &sin, dh, |row| row % t);
    let rk = rope_half_reference(&k, &cos, &sin, dh, |row| row % t);
    assert_close(&sdpa_reference(&rq, &rk, &v, h, t, dh), &values(&got), 1e-3, "rope+causal-sdpa");
}

// ── bf16 tensors ─────────────────────────────────────────────────────

const TOL: f32 = 5e-2;

fn assert_close_bf16(want: &[f32], got: &T, label: &str) {
    assert_eq!(got.s.dtype, DType::BF16);
    let g = values(got);
    assert_eq!(want.len(), g.len(), "{label}: length mismatch");
    for (i, (a, b)) in want.iter().zip(g.iter()).enumerate() {
        let e = (a - b).abs();
        assert!(e < TOL, "{label}[{i}]: want={a} got={b} err={e} > tol={TOL}");
    }
}

#[test]
fn bf16_unary_silu() {
    let mut rng = StdRng::seed_from_u64(0x510);
    let x = bf16_values(&mut rng, 256);
    let want: Vec<f32> = x.iter().map(|v| silu_reference(*v)).collect();
    assert_close_bf16(&want, &map("silu", &bf16_tensor(&x, &[16, 16])), "silu");
}

#[test]
fn bf16_unary_sin_cos() {
    let mut rng = StdRng::seed_from_u64(0x511);
    let x = bf16_values(&mut rng, 64);
    let t = bf16_tensor(&x, &[8, 8]);
    let sin: Vec<f32> = x.iter().map(|v| v.sin()).collect();
    let cos: Vec<f32> = x.iter().map(|v| v.cos()).collect();
    assert_close_bf16(&sin, &map("sin", &t), "sin");
    assert_close_bf16(&cos, &map("cos", &t), "cos");
}

#[test]
fn bf16_binary_add_mul() {
    let mut rng = StdRng::seed_from_u64(0x512);
    let a = bf16_values(&mut rng, 64);
    let b = bf16_values(&mut rng, 64);
    let (x, y) = (bf16_tensor(&a, &[8, 8]), bf16_tensor(&b, &[8, 8]));
    let add: Vec<f32> = a.iter().zip(&b).map(|(p, q)| p + q).collect();
    let mul: Vec<f32> = a.iter().zip(&b).map(|(p, q)| p * q).collect();
    assert_close_bf16(&add, &zip("add", &x, &y), "add");
    assert_close_bf16(&mul, &zip("mul", &x, &y), "mul");
}

#[test]
fn bf16_binary_broadcast_add() {
    let mut rng = StdRng::seed_from_u64(0x513);
    let x = bf16_values(&mut rng, 32);
    let w = bf16_values(&mut rng, 4);
    let want: Vec<f32> = x.iter().enumerate().map(|(i, v)| v + w[i % 4]).collect();
    let got = zip_broadcast("add", &bf16_tensor(&x, &[8, 4]), &bf16_tensor(&w, &[1, 4]));
    assert_close_bf16(&want, &got, "broadcast_add");
}

#[test]
fn bf16_reduce_sum_keepdim() {
    let mut rng = StdRng::seed_from_u64(0x514);
    let x = bf16_values(&mut rng, 64);
    let want = reduce_reference(&x, &[8, 8], &[1], |a, b| a + b);
    assert_close_bf16(&want, &reduced(ReduceOp::Sum, &bf16_tensor(&x, &[8, 8]), &[1]), "sum_keepdim");
}

#[test]
fn bf16_affine() {
    let mut rng = StdRng::seed_from_u64(0x515);
    let x = bf16_values(&mut rng, 32);
    let want: Vec<f32> = x.iter().map(|v| v * 1.5 - 0.25).collect();
    assert_close_bf16(&want, &scale(&bf16_tensor(&x, &[4, 8]), 1.5, -0.25), "affine");
}

#[test]
fn bf16_index_select_embedding() {
    let mut rng = StdRng::seed_from_u64(0x516);
    let w = bf16_values(&mut rng, 16 * 4);
    let ids = [0u32, 5, 12, 3, 7];
    let got = select(&bf16_tensor(&w, &[16, 4]), &u32_tensor(&ids, &[5]), 0);
    assert_close_bf16(&select_reference(&w, &[16, 4], &ids, 0), &got, "index_select");
}

#[test]
fn bf16_strided_copy_via_contiguous() {
    let mut rng = StdRng::seed_from_u64(0x518);
    let x: Vec<bf16> = bf16_values(&mut rng, 7 * 5).iter().map(|v| bf16::from_f32(*v)).collect();
    let got = contiguous(&transposed(&bf16_of(&x, &[7, 5])));
    let g = halves(&got.s);
    assert_eq!(got.l.dims, vec![5, 7]);
    for i in 0..35 {
        let want = x[(i % 7) * 5 + i / 7].to_bits();
        assert_eq!(want, g[i], "strided_copy[{i}]");
    }
}

#[test]
fn bf16_output_dtype_is_bf16() {
    let mut rng = StdRng::seed_from_u64(0x519);
    let t = bf16_tensor(&bf16_values(&mut rng, 16), &[4, 4]);
    assert_eq!(t.s.dtype, DType::BF16);
    assert_eq!(map("silu", &t).s.dtype, DType::BF16);
    assert_eq!(reduced(ReduceOp::Sum, &t, &[0]).s.dtype, DType::BF16);
    assert_eq!(scale(&t, 2.0, 0.0).s.dtype, DType::BF16);
    assert_eq!(zip("add", &t, &t).s.dtype, DType::BF16);
}

#[test]
fn wgpu_bf16_binary_add() {
    let n = 33usize;
    let a: Vec<f32> = (0..n).map(|i| 0.1 * i as f32 - 1.0).collect();
    let b: Vec<f32> = (0..n).map(|i| 0.05 * i as f32 + 0.5).collect();
    let want: Vec<f32> = a.iter().zip(&b).map(|(x, y)| x + y).collect();
    let got = zip("add", &bf16_tensor(&a, &[n]), &bf16_tensor(&b, &[n]));
    assert_bf16_close("bf16 binary_add", &want, &got, 1e-2);
}

#[test]
fn wgpu_bf16_binary_mul() {
    let n = 64usize;
    let a: Vec<f32> = (0..n).map(|i| (i as f32 * 0.013).sin()).collect();
    let b: Vec<f32> = (0..n).map(|i| (i as f32 * 0.017).cos()).collect();
    let want: Vec<f32> = a.iter().zip(&b).map(|(x, y)| x * y).collect();
    let got = zip("mul", &bf16_tensor(&a, &[n]), &bf16_tensor(&b, &[n]));
    assert_bf16_close("bf16 binary_mul", &want, &got, 1e-2);
}

#[test]
fn wgpu_bf16_index_select_roundtrip() {
    let table: Vec<f32> = (0..6 * 16).map(|i| (i as f32) * 0.01 - 0.3).collect();
    let ids = [2u32, 5, 0];
    let got = select(&bf16_tensor(&table, &[6, 16]), &u32_tensor(&ids, &[3]), 0);
    assert_bf16_close("bf16 index_select", &select_reference(&table, &[6, 16], &ids, 0), &got, 1e-2);
}

#[test]
fn wgpu_bf16_softmax_trivial_one_elem() {
    let got = fused_softmax(&bf16_tensor(&[5.0], &[1, 1, 1, 1]));
    assert_bf16_close("bf16 softmax(1 elem)", &[1.0], &got, 1e-2);
}

#[test]
fn wgpu_bf16_softmax_two_elem() {
    let got = fused_softmax(&bf16_tensor(&[0.0, 1.0], &[1, 1, 1, 2]));
    assert_bf16_close("bf16 softmax(2 elem)", &[0.2689414, 0.7310586], &got, 1e-2);
}

#[test]
fn wgpu_bf16_softmax_last_dim() {
    let (n, rows) = (8usize, 4usize);
    let data: Vec<f32> = (0..rows * n).map(|i| (i as f32) * 0.137 - 1.0).collect();
    let got = fused_softmax(&bf16_tensor(&data, &[1, 1, rows, n]));
    assert_bf16_close("bf16 softmax_last_dim", &softmax_reference(&data, n), &got, 1e-2);
}

#[test]
fn wgpu_bf16_rms_norm() {
    let n = 16usize;
    let x: Vec<f32> = (0..n).map(|i| (i as f32 * 0.07) - 0.3).collect();
    let w: Vec<f32> = (0..n).map(|i| 1.0 + (i as f32 * 0.01)).collect();
    let want = rms_norm_reference(&x, &w, 1e-6);
    let got = rms_norm_via_composition(&bf16_tensor(&x, &[1, n]), &bf16_tensor(&w, &[n]), 1e-6);
    assert_bf16_close("bf16 rms_norm", &want, &got, 1e-2);
}

#[test]
fn wgpu_bf16_unary_silu() {
    let n = 17usize;
    let x: Vec<f32> = (0..n).map(|i| (i as f32 * 0.21) - 1.5).collect();
    let want: Vec<f32> = x.iter().map(|v| silu_reference(*v)).collect();
    assert_bf16_close("bf16 unary silu", &want, &map("silu", &bf16_tensor(&x, &[n])), 1e-2);
}

#[test]
fn wgpu_bf16_rotary_emb_rope() {
    let (b, h, t, d) = (1usize, 2usize, 3usize, 8usize);
    let x = waves(b * h * t * d);
    let (cos, sin) = angles(t, d, 0.5);
    let got = rotate(
        RopeVariant::SplitHalves,
        &bf16_tensor(&x, &[b, h, t, d]),
        &bf16_tensor(&cos, &[t, d / 2]),
        &bf16_tensor(&sin, &[t, d / 2]),
    );
    let want = rope_half_reference(&x, &cos, &sin, d, |row| row % t);
    assert_bf16_close("bf16 rotary_emb (rope)", &want, &got, 5e-2);
}

// ── copies, casts, dispatch sizes ────────────────────────────────────

#[test]
fn copies_of_blocks_and_views() {
    let t = f32_tensor(&[1.0, 2.0, 3.0, 4.0, 5.0, 6.0], &[2, 3]);
    let mut out = zeros(DType::F32, &[8]);
    copy_into(&t, &mut out.s, 2);
    assert_eq!(values(&out), vec![0.0, 0.0, 1.0, 2.0, 3.0, 4.0, 5.0, 6.0]);
    let view = T {
        s: t.s.clone(),
        l: Layout { dims: vec![2, 2], stride: vec![3, 1], start_offset: 1 },
    };
    assert_eq!(values(&contiguous(&view)), vec![2.0, 3.0, 5.0, 6.0]);
}

#[test]
fn copy_refusals() {
    let a = f32_tensor(&[1.0, 2.0], &[2]);
    let b = u32_tensor(&[1, 2], &[2]);
    assert_eq!(
        copy_strided_src(&a.s, &b.s, 0, &a.l).unwrap_err(),
        Error::DTypeMismatch { op: Op::Copy, lhs: DType::F32, rhs: DType::U32 }
    );
    assert_eq!(
        copy2d(&a.s, &b.s, 1, 1, 1, 1, 0, 0).unwrap_err(),
        Error::DTypeMismatch { op: Op::Copy2d, lhs: DType::F32, rhs: DType::U32 }
    );
    match copy2d(&a.s, &a.s, 0, 2, 2, 2, 0, 0).unwrap() {
        RowsPlan::Copies(v) => assert!(v.is_empty()),
        RowsPlan::Moves(_) => panic!("nothing is to be moved"),
    }
}

#[test]
fn rows_of_any_width_are_copied() {
    let src = CpuStorage::F16(vec![0x3c00, 0x4000]);
    let src = WgpuStorage::from_cpu_storage(device(), &src).unwrap();
    let mut one = zeros(DType::F16, &[2]).s;
    let plan = copy2d(&src, &one, 1, 1, 1, 1, 0, 0).unwrap();
    apply_rows(&src, &mut one, &plan);
    assert_eq!(halves(&one), vec![0x3c00, 0]);

    let bytes: Vec<u8> = (0..=255).chain(0..=255).chain(0..=88).collect();
    let src = WgpuStorage::from_cpu_storage(device(), &CpuStorage::U8(bytes.clone())).unwrap();
    let mut dst = zeros(DType::U8, &[600]).s;
    let (rows, width, from, to) = (5, 7, 301, 262);
    let plan = copy2d(&src, &dst, rows, width, 11, 9, from, to).unwrap();
    match &plan {
        RowsPlan::Moves(v) => {
            assert_eq!(v.len(), rows);
            assert_eq!(v[0].src, Window { base: 256, len: 52 });
            assert_eq!(v[0].dst, Window { base: 256, len: 16 });
            assert_eq!(v[0].kernel.meta, vec![45, 6, 7, 0]);
        }
        RowsPlan::Copies(_) => panic!("no buffer copy takes odd offsets"),
    }
    apply_rows(&src, &mut dst, &plan);
    let mut want = vec![0u8; 600];
    for i in 0..rows {
        for j in 0..width {
            want[to + i * 9 + j] = bytes[from + i * 11 + j];
        }
    }
    assert_eq!(dst.buffer.bytes[..600], want[..]);

    let a = bf16_tensor(&[1.0, 2.0, 3.0], &[3, 1]);
    let b = bf16_tensor(&[4.0, 5.0, 6.0, 7.0, 8.0, 9.0], &[3, 2]);
    assert_eq!(values(&cat(&a, &b, 1)), vec![1.0, 4.0, 5.0, 2.0, 6.0, 7.0, 3.0, 8.0, 9.0]);
    assert_eq!(values(&cat(&a, &a, 0)), vec![1.0, 2.0, 3.0, 1.0, 2.0, 3.0]);
}

#[test]
fn rows_on_whole_words_need_no_kernel() {
    let h = bf16_tensor(&[1.0; 8], &[8]);
    match copy2d(&h.s, &h.s, 2, 2, 4, 2, 2, 4).unwrap() {
        RowsPlan::Copies(v) => assert_eq!(
            v,
            vec![
                BufferCopy { src_offset: 4, dst_offset: 8, size: 4 },
                BufferCopy { src_offset: 12, dst_offset: 12, size: 4 },
            ]
        ),
        RowsPlan::Moves(_) => panic!("buffer copies take whole words"),
    }
}

#[test]
fn casts_between_words() {
    let t = u32_tensor(&[1, 2, 3], &[3]);
    let d = match to_dtype(&t.s, &t.l, DType::F32).unwrap() {
        Outcome::Run(d) => d,
        Outcome::Ready(_) => panic!("a kernel was expected"),
    };
    assert_eq!(d.kernel.template, Template::Cast);
    assert_eq!(text(&d.kernel, "__SRC_T__"), "u32");
    assert_eq!(text(&d.kernel, "__DST_T__"), "f32");
    assert_eq!(d.kernel.meta, vec![3, 0, 0, 0]);
    assert_eq!(d.output.dtype, DType::F32);
    let h = bf16_tensor(&[1.0], &[1]);
    assert!(to_dtype(&h.s, &h.l, DType::F32).is_err());
}

#[test]
fn long_dispatches_are_split() {
    assert_eq!(split_1d_dispatch(1), (1, 1));
    assert_eq!(split_1d_dispatch(65535), (65535, 1));
    let (x, y) = split_1d_dispatch(65536);
    assert!(x <= 65535 && y <= 65535 && x as u64 * y as u64 >= 65536);
}

#[test]
fn uniforms_hold_32_bit_words_only() {
    let t = f32_tensor(&[1.0], &[1]);
    let far = Layout { dims: vec![1], stride: vec![1], start_offset: 1 << 33 };
    assert_eq!(
        unary(&t.s, &far, "neg").unwrap_err(),
        Error::ExceedsU32 { op: Op::Unary, what: Quantity::StartOffset, value: 1 << 33 }
    );
}
