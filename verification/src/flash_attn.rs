//! Fused attention of one query position against a cache of keys and values.
//!
//! One workgroup computes one head of one batch entry. The query is the
//! latest position, so every cached position is at or before it; a sliding
//! window leaves the last positions only.

use crate::dtype::DType;
use crate::error::{Error, Op};
use crate::layout::{product, Layout, LayoutView};
use crate::ops::dispatch::{out_storage, output_storage, Groups};
use crate::storage::WgpuStorage;
use vstd::prelude::*;

verus! {

/// The word that stands for a missing window.
pub const NO_WINDOW: u32 = 0xffff_ffff;

/// Parameters of the kernel.
#[derive(Clone, Copy, Debug, PartialEq, Eq, Structural)]
pub struct DecodeParams {
    pub b: u32,
    pub num_heads: u32,
    pub num_kv_heads: u32,
    pub head_dim: u32,
    pub kv_len: u32,
    pub q_offset: u32,
    pub k_offset: u32,
    pub v_offset: u32,
}

/// The buffers that the kernel works on.
#[derive(Clone, Copy, Debug, PartialEq, Eq, Structural)]
pub enum DecodeBuffer {
    Output,
    Query,
    Keys,
    Values,
}

/// The command to the kernel: the buffers that are bound to it and its
/// parameters, both in order, its workgroups, and an estimate of its cost.
#[derive(Clone, Debug)]
pub struct DecodeCommand {
    pub dtype: DType,
    pub bindings: Vec<DecodeBuffer>,
    pub params: Vec<u32>,
    pub groups: Groups,
    pub workload: usize,
}

/// What a [`DecodeCommand`] stands for.
#[verifier::ext_equal]
pub struct DecodeCommandView {
    pub dtype: DType,
    pub bindings: Seq<DecodeBuffer>,
    pub params: Seq<u32>,
    pub groups: Groups,
    pub workload: nat,
}

impl View for DecodeCommand {
    type V = DecodeCommandView;

    open spec fn view(&self) -> DecodeCommandView {
        DecodeCommandView {
            dtype: self.dtype,
            bindings: self.bindings@,
            params: self.params@,
            groups: self.groups,
            workload: self.workload as nat,
        }
    }
}

/// What the kernel can run on: a head of up to 1024 channels that 64 threads
/// share evenly, something to attend to, and keys and values at one offset.
pub open spec fn kernel_accepts(p: DecodeParams) -> bool {
    &&& p.head_dim % 64 == 0
    &&& p.head_dim <= 1024
    &&& p.kv_len > 0
    &&& p.k_offset == p.v_offset
}

/// The command for the given parameters.
pub open spec fn decode_command(dtype: DType, p: DecodeParams, window: Option<u32>)
    -> DecodeCommandView {
    DecodeCommandView {
        dtype,
        bindings: seq![
            DecodeBuffer::Output,
            DecodeBuffer::Query,
            DecodeBuffer::Keys,
            DecodeBuffer::Values,
        ],
        params: seq![
            p.b,
            p.num_heads,
            p.num_kv_heads,
            p.head_dim,
            p.kv_len,
            match window {
                Some(w) => w,
                None => NO_WINDOW,
            },
            p.q_offset,
            p.k_offset,
        ],
        groups: Groups { x: (p.b * p.num_heads) as u32, y: 1, z: 1 },
        workload: (p.b * p.num_heads * p.head_dim) as nat,
    }
}

/// The command for the given parameters, one workgroup per head.
pub fn queue_flash_attn_decode(dtype: DType, p: DecodeParams, sliding_window: Option<u32>) -> (r:
    DecodeCommand)
    requires
        kernel_accepts(p),
        p.b * p.num_heads <= u32::MAX,
        p.b * p.num_heads * p.head_dim <= u32::MAX,
    ensures
        r@ == decode_command(dtype, p, sliding_window),
{
    let mut params: Vec<u32> = Vec::new();
    params.push(p.b);
    params.push(p.num_heads);
    params.push(p.num_kv_heads);
    params.push(p.head_dim);
    params.push(p.kv_len);
    params.push(
        match sliding_window {
            Some(w) => w,
            None => NO_WINDOW,
        },
    );
    params.push(p.q_offset);
    params.push(p.k_offset);
    let mut bindings: Vec<DecodeBuffer> = Vec::new();
    bindings.push(DecodeBuffer::Output);
    bindings.push(DecodeBuffer::Query);
    bindings.push(DecodeBuffer::Keys);
    bindings.push(DecodeBuffer::Values);
    let heads: u32 = p.b * p.num_heads;
    let r = DecodeCommand {
        dtype,
        bindings,
        params,
        groups: Groups { x: heads, y: 1, z: 1 },
        workload: (heads * p.head_dim) as usize,
    };
    proof {
        assert(r@ =~= decode_command(dtype, p, sliding_window));
    }
    r
}

/// Why the shapes and layouts are refused, if they are; the first of several
/// reasons counts.
pub open spec fn decode_refusal(q: LayoutView, k: LayoutView, v: LayoutView) -> Option<Error> {
    let op = Op::FlashAttnDecode;
    if q.dims.len() != 4 {
        Some(Error::BadRank { op, rank: q.dims.len() as usize })
    } else if q.dims[2] != 1 {
        Some(Error::QueryLength { got: q.dims[2] })
    } else if k.dims.len() != 4 {
        Some(Error::BadRank { op, rank: k.dims.len() as usize })
    } else if v.dims.len() != 4 {
        Some(Error::BadRank { op, rank: v.dims.len() as usize })
    } else if !same_heads(q.dims, k.dims) || !same_heads(q.dims, v.dims) {
        Some(Error::ShapeMismatch { op })
    } else if !q.is_contiguous() || !k.is_contiguous() || !v.is_contiguous() {
        Some(Error::NotContiguous { op })
    } else {
        None
    }
}

/// Whether two tensors agree in batch, heads and channels.
pub open spec fn same_heads(a: Seq<usize>, b: Seq<usize>) -> bool {
    a[0] == b[0] && a[1] == b[1] && a[3] == b[3]
}

/// Why the command is not built on a device, if it is not.
pub open spec fn decode_wgpu_refusal(
    q: DType,
    k: DType,
    v: DType,
    ql: LayoutView,
    kl: LayoutView,
    vl: LayoutView,
) -> Option<Error> {
    let op = Op::FlashAttnDecode;
    if decode_refusal(ql, kl, vl) is Some {
        decode_refusal(ql, kl, vl)
    } else if q != k {
        Some(Error::DTypeMismatch { op, lhs: q, rhs: k })
    } else if q != v {
        Some(Error::DTypeMismatch { op, lhs: q, rhs: v })
    } else if kl.dims[2] != vl.dims[2] {
        Some(Error::ShapeMismatch { op })
    } else {
        None
    }
}

/// The kernel's parameters for tensors that are not refused.
pub open spec fn decode_params(q: LayoutView, k: LayoutView, v: LayoutView) -> DecodeParams {
    DecodeParams {
        b: q.dims[0] as u32,
        num_heads: q.dims[1] as u32,
        num_kv_heads: q.dims[1] as u32,
        head_dim: q.dims[3] as u32,
        kv_len: k.dims[2] as u32,
        q_offset: q.start_offset as u32,
        k_offset: k.start_offset as u32,
        v_offset: v.start_offset as u32,
    }
}

/// The parameters fit the kernel, and the output can be counted.
pub open spec fn decode_fits(q: LayoutView, k: LayoutView, v: LayoutView) -> bool {
    let p = decode_params(q, k, v);
    &&& kernel_accepts(p)
    &&& p.b * p.num_heads <= u32::MAX
    &&& p.b * p.num_heads * p.head_dim <= u32::MAX
    &&& product(q.dims) * 8 <= u64::MAX - 3
}

/// Checks that the shapes are those of a decode step.
fn check_decode(q: &Layout, k: &Layout, v: &Layout) -> (r: Result<(), Error>)
    requires
        q@.wf(),
        k@.wf(),
        v@.wf(),
    ensures
        match r {
            Ok(_) => decode_refusal(q@, k@, v@) is None,
            Err(e) => decode_refusal(q@, k@, v@) == Some(e),
        },
{
    let op: Op = Op::FlashAttnDecode;
    if q.dims.len() != 4 {
        return Err(Error::BadRank { op, rank: q.dims.len() });
    }
    if q.dims[2] != 1 {
        return Err(Error::QueryLength { got: q.dims[2] });
    }
    if k.dims.len() != 4 {
        return Err(Error::BadRank { op, rank: k.dims.len() });
    }
    if v.dims.len() != 4 {
        return Err(Error::BadRank { op, rank: v.dims.len() });
    }
    if q.dims[0] != k.dims[0] || q.dims[1] != k.dims[1] || q.dims[3] != k.dims[3] || q.dims[0]
        != v.dims[0] || q.dims[1] != v.dims[1] || q.dims[3] != v.dims[3] {
        return Err(Error::ShapeMismatch { op });
    }
    if !q.is_contiguous() || !k.is_contiguous() || !v.is_contiguous() {
        return Err(Error::NotContiguous { op });
    }
    Ok(())
}

/// The attention of the query that `lq` describes in `q` to the keys and
/// values, which have as many heads as the query: the storage and shape of
/// the result, and the command that computes it.
pub fn flash_attn_decode(
    q: &WgpuStorage,
    lq: &Layout,
    k: &WgpuStorage,
    lk: &Layout,
    v: &WgpuStorage,
    lv: &Layout,
    sliding_window: Option<u32>,
) -> (r: Result<(WgpuStorage, Vec<usize>, DecodeCommand), Error>)
    requires
        lq@.wf(),
        lk@.wf(),
        lv@.wf(),
        decode_wgpu_refusal(q.dtype, k.dtype, v.dtype, lq@, lk@, lv@) is None ==> decode_fits(
            lq@,
            lk@,
            lv@,
        ),
    ensures
        match r {
            Ok((s, shape, c)) => {
                &&& decode_wgpu_refusal(q.dtype, k.dtype, v.dtype, lq@, lk@, lv@) is None
                &&& s@ == out_storage(
                    "wgpu-flash-attn-out"@,
                    product(lq@.dims),
                    q.dtype,
                    q.device,
                )
                &&& shape@ == lq@.dims
                &&& c@ == decode_command(q.dtype, decode_params(lq@, lk@, lv@), sliding_window)
            },
            Err(e) => decode_wgpu_refusal(q.dtype, k.dtype, v.dtype, lq@, lk@, lv@) == Some(e),
        },
{
    let op: Op = Op::FlashAttnDecode;
    match check_decode(lq, lk, lv) {
        Ok(_) => {},
        Err(e) => {
            return Err(e);
        },
    }
    if q.dtype != k.dtype {
        return Err(Error::DTypeMismatch { op, lhs: q.dtype, rhs: k.dtype });
    }
    if q.dtype != v.dtype {
        return Err(Error::DTypeMismatch { op, lhs: q.dtype, rhs: v.dtype });
    }
    if lk.dims[2] != lv.dims[2] {
        return Err(Error::ShapeMismatch { op });
    }
    let elems: usize = lq.elem_count();
    proof {
        let width = q.dtype.spec_size_in_bytes();
        assert(elems * width <= elems * 8) by (nonlinear_arith)
            requires
                width <= 8,
        ;
    }
    let output: WgpuStorage = output_storage("wgpu-flash-attn-out", elems, q.dtype, q.device);
    let p = DecodeParams {
        b: #[verifier::truncate]
        (lq.dims[0] as u32),
        num_heads: #[verifier::truncate]
        (lq.dims[1] as u32),
        num_kv_heads: #[verifier::truncate]
        (lq.dims[1] as u32),
        head_dim: #[verifier::truncate]
        (lq.dims[3] as u32),
        kv_len: #[verifier::truncate]
        (lk.dims[2] as u32),
        q_offset: #[verifier::truncate]
        (lq.start_offset as u32),
        k_offset: #[verifier::truncate]
        (lk.start_offset as u32),
        v_offset: #[verifier::truncate]
        (lv.start_offset as u32),
    };
    let c: DecodeCommand = queue_flash_attn_decode(q.dtype, p, sliding_window);
    let shape: Vec<usize> = crate::ops::scalar::copy_dims(&lq.dims);
    Ok((output, shape, c))
}

/// The kernel is told the shapes and offsets of the tensors as they are, and
/// the window, in the order in which it reads them: sequences, heads, heads of
/// the keys, channels, cached positions, window, the query's offset, that of
/// the keys and values. It has a workgroup for every head of every sequence.
pub proof fn law_decode_parameters(
    dtype: DType,
    q: LayoutView,
    k: LayoutView,
    v: LayoutView,
    window: Option<u32>,
)
    requires
        decode_refusal(q, k, v) is None,
        decode_fits(q, k, v),
        forall|i: int| 0 <= i < 4 ==> q.dims[i] <= u32::MAX && k.dims[i] <= u32::MAX,
        q.start_offset <= u32::MAX && k.start_offset <= u32::MAX && v.start_offset <= u32::MAX,
    ensures
        ({
            let c = decode_command(dtype, decode_params(q, k, v), window);
            &&& c.params.len() == 8
            &&& c.params[0] == q.dims[0] && c.params[1] == q.dims[1]
            &&& c.params[2] == k.dims[1] && c.params[3] == k.dims[3]
            &&& c.params[4] == k.dims[2]
            &&& c.params[5] == (match window {
                Some(w) => w,
                None => u32::MAX,
            })
            &&& c.params[6] == q.start_offset
            &&& c.params[7] == k.start_offset && c.params[7] == v.start_offset
            &&& c.groups.x == q.dims[0] * q.dims[1] && c.groups.y == 1 && c.groups.z == 1
            &&& c.bindings[0] is Output && c.bindings[1] is Query && c.bindings[2] is Keys
                && c.bindings[3] is Values
        }),
{
    assert(q.dims[0] <= u32::MAX && q.dims[1] <= u32::MAX && k.dims[2] <= u32::MAX && k.dims[3]
        <= u32::MAX);
}

/// Whether position `kvi` of `kv_len` cached ones is hidden from the query,
/// which is the last of them.
pub open spec fn hidden(kvi: int, kv_len: int, window: Option<u32>) -> bool {
    let q_pos = kv_len - 1;
    kvi > q_pos || (window matches Some(w) && kvi + w <= q_pos)
}

/// Which of `kv_len` cached positions the query does not see.
pub fn decode_mask(kv_len: u32, window: Option<u32>) -> (r: Vec<bool>)
    ensures
        r@.len() == kv_len,
        forall|i: int| 0 <= i < kv_len ==> #[trigger] r@[i] == hidden(i, kv_len as int, window),
{
    let mut out: Vec<bool> = Vec::new();
    let mut i: u32 = 0;
    while i < kv_len
        invariant
            0 <= i <= kv_len,
            out@.len() == i,
            forall|j: int| 0 <= j < i ==> #[trigger] out@[j] == hidden(j, kv_len as int, window),
        decreases kv_len - i,
    {
        let q_pos: u32 = kv_len - 1;
        let sliding: bool = match window {
            Some(w) => w <= q_pos && i <= q_pos - w,
            None => false,
        };
        out.push(i > q_pos || sliding);
        i = i + 1;
    }
    out
}

/// The query sees the last positions, as many as the window has, or all where
/// there is no window; in particular its own, unless the window is empty.
pub proof fn law_window_is_suffix(kv_len: u32, window: Option<u32>, kvi: int)
    requires
        kv_len > 0,
        0 <= kvi < kv_len,
    ensures
        !hidden(kvi, kv_len as int, window) <==> first_seen(kv_len as nat, window) <= kvi,
        window != Some(0u32) ==> !hidden(kv_len - 1, kv_len as int, window),
{
}

/// A window that covers all cached positions hides what no window hides:
/// nothing.
pub proof fn law_wide_window_is_none(kv_len: u32, w: u32, kvi: int)
    requires
        kv_len <= w,
        0 <= kvi < kv_len,
    ensures
        hidden(kvi, kv_len as int, Some(w)) == hidden(kvi, kv_len as int, None),
        !hidden(kvi, kv_len as int, None),
{
}

/// The first position that the query sees; all of them are hidden behind an
/// empty window.
pub open spec fn first_seen(kv_len: nat, window: Option<u32>) -> nat {
    match window {
        Some(w) if w < kv_len => (kv_len - w) as nat,
        _ => 0,
    }
}

/// The rows of the positions that the query sees, in order: `d` channels each,
/// the first cached position's at `base`.
pub open spec fn seen_rows<T>(
    data: Seq<T>,
    base: nat,
    kv_len: nat,
    d: nat,
    window: Option<u32>,
) -> Seq<Seq<T>> {
    let first = first_seen(kv_len, window);
    Seq::new((kv_len - first) as nat, |j: int| row_of(data, base, (first + j) as nat, d))
}

/// The row of position `i`.
pub open spec fn row_of<T>(data: Seq<T>, base: nat, i: nat, d: nat) -> Seq<T> {
    data.subrange((base + i * d) as int, (base + i * d + d) as int)
}

/// Only the last `w` positions matter: tensors that agree on them give the
/// query the same rows to see, whatever they hold elsewhere.
pub proof fn law_only_window_matters<T>(a: Seq<T>, b: Seq<T>, base: nat, kv_len: nat, d: nat, w: u32)
    requires
        forall|i: nat|
            kv_len <= i + w && i < kv_len ==> #[trigger] row_of(a, base, i, d) == row_of(
                b,
                base,
                i,
                d,
            ),
    ensures
        seen_rows(a, base, kv_len, d, Some(w)) == seen_rows(b, base, kv_len, d, Some(w)),
{
    assert(seen_rows(a, base, kv_len, d, Some(w)) =~= seen_rows(b, base, kv_len, d, Some(w)));
}

/// A window that covers all cached positions gives the query the rows that no
/// window gives it: all of them.
pub proof fn law_wide_window_shows_all<T>(data: Seq<T>, base: nat, kv_len: nat, d: nat, w: u32)
    requires
        kv_len <= w,
    ensures
        seen_rows(data, base, kv_len, d, Some(w)) == seen_rows(data, base, kv_len, d, None),
        seen_rows(data, base, kv_len, d, None).len() == kv_len,
{
}

/// Where the parts of one head lie in the four buffers, in elements.
#[derive(Clone, Copy, Debug, PartialEq, Eq, Structural)]
pub struct HeadSlices {
    pub q_base: usize,
    pub k_base: usize,
    pub v_base: usize,
    pub out_base: usize,
}

/// The places of head number `i`, counted over the batch.
pub open spec fn head_slices(
    i: int,
    kv_len: usize,
    d: usize,
    q_offset: usize,
    k_offset: usize,
    v_offset: usize,
) -> HeadSlices {
    HeadSlices {
        q_base: (q_offset + i * d) as usize,
        k_base: (k_offset + i * kv_len * d) as usize,
        v_base: (v_offset + i * kv_len * d) as usize,
        out_base: (i * d) as usize,
    }
}

/// What the host computes in place of the kernel: every head's places, the
/// cached positions and channels of a head, and which positions are hidden.
#[derive(Clone, Debug)]
pub struct HostDecode {
    pub heads: Vec<HeadSlices>,
    pub kv_len: usize,
    pub head_dim: usize,
    pub hidden: Vec<bool>,
    /// The first position that is not hidden.
    pub first: usize,
    pub shape: Vec<usize>,
}

/// All that the output of one head is computed from, by bit patterns: its query,
/// and the keys and values of the positions that the query sees.
#[derive(Clone, Debug, PartialEq, Eq)]
pub struct HeadInputs {
    pub query: Vec<u32>,
    pub keys: Vec<Vec<u32>>,
    pub values: Vec<Vec<u32>>,
}

/// What rows stand for.
pub open spec fn rows(v: Seq<Vec<u32>>) -> Seq<Seq<u32>> {
    v.map_values(|r: Vec<u32>| r@)
}

fn channels(data: &[u32], at: usize, d: usize) -> (r: Vec<u32>)
    requires
        at + d <= data@.len(),
    ensures
        r@ == data@.subrange(at as int, at + d),
{
    let len: usize = data.len();
    let mut out: Vec<u32> = Vec::new();
    let mut i: usize = 0;
    while i < d
        invariant
            0 <= i <= d,
            at + d <= len,
            len == data@.len(),
            out@ == data@.subrange(at as int, at + i),
        decreases d - i,
    {
        out.push(data[at + i]);
        proof {
            assert(out@ =~= data@.subrange(at as int, at + i + 1));
        }
        i = i + 1;
    }
    proof {
        assert(out@ =~= data@.subrange(at as int, at + d));
    }
    out
}

/// The rows of the positions from `first` on.
fn rows_from(data: &[u32], base: usize, first: usize, kv_len: usize, d: usize) -> (r: Vec<Vec<u32>>)
    requires
        first <= kv_len,
        base + kv_len * d <= data@.len(),
    ensures
        rows(r@) == Seq::new(
            (kv_len - first) as nat,
            |j: int| row_of(data@, base as nat, (first + j) as nat, d as nat),
        ),
{
    let ghost all = Seq::new(
        (kv_len - first) as nat,
        |j: int| row_of(data@, base as nat, (first + j) as nat, d as nat),
    );
    let len: usize = data.len();
    let mut out: Vec<Vec<u32>> = Vec::new();
    let mut i: usize = first;
    proof {
        assert(rows(out@) =~= all.take(0));
    }
    while i < kv_len
        invariant
            first <= i <= kv_len,
            base + kv_len * d <= len,
            len == data@.len(),
            all == Seq::new(
                (kv_len - first) as nat,
                |j: int| row_of(data@, base as nat, (first + j) as nat, d as nat),
            ),
            rows(out@) == all.take(i - first),
        decreases kv_len - i,
    {
        proof {
            let (x, n, c) = (i as int, kv_len as int, d as int);
            assert(0 <= x * c && x * c + c <= n * c) by (nonlinear_arith)
                requires
                    0 <= x < n,
                    c >= 0,
            ;
        }
        let row: Vec<u32> = channels(data, base + i * d, d);
        let ghost so_far = rows(out@);
        out.push(row);
        proof {
            assert(rows(out@) =~= so_far.push(row@));
            assert(row@ == all[i - first]);
            assert(rows(out@) =~= all.take(i - first + 1));
        }
        i = i + 1;
    }
    proof {
        assert(all.take(kv_len - first) =~= all);
    }
    out
}

impl HostDecode {
    /// What the output of head number `head` is computed from.
    pub fn inputs(&self, head: usize, q: &[u32], k: &[u32], v: &[u32]) -> (r: HeadInputs)
        requires
            head < self.heads@.len(),
            self.first <= self.kv_len,
            self.heads@[head as int].q_base + self.head_dim <= q@.len(),
            self.heads@[head as int].k_base + self.kv_len * self.head_dim <= k@.len(),
            self.heads@[head as int].v_base + self.kv_len * self.head_dim <= v@.len(),
        ensures
            ({
                let h = self.heads@[head as int];
                let (n, d) = (self.kv_len as nat, self.head_dim as nat);
                &&& r.query@ == row_of(q@, h.q_base as nat, 0, d)
                &&& rows(r.keys@) == Seq::new(
                    (n - self.first) as nat,
                    |j: int| row_of(k@, h.k_base as nat, (self.first + j) as nat, d),
                )
                &&& rows(r.values@) == Seq::new(
                    (n - self.first) as nat,
                    |j: int| row_of(v@, h.v_base as nat, (self.first + j) as nat, d),
                )
            }),
    {
        let h: HeadSlices = self.heads[head];
        HeadInputs {
            query: channels(q, h.q_base, self.head_dim),
            keys: rows_from(k, h.k_base, self.first, self.kv_len, self.head_dim),
            values: rows_from(v, h.v_base, self.first, self.kv_len, self.head_dim),
        }
    }
}

/// Why the host refuses, if it does; the first of several reasons counts.
pub open spec fn host_refusal(
    q: DType,
    k: DType,
    v: DType,
    ql: LayoutView,
    kl: LayoutView,
    vl: LayoutView,
) -> Option<Error> {
    let op = Op::FlashAttnDecode;
    if decode_refusal(ql, kl, vl) is Some {
        decode_refusal(ql, kl, vl)
    } else if !(q is F32) {
        Some(Error::UnsupportedDType { op, dtype: q })
    } else if !(k is F32) {
        Some(Error::UnsupportedDType { op, dtype: k })
    } else if !(v is F32) {
        Some(Error::UnsupportedDType { op, dtype: v })
    } else if kl.dims[2] != vl.dims[2] {
        Some(Error::ShapeMismatch { op })
    } else {
        None
    }
}

/// The layouts lie in storages that can be addressed.
pub open spec fn host_fits(q: LayoutView, k: LayoutView, v: LayoutView) -> bool {
    &&& 0 < k.dims[2] <= u32::MAX
    &&& q.start_offset + q.dims[0] * q.dims[1] * q.dims[3] <= usize::MAX
    &&& q.dims[0] * q.dims[1] <= usize::MAX
    &&& k.start_offset + q.dims[0] * q.dims[1] * k.dims[2] * q.dims[3] <= usize::MAX
    &&& v.start_offset + q.dims[0] * q.dims[1] * k.dims[2] * q.dims[3] <= usize::MAX
}

/// Where the keys or values of head number `i` start: `i * kv_len * d`.
fn head_base(i: usize, kv_len: usize, d: usize) -> (r: usize)
    requires
        i * kv_len * d <= usize::MAX,
    ensures
        r == i * kv_len * d,
{
    if d == 0 {
        proof {
            assert(i * kv_len * d == 0) by (nonlinear_arith)
                requires
                    d == 0,
            ;
        }
        return 0;
    }
    proof {
        let (p, a) = (i * kv_len, d as int);
        assert(0 <= p) by (nonlinear_arith)
            requires
                p == i * kv_len,
                i >= 0,
                kv_len >= 0,
        ;
        assert(p <= p * a) by (nonlinear_arith)
            requires
                p >= 0,
                a >= 1,
        ;
    }
    i * kv_len * d
}

/// The host's work on the attention of the query to the keys and values.
pub fn plan_host_decode(
    q: DType,
    lq: &Layout,
    k: DType,
    lk: &Layout,
    v: DType,
    lv: &Layout,
    sliding_window: Option<u32>,
) -> (r: Result<HostDecode, Error>)
    requires
        lq@.wf(),
        lk@.wf(),
        lv@.wf(),
        host_refusal(q, k, v, lq@, lk@, lv@) is None ==> host_fits(lq@, lk@, lv@),
    ensures
        match r {
            Ok(h) => {
                let (n, kv_len, d) = (lq@.dims[0] * lq@.dims[1], lk@.dims[2], lq@.dims[3]);
                &&& host_refusal(q, k, v, lq@, lk@, lv@) is None
                &&& h.heads@ == Seq::new(
                    n as nat,
                    |i: int|
                        head_slices(
                            i,
                            kv_len,
                            d,
                            lq@.start_offset,
                            lk@.start_offset,
                            lv@.start_offset,
                        ),
                )
                &&& h.kv_len == kv_len && h.head_dim == d
                &&& h.hidden@ == Seq::new(
                    kv_len as nat,
                    |i: int| hidden(i, kv_len as int, sliding_window),
                )
                &&& h.first == first_seen(kv_len as nat, sliding_window)
                &&& h.shape@ == lq@.dims
            },
            Err(e) => host_refusal(q, k, v, lq@, lk@, lv@) == Some(e),
        },
{
    let op: Op = Op::FlashAttnDecode;
    match check_decode(lq, lk, lv) {
        Ok(_) => {},
        Err(e) => {
            return Err(e);
        },
    }
    if q != DType::F32 {
        return Err(Error::UnsupportedDType { op, dtype: q });
    }
    if k != DType::F32 {
        return Err(Error::UnsupportedDType { op, dtype: k });
    }
    if v != DType::F32 {
        return Err(Error::UnsupportedDType { op, dtype: v });
    }
    if lk.dims[2] != lv.dims[2] {
        return Err(Error::ShapeMismatch { op });
    }
    let n: usize = lq.dims[0] * lq.dims[1];
    let kv_len: usize = lk.dims[2];
    let d: usize = lq.dims[3];
    let (qo, ko, vo): (usize, usize, usize) = (lq.start_offset, lk.start_offset, lv.start_offset);
    let ghost all = Seq::new(n as nat, |i: int| head_slices(i, kv_len, d, qo, ko, vo));
    let mut heads: Vec<HeadSlices> = Vec::new();
    let mut i: usize = 0;
    while i < n
        invariant
            0 <= i <= n,
            qo + n * d <= usize::MAX,
            ko + n * kv_len * d <= usize::MAX,
            vo + n * kv_len * d <= usize::MAX,
            all == Seq::new(n as nat, |j: int| head_slices(j, kv_len, d, qo, ko, vo)),
            heads@ == all.take(i as int),
        decreases n - i,
    {
        proof {
            let (x, y, a, c) = (i as int, n as int, d as int, kv_len as int);
            assert(0 <= x * a <= y * a) by (nonlinear_arith)
                requires
                    0 <= x < y,
                    a >= 0,
            ;
            assert(0 <= x * c <= y * c) by (nonlinear_arith)
                requires
                    0 <= x < y,
                    c >= 0,
            ;
            assert(0 <= x * c * a <= y * c * a) by (nonlinear_arith)
                requires
                    0 <= x * c <= y * c,
                    a >= 0,
            ;
        }
        let base: usize = head_base(i, kv_len, d);
        heads.push(
            HeadSlices { q_base: qo + i * d, k_base: ko + base, v_base: vo + base, out_base: i * d },
        );
        proof {
            assert(heads@.last() == all[i as int]);
            assert(all.take(i + 1) =~= all.take(i as int).push(all[i as int]));
        }
        i = i + 1;
    }
    proof {
        assert(all.take(i as int) =~= all);
    }
    let first: usize = match sliding_window {
        Some(w) => if (w as usize) < kv_len {
            kv_len - w as usize
        } else {
            0
        },
        None => 0,
    };
    let mask: Vec<bool> = decode_mask(kv_len as u32, sliding_window);
    proof {
        assert(mask@ =~= Seq::new(
            kv_len as nat,
            |i: int| hidden(i, kv_len as int, sliding_window),
        ));
    }
    Ok(
        HostDecode {
            heads,
            kv_len,
            head_dim: d,
            hidden: mask,
            first,
            shape: crate::ops::scalar::copy_dims(&lq.dims),
        },
    )
}

} // verus!
