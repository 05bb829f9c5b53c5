//! Activations packed into blocks of 256 signed bytes.
//!
//! A block is a scale, the 256 bytes, and the sums of each 16 of them. The
//! scale is the reciprocal of `-128 / max`, where `max` is the element of the
//! largest magnitude, the first of several; its byte is -128.

use crate::bytes::{capacity, le_bytes, lemma_capacities, lemma_le_bytes_len, push_le};
use crate::device::WgpuDevice;
use crate::dtype::{DType, GgmlDType};
use crate::error::Error;
use crate::ops::dispatch::{out_storage, output_storage, Groups};
use crate::quantized::command::{
    bind_two, QBuffer, QCommand, QCommandView, QFunction, QPipeline, Work,
};
use crate::storage::{round_up, StorageView, WgpuStorage};
use vstd::prelude::*;

verus! {

/// Elements of a block.
pub const QK_K: usize = 256;

/// 32-bit words of a block.
pub const BLOCK_WORDS: usize = 73;

/// Bytes of a block.
pub const BLOCK_BYTES: usize = 292;

/// The storage for the blocks of `n_blocks` blocks.
pub open spec fn q8k_storage(device: WgpuDevice, n_blocks: nat) -> StorageView {
    out_storage("wgpu-q8k-blocks"@, n_blocks * 73, DType::U32, device)
}

/// The command that packs a row, one workgroup per block.
pub open spec fn q8k_command(total: usize) -> QCommandView {
    QCommandView {
        pipeline: QPipeline { dtype: GgmlDType::Q8K, function: QFunction::QuantizeRowToQ8k },
        bindings: seq![QBuffer::Packed, QBuffer::Source],
        consts: Seq::empty(),
        params: seq![(total as u32) as usize],
        work: Work::Groups(Groups { x: (total / 256) as u32, y: 1, z: 1 }),
        workload: total as nat,
    }
}

/// The blocks of a row can be counted in words and addressed in bytes.
pub open spec fn row_fits(total: usize) -> bool {
    &&& (total / 256) * 73 <= usize::MAX
    &&& (total / 256) * 73 * 4 <= u64::MAX - 3
}

/// Storage for the blocks of a contiguous row of `total` elements, and the
/// command that packs the row into them. The row must fill its blocks.
pub fn quantize_row_to_q8k(device: &WgpuDevice, total: usize) -> (r: Result<
    (WgpuStorage, QCommand),
    Error,
>)
    requires
        total % QK_K == 0 ==> row_fits(total),
    ensures
        match r {
            Ok((s, c)) => total % QK_K == 0 && s@ == q8k_storage(*device, (total / QK_K) as nat)
                && c@ == q8k_command(total),
            Err(e) => total % QK_K != 0 && e == (Error::PartialBlock { elems: total, block: QK_K }),
        },
{
    if total % QK_K != 0 {
        return Err(Error::PartialBlock { elems: total, block: QK_K });
    }
    let n_blocks: usize = total / QK_K;
    let words: usize = n_blocks * BLOCK_WORDS;
    let s: WgpuStorage = output_storage("wgpu-q8k-blocks", words, DType::U32, *device);
    let mut params: Vec<usize> = Vec::new();
    let count: u32 = #[verifier::truncate]
    (total as u32);
    params.push(count as usize);
    let groups: u32 = #[verifier::truncate]
    (n_blocks as u32);
    let c = QCommand {
        pipeline: QPipeline { dtype: GgmlDType::Q8K, function: QFunction::QuantizeRowToQ8k },
        bindings: bind_two(QBuffer::Packed, QBuffer::Source),
        consts: Vec::new(),
        params,
        work: Work::Groups(Groups { x: groups, y: 1, z: 1 }),
        workload: total,
    };
    proof {
        assert(c@ =~= q8k_command(total));
    }
    Ok((s, c))
}

/// The storage holds exactly the bytes of the row's blocks, and there is one
/// workgroup for each.
pub proof fn law_blocks_fill_storage(device: WgpuDevice, n_blocks: u32)
    ensures
        q8k_storage(device, n_blocks as nat).buffer.size == n_blocks * BLOCK_BYTES,
        n_blocks * 256 <= usize::MAX ==> q8k_command((n_blocks * 256) as usize).work
            == Work::Groups(Groups { x: n_blocks, y: 1, z: 1 }),
        GgmlDType::Q8K.spec_type_size() == BLOCK_BYTES,
        GgmlDType::Q8K.spec_block_size() == QK_K,
{
    let words = n_blocks as nat * 73;
    assert(words * DType::U32.spec_size_in_bytes() == n_blocks * 292) by {
        assert(DType::U32.spec_size_in_bytes() == 4);
    }
    assert(round_up((n_blocks * 292) as nat) == n_blocks * 292);
    if n_blocks * 256 <= usize::MAX {
        let total = (n_blocks * 256) as usize;
        assert(total / 256 == n_blocks);
    }
}

/// Magnitude of an f32, by its bit pattern: magnitudes are ordered as these
/// numbers are.
pub open spec fn magnitude(bits: u32) -> nat {
    if bits >= 0x8000_0000 {
        (bits - 0x8000_0000) as nat
    } else {
        bits as nat
    }
}

/// Whether an f32 has a size that can set the scale: it is neither zero nor
/// no number.
pub open spec fn counts(bits: u32) -> bool {
    0 < magnitude(bits) <= 0x7f80_0000
}

/// Whether element `p` is the first of the largest magnitude.
pub open spec fn is_peak(row: Seq<u32>, p: int) -> bool {
    &&& 0 <= p < row.len()
    &&& counts(row[p])
    &&& forall|j: int|
        0 <= j < row.len() && counts(#[trigger] row[j]) ==> magnitude(row[j]) <= magnitude(row[p])
    &&& forall|j: int|
        0 <= j < p && counts(#[trigger] row[j]) ==> magnitude(row[j]) < magnitude(row[p])
}

/// The first element of the largest magnitude of a row of f32 bit patterns,
/// if the row has anything but zeros.
pub fn peak(row: &[u32]) -> (r: Option<usize>)
    ensures
        match r {
            Some(p) => is_peak(row@, p as int),
            None => forall|j: int| 0 <= j < row@.len() ==> !counts(#[trigger] row@[j]),
        },
{
    let mut best: u32 = 0;
    let mut found: Option<usize> = None;
    let mut i: usize = 0;
    while i < row.len()
        invariant
            0 <= i <= row@.len(),
            best <= 0x7f80_0000,
            match found {
                Some(p) => {
                    &&& p < i
                    &&& is_peak(row@.take(i as int), p as int)
                    &&& best == magnitude(row@[p as int])
                },
                None => best == 0 && forall|j: int| 0 <= j < i ==> !counts(#[trigger] row@[j]),
            },
        decreases row.len() - i,
    {
        let bits: u32 = row[i];
        let m: u32 = if bits >= 0x8000_0000 {
            bits - 0x8000_0000
        } else {
            bits
        };
        let ghost head = row@.take(i as int);
        let ghost next = row@.take(i + 1);
        proof {
            assert(forall|j: int| 0 <= j < i ==> #[trigger] next[j] == head[j]);
            assert(forall|j: int| 0 <= j < i ==> #[trigger] head[j] == row@[j]);
            assert(next[i as int] == bits);
        }
        if best < m && m <= 0x7f80_0000 {
            best = m;
            found = Some(i);
            proof {
                assert forall|j: int| 0 <= j < i && counts(#[trigger] next[j]) implies magnitude(
                    next[j],
                ) < m by {
                    assert(next[j] == row@[j]);
                    assert(head[j] == row@[j]);
                }
                assert(is_peak(next, i as int));
            }
        } else {
            proof {
                if let Some(p) = found {
                    assert(next[p as int] == head[p as int]);
                    assert forall|j: int| 0 <= j < next.len() && counts(
                        #[trigger] next[j],
                    ) implies magnitude(next[j]) <= magnitude(next[p as int]) by {
                        if j < i {
                            assert(next[j] == head[j]);
                        }
                    }
                    assert forall|j: int| 0 <= j < p && counts(
                        #[trigger] next[j],
                    ) implies magnitude(next[j]) < magnitude(next[p as int]) by {
                        assert(next[j] == head[j]);
                    }
                    assert(is_peak(next, p as int));
                }
            }
        }
        i = i + 1;
    }
    proof {
        assert(row@.take(i as int) =~= row@);
    }
    found
}

/// The row has one peak at most.
pub proof fn law_peak_unique(row: Seq<u32>, p: int, q: int)
    requires
        is_peak(row, p),
        is_peak(row, q),
    ensures
        p == q,
{
    assert(counts(row[p]) && counts(row[q]));
}

/// A packed block: the scale's bit pattern, and the 256 signed bytes.
#[derive(Clone, Debug)]
pub struct BlockQ8K {
    pub d: u32,
    pub qs: Vec<i8>,
}

/// Sum of the bytes `[16 * g, 16 * g + n)`.
pub open spec fn partial_sum(qs: Seq<i8>, g: int, n: nat) -> int
    decreases n,
{
    if n == 0 {
        0
    } else {
        partial_sum(qs, g, (n - 1) as nat) + qs[16 * g + n - 1]
    }
}

/// Sum of group `g` of 16 bytes.
pub open spec fn group_sum(qs: Seq<i8>, g: int) -> int {
    partial_sum(qs, g, 16)
}

/// The two's complement of a number in `width` bytes, lowest first.
pub open spec fn signed_bytes(v: int, width: nat) -> Seq<u8> {
    le_bytes(
        (if v < 0 {
            v + capacity(width)
        } else {
            v
        }) as nat,
        width,
    )
}

/// The bytes of a list of numbers, `width` to each.
pub open spec fn signed_run(vs: Seq<int>, width: nat) -> Seq<u8>
    decreases vs.len(),
{
    if vs.len() == 0 {
        Seq::empty()
    } else {
        signed_run(vs.drop_last(), width) + signed_bytes(vs.last(), width)
    }
}

/// The bytes of a block: the scale, the bytes, the group sums.
pub open spec fn block_bytes(d: u32, qs: Seq<i8>) -> Seq<u8> {
    le_bytes(d as nat, 4) + signed_run(qs.map_values(|q: i8| q as int), 1) + signed_run(
        Seq::new(16, |g: int| group_sum(qs, g)),
        2,
    )
}

proof fn lemma_partial_sum_bounds(qs: Seq<i8>, g: int, n: nat)
    requires
        0 <= g,
        16 * g + n <= qs.len(),
    ensures
        -128 * n <= partial_sum(qs, g, n) <= 127 * n,
    decreases n,
{
    if n > 0 {
        lemma_partial_sum_bounds(qs, g, (n - 1) as nat);
    }
}

proof fn lemma_signed_run_len(vs: Seq<int>, width: nat)
    ensures
        signed_run(vs, width).len() == vs.len() * width,
    decreases vs.len(),
{
    if vs.len() > 0 {
        lemma_signed_run_len(vs.drop_last(), width);
        let v = vs.last();
        lemma_le_bytes_len(
            (if v < 0 {
                v + capacity(width)
            } else {
                v
            }) as nat,
            width,
        );
        assert(vs.len() * width == (vs.len() - 1) * width + width) by (nonlinear_arith);
    }
}

/// A block of 256 elements is 292 bytes long, and its group sums fit 16 bits.
pub proof fn law_block_size(d: u32, qs: Seq<i8>)
    requires
        qs.len() == 256,
    ensures
        block_bytes(d, qs).len() == BLOCK_BYTES == 4 * BLOCK_WORDS,
        forall|g: int| 0 <= g < 16 ==> -2048 <= #[trigger] group_sum(qs, g) <= 2032,
{
    lemma_le_bytes_len(d as nat, 4);
    lemma_signed_run_len(qs.map_values(|q: i8| q as int), 1);
    lemma_signed_run_len(Seq::new(16, |g: int| group_sum(qs, g)), 2);
    assert forall|g: int| 0 <= g < 16 implies -2048 <= #[trigger] group_sum(qs, g) <= 2032 by {
        lemma_partial_sum_bounds(qs, g, 16);
    }
}

/// Sum of group `g` of 16 bytes.
fn sum_group(qs: &Vec<i8>, g: usize) -> (r: i16)
    requires
        qs@.len() == 256,
        g < 16,
    ensures
        r == group_sum(qs@, g as int),
{
    let mut sum: i16 = 0;
    let mut i: usize = 0;
    while i < 16
        invariant
            0 <= i <= 16,
            qs@.len() == 256,
            g < 16,
            sum == partial_sum(qs@, g as int, i as nat),
        decreases 16 - i,
    {
        proof {
            lemma_partial_sum_bounds(qs@, g as int, i as nat);
        }
        sum = sum + qs[16 * g + i] as i16;
        i = i + 1;
    }
    sum
}

impl BlockQ8K {
    /// The sums of each 16 bytes.
    pub fn bsums(&self) -> (r: Vec<i16>)
        requires
            self.qs@.len() == 256,
        ensures
            r@.len() == 16,
            forall|g: int| 0 <= g < 16 ==> #[trigger] r@[g] == group_sum(self.qs@, g),
    {
        let mut out: Vec<i16> = Vec::new();
        let mut g: usize = 0;
        while g < 16
            invariant
                0 <= g <= 16,
                self.qs@.len() == 256,
                out@.len() == g,
                forall|j: int| 0 <= j < g ==> #[trigger] out@[j] == group_sum(self.qs@, j),
            decreases 16 - g,
        {
            out.push(sum_group(&self.qs, g));
            g = g + 1;
        }
        out
    }

    /// The bytes of the block, as kernels read it.
    pub fn to_bytes(&self) -> (r: Vec<u8>)
        requires
            self.qs@.len() == 256,
        ensures
            r@ == block_bytes(self.d, self.qs@),
            r@.len() == BLOCK_BYTES,
    {
        let mut out: Vec<u8> = Vec::new();
        push_le(&mut out, self.d as u64, 4);
        let ghost start = out@;
        let ghost qs = self.qs@.map_values(|q: i8| q as int);
        let mut i: usize = 0;
        proof {
            lemma_capacities();
            assert(start =~= le_bytes(self.d as nat, 4));
            assert(start + signed_run(qs.take(0), 1) =~= start);
        }
        while i < 256
            invariant
                0 <= i <= 256,
                self.qs@.len() == 256,
                qs == self.qs@.map_values(|q: i8| q as int),
                capacity(1) == 0x100,
                out@ == start + signed_run(qs.take(i as int), 1),
            decreases 256 - i,
        {
            let q: i8 = self.qs[i];
            let word: u64 = if q < 0 {
                (q as i16 + 256) as u64
            } else {
                q as u64
            };
            push_le(&mut out, word, 1);
            proof {
                assert(qs.take(i + 1).drop_last() =~= qs.take(i as int));
                assert(qs.take(i + 1).last() == q);
                assert(start + signed_run(qs.take(i as int), 1) + signed_bytes(q as int, 1)
                    =~= start + signed_run(qs.take(i + 1), 1));
            }
            i = i + 1;
        }
        let sums: Vec<i16> = self.bsums();
        let ghost mid = out@;
        let ghost gs = Seq::new(16, |g: int| group_sum(self.qs@, g));
        let mut g: usize = 0;
        proof {
            assert(qs.take(256) =~= qs);
            assert(mid + signed_run(gs.take(0), 2) =~= mid);
        }
        while g < 16
            invariant
                0 <= g <= 16,
                sums@.len() == 16,
                gs.len() == 16,
                forall|j: int| 0 <= j < 16 ==> #[trigger] sums@[j] == gs[j],
                capacity(2) == 0x1_0000,
                out@ == mid + signed_run(gs.take(g as int), 2),
            decreases 16 - g,
        {
            let v: i16 = sums[g];
            let word: u64 = if v < 0 {
                (v as i32 + 65536) as u64
            } else {
                v as u64
            };
            push_le(&mut out, word, 2);
            proof {
                assert(gs.take(g + 1).drop_last() =~= gs.take(g as int));
                assert(gs.take(g + 1).last() == v);
                assert(mid + signed_run(gs.take(g as int), 2) + signed_bytes(v as int, 2) =~= mid
                    + signed_run(gs.take(g + 1), 2));
            }
            g = g + 1;
        }
        proof {
            assert(gs.take(16) =~= gs);
            law_block_size(self.d, self.qs@);
        }
        out
    }
}

} // verus!
