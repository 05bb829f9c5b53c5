//! Attention masks: zero where a query sees a position, minus infinity where
//! it does not, added to the scores before the softmax.

use crate::flash_attn::hidden;
use vstd::prelude::*;

verus! {

/// Bit pattern of the f32 minus infinity.
pub const NEG_INFINITY: u32 = 0xff80_0000;

/// A mask of `rows` queries by `cols` positions, by f32 bit patterns, row by
/// row; it is broadcast over `batch` entries and all heads.
#[derive(Clone, Debug)]
pub struct Mask {
    pub batch: usize,
    pub rows: usize,
    pub cols: usize,
    pub bits: Vec<u32>,
}

/// The word of a mask.
pub open spec fn word(is_hidden: bool) -> u32 {
    if is_hidden {
        NEG_INFINITY
    } else {
        0
    }
}

/// The words of a mask, row by row, that hides what `f` says.
pub open spec fn mask_words(rows: nat, cols: nat, f: spec_fn(int, int) -> bool) -> Seq<u32> {
    Seq::new(rows * cols, |p: int| word(f(p / cols as int, p % cols as int)))
}

/// Whether position `j` is hidden from query `i`, in a mask whose first
/// `offset` positions were seen before and stay visible. Within the others a
/// query sees those before it, and itself; with a window, those at most
/// `window` before it.
pub open spec fn decoder_hidden(offset: int, window: Option<usize>, i: int, j: int) -> bool {
    let k = j - offset;
    k >= 0 && (i < k || (window matches Some(w) && k + w < i))
}

/// Whether position `j` is hidden from query `i`, which stands at `offset +
/// i`: what comes after it is.
pub open spec fn causal_hidden(offset: int, i: int, j: int) -> bool {
    j > offset + i
}

/// Whether position `j` is hidden from query `i`, which stands at `offset +
/// i`: what comes after it is, and what lies `window` or more before it.
pub open spec fn sliding_hidden(offset: int, window: int, i: int, j: int) -> bool {
    j > offset + i || offset + i - j >= window
}

/// The mask of `tgt_len` queries behind `seqlen_offset` positions that all of
/// them see.
pub fn prepare_decoder_attention_mask(
    b_size: usize,
    tgt_len: usize,
    seqlen_offset: usize,
    sliding_window: Option<usize>,
) -> (r: Mask)
    requires
        tgt_len + seqlen_offset <= usize::MAX,
        tgt_len * (tgt_len + seqlen_offset) <= usize::MAX,
        sliding_window matches Some(w) ==> tgt_len + w <= usize::MAX,
    ensures
        r.batch == b_size,
        r.rows == tgt_len,
        r.cols == tgt_len + seqlen_offset,
        r.bits@ == mask_words(
            tgt_len as nat,
            (tgt_len + seqlen_offset) as nat,
            |i: int, j: int| decoder_hidden(seqlen_offset as int, sliding_window, i, j),
        ),
{
    let cols: usize = tgt_len + seqlen_offset;
    let ghost f = |i: int, j: int| decoder_hidden(seqlen_offset as int, sliding_window, i, j);
    let ghost all = mask_words(tgt_len as nat, cols as nat, f);
    let mut bits: Vec<u32> = Vec::new();
    let mut i: usize = 0;
    proof {
        assert(0 * cols == 0) by (nonlinear_arith);
    }
    while i < tgt_len
        invariant
            0 <= i <= tgt_len,
            cols == tgt_len + seqlen_offset,
            sliding_window matches Some(w) ==> tgt_len + w <= usize::MAX,
            f == (|i: int, j: int| decoder_hidden(seqlen_offset as int, sliding_window, i, j)),
            all == mask_words(tgt_len as nat, cols as nat, f),
            bits@ == all.take(i * cols),
            i * cols <= all.len(),
        decreases tgt_len - i,
    {
        let mut j: usize = 0;
        proof {
            lemma_row_fits(i as int, tgt_len as int, cols as int);
        }
        while j < cols
            invariant
                0 <= j <= cols,
                0 <= i < tgt_len,
                cols == tgt_len + seqlen_offset,
                sliding_window matches Some(w) ==> tgt_len + w <= usize::MAX,
                f == (|i: int, j: int| decoder_hidden(seqlen_offset as int, sliding_window, i, j)),
                all == mask_words(tgt_len as nat, cols as nat, f),
                all.len() == tgt_len * cols,
                i * cols + cols <= tgt_len * cols,
                bits@ == all.take(i * cols + j),
            decreases cols - j,
        {
            let is_hidden: bool = if j < seqlen_offset {
                false
            } else {
                let k: usize = j - seqlen_offset;
                i < k || match sliding_window {
                    Some(w) => k + w < i,
                    None => false,
                }
            };
            let w: u32 = if is_hidden {
                NEG_INFINITY
            } else {
                0
            };
            bits.push(w);
            proof {
                lemma_place(i as int, j as int, cols as int);
                assert(is_hidden == f(i as int, j as int));
                assert(all[i * cols + j] == w);
                assert(all.take(i * cols + j + 1) =~= all.take(i * cols + j).push(w));
            }
            j = j + 1;
        }
        proof {
            assert((i + 1) * cols == i * cols + cols) by (nonlinear_arith);
        }
        i = i + 1;
    }
    proof {
        assert(all.take(tgt_len * cols) =~= all);
    }
    Mask { batch: b_size, rows: tgt_len, cols, bits }
}

/// The mask of `seq_len` queries that stand behind `seqlen_offset` positions.
pub fn prepare_attention_mask(b_sz: usize, seq_len: usize, seqlen_offset: usize) -> (r: Mask)
    requires
        seqlen_offset + seq_len <= usize::MAX,
        seq_len * (seqlen_offset + seq_len) <= usize::MAX,
    ensures
        r.batch == b_sz,
        r.rows == seq_len,
        r.cols == seqlen_offset + seq_len,
        r.bits@ == mask_words(
            seq_len as nat,
            (seqlen_offset + seq_len) as nat,
            |i: int, j: int| causal_hidden(seqlen_offset as int, i, j),
        ),
{
    let cols: usize = seqlen_offset + seq_len;
    let ghost f = |i: int, j: int| causal_hidden(seqlen_offset as int, i, j);
    let ghost all = mask_words(seq_len as nat, cols as nat, f);
    let mut bits: Vec<u32> = Vec::new();
    let mut i: usize = 0;
    proof {
        assert(0 * cols == 0) by (nonlinear_arith);
    }
    while i < seq_len
        invariant
            0 <= i <= seq_len,
            cols == seqlen_offset + seq_len,
            f == (|i: int, j: int| causal_hidden(seqlen_offset as int, i, j)),
            all == mask_words(seq_len as nat, cols as nat, f),
            bits@ == all.take(i * cols),
            i * cols <= all.len(),
        decreases seq_len - i,
    {
        let mut j: usize = 0;
        proof {
            lemma_row_fits(i as int, seq_len as int, cols as int);
        }
        while j < cols
            invariant
                0 <= j <= cols,
                0 <= i < seq_len,
                cols == seqlen_offset + seq_len,
                f == (|i: int, j: int| causal_hidden(seqlen_offset as int, i, j)),
                all == mask_words(seq_len as nat, cols as nat, f),
                all.len() == seq_len * cols,
                i * cols + cols <= seq_len * cols,
                bits@ == all.take(i * cols + j),
            decreases cols - j,
        {
            let w: u32 = if j > seqlen_offset + i {
                NEG_INFINITY
            } else {
                0
            };
            bits.push(w);
            proof {
                lemma_place(i as int, j as int, cols as int);
                assert(f(i as int, j as int) == (j > seqlen_offset + i));
                assert(all[i * cols + j] == w);
                assert(all.take(i * cols + j + 1) =~= all.take(i * cols + j).push(w));
            }
            j = j + 1;
        }
        proof {
            assert((i + 1) * cols == i * cols + cols) by (nonlinear_arith);
        }
        i = i + 1;
    }
    proof {
        assert(all.take(seq_len * cols) =~= all);
    }
    Mask { batch: b_sz, rows: seq_len, cols, bits }
}

/// The mask of `seq_len` queries that stand behind `seqlen_offset` positions,
/// each of which sees `sliding_window` positions.
pub fn prepare_sliding_attention_mask(
    b_sz: usize,
    seq_len: usize,
    seqlen_offset: usize,
    sliding_window: usize,
) -> (r: Mask)
    requires
        seqlen_offset + seq_len <= usize::MAX,
        seq_len * (seqlen_offset + seq_len) <= usize::MAX,
    ensures
        r.batch == b_sz,
        r.rows == seq_len,
        r.cols == seqlen_offset + seq_len,
        r.bits@ == mask_words(
            seq_len as nat,
            (seqlen_offset + seq_len) as nat,
            |i: int, j: int| sliding_hidden(seqlen_offset as int, sliding_window as int, i, j),
        ),
{
    let cols: usize = seqlen_offset + seq_len;
    let ghost f = |i: int, j: int|
        sliding_hidden(seqlen_offset as int, sliding_window as int, i, j);
    let ghost all = mask_words(seq_len as nat, cols as nat, f);
    let mut bits: Vec<u32> = Vec::new();
    let mut i: usize = 0;
    proof {
        assert(0 * cols == 0) by (nonlinear_arith);
    }
    while i < seq_len
        invariant
            0 <= i <= seq_len,
            cols == seqlen_offset + seq_len,
            f == (|i: int, j: int|
                sliding_hidden(seqlen_offset as int, sliding_window as int, i, j)),
            all == mask_words(seq_len as nat, cols as nat, f),
            bits@ == all.take(i * cols),
            i * cols <= all.len(),
        decreases seq_len - i,
    {
        let mut j: usize = 0;
        proof {
            lemma_row_fits(i as int, seq_len as int, cols as int);
        }
        while j < cols
            invariant
                0 <= j <= cols,
                0 <= i < seq_len,
                cols == seqlen_offset + seq_len,
                f == (|i: int, j: int|
                    sliding_hidden(seqlen_offset as int, sliding_window as int, i, j)),
                all == mask_words(seq_len as nat, cols as nat, f),
                all.len() == seq_len * cols,
                i * cols + cols <= seq_len * cols,
                bits@ == all.take(i * cols + j),
            decreases cols - j,
        {
            let abs_i: usize = seqlen_offset + i;
            let is_hidden: bool = j > abs_i || abs_i - j >= sliding_window;
            let w: u32 = if is_hidden {
                NEG_INFINITY
            } else {
                0
            };
            bits.push(w);
            proof {
                lemma_place(i as int, j as int, cols as int);
                assert(f(i as int, j as int) == is_hidden);
                assert(all[i * cols + j] == w);
                assert(all.take(i * cols + j + 1) =~= all.take(i * cols + j).push(w));
            }
            j = j + 1;
        }
        proof {
            assert((i + 1) * cols == i * cols + cols) by (nonlinear_arith);
        }
        i = i + 1;
    }
    proof {
        assert(all.take(seq_len * cols) =~= all);
    }
    Mask { batch: b_sz, rows: seq_len, cols, bits }
}

/// The masks of a step: none where there is one query, which sees everything
/// that was cached.
pub fn create_attention_masks(
    batch_size: usize,
    seq_len: usize,
    seqlen_offset: usize,
    sliding_window: usize,
) -> (r: Option<(Mask, Mask)>)
    requires
        seq_len + seqlen_offset <= usize::MAX,
        seq_len * (seq_len + seqlen_offset) <= usize::MAX,
        seq_len + sliding_window <= usize::MAX,
    ensures
        r is Some <==> seq_len > 1,
        r matches Some((full, sliding)) ==> {
            &&& full.batch == batch_size && full.rows == seq_len && full.cols == seq_len
                + seqlen_offset
            &&& full.bits@ == mask_words(
                seq_len as nat,
                (seq_len + seqlen_offset) as nat,
                |i: int, j: int| decoder_hidden(seqlen_offset as int, None, i, j),
            )
            &&& sliding.batch == batch_size && sliding.rows == seq_len && sliding.cols == seq_len
                + seqlen_offset
            &&& sliding.bits@ == mask_words(
                seq_len as nat,
                (seq_len + seqlen_offset) as nat,
                |i: int, j: int|
                    decoder_hidden(seqlen_offset as int, Some(sliding_window), i, j),
            )
        },
{
    if seq_len <= 1 {
        return None;
    }
    let full: Mask = prepare_decoder_attention_mask(batch_size, seq_len, seqlen_offset, None);
    let sliding: Mask = prepare_decoder_attention_mask(
        batch_size,
        seq_len,
        seqlen_offset,
        Some(sliding_window),
    );
    Some((full, sliding))
}

proof fn lemma_row_fits(i: int, rows: int, cols: int)
    by (nonlinear_arith)
    requires
        0 <= i < rows,
        0 <= cols,
    ensures
        0 <= i * cols,
        i * cols + cols <= rows * cols,
{
}

proof fn lemma_place(i: int, j: int, cols: int)
    by (nonlinear_arith)
    requires
        0 <= i,
        0 <= j < cols,
    ensures
        (i * cols + j) / cols == i,
        (i * cols + j) % cols == j,
{
}

/// A sliding mask hides at least what the causal one does.
pub proof fn law_sliding_within_causal(offset: int, window: int, i: int, j: int)
    ensures
        causal_hidden(offset, i, j) ==> sliding_hidden(offset, window, i, j),
        forall|w: usize|
            #![trigger decoder_hidden(offset, Some(w), i, j)]
            decoder_hidden(offset, None, i, j) ==> decoder_hidden(offset, Some(w), i, j),
{
}

/// Every query sees itself, unless the window is empty.
pub proof fn law_query_sees_itself(offset: nat, window: nat, i: nat)
    ensures
        !causal_hidden(offset as int, i as int, (offset + i) as int),
        window > 0 ==> !sliding_hidden(offset as int, window as int, i as int, (offset + i) as int),
        forall|w: Option<usize>|
            !(#[trigger] decoder_hidden(offset as int, w, i as int, (offset + i) as int)),
{
}

/// A sliding query sees the `window` positions that end with its own.
pub proof fn law_sliding_row_is_interval(offset: nat, window: nat, i: nat, j: nat)
    ensures
        !sliding_hidden(offset as int, window as int, i as int, j as int) <==> offset + i - window
            < j <= offset + i,
{
}

/// Processing queries in one step or one after another hides the same: row
/// `i` of a step at `offset` is row `offset + i` of the step that starts the
/// sequence.
pub proof fn law_masks_agree_across_steps(offset: nat, window: nat, i: nat, j: nat)
    ensures
        causal_hidden(offset as int, i as int, j as int) == causal_hidden(
            0,
            (offset + i) as int,
            j as int,
        ),
        sliding_hidden(offset as int, window as int, i as int, j as int) == sliding_hidden(
            0,
            window as int,
            (offset + i) as int,
            j as int,
        ),
{
}

/// The fused decode step hides from its query exactly what the sliding mask
/// hides from the last query of a step over the same positions, and without a
/// window what the causal mask does.
pub proof fn law_decode_step_agrees(offset: nat, seq_len: nat, window: u32, j: nat)
    requires
        seq_len > 0,
        j < offset + seq_len,
    ensures
        hidden(j as int, (offset + seq_len) as int, Some(window)) == sliding_hidden(
            offset as int,
            window as int,
            seq_len - 1,
            j as int,
        ),
        hidden(j as int, (offset + seq_len) as int, None) == causal_hidden(
            offset as int,
            seq_len - 1,
            j as int,
        ),
{
}

/// A mask holds, at column `j` of row `i`, minus infinity where the position is
/// hidden from the query, and zero where it is not.
pub proof fn law_mask_entries(
    rows: nat,
    cols: nat,
    f: spec_fn(int, int) -> bool,
    i: nat,
    j: nat,
)
    requires
        i < rows,
        j < cols,
    ensures
        mask_words(rows, cols, f).len() == rows * cols,
        mask_words(rows, cols, f)[(i * cols + j) as int] == (if f(i as int, j as int) {
            0xff80_0000u32
        } else {
            0u32
        }),
{
    lemma_row_fits(i as int, rows as int, cols as int);
    lemma_place(i as int, j as int, cols as int);
}

/// A query of a full-attention layer sees all positions up to its own; behind
/// positions that all queries see, a window hides those that lie more than its
/// length before.
pub proof fn law_causal_rows(offset: nat, window: Option<usize>, i: nat, j: nat)
    ensures
        !causal_hidden(offset as int, i as int, j as int) <==> j <= offset + i,
        window is None ==> decoder_hidden(offset as int, window, i as int, j as int)
            == causal_hidden(offset as int, i as int, j as int),
        window matches Some(w) ==> (!decoder_hidden(offset as int, window, i as int, j as int)
            <==> j <= offset + i && (j < offset || offset + i - j <= w)),
{
}

} // verus!
