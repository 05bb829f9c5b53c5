//! Little-endian words in byte strings.

use vstd::prelude::*;

verus! {

/// Number of values that `width` bytes can hold.
pub open spec fn capacity(width: nat) -> nat
    decreases width,
{
    if width == 0 {
        1
    } else {
        256 * capacity((width - 1) as nat)
    }
}

/// The `width` bytes of `x`, lowest first.
pub open spec fn le_bytes(x: nat, width: nat) -> Seq<u8>
    decreases width,
{
    if width == 0 {
        Seq::empty()
    } else {
        seq![(x % 256) as u8] + le_bytes(x / 256, (width - 1) as nat)
    }
}

/// The number whose bytes, lowest first, are `s`.
pub open spec fn le_value(s: Seq<u8>) -> nat
    decreases s.len(),
{
    if s.len() == 0 {
        0
    } else {
        s[0] as nat + 256 * le_value(s.skip(1))
    }
}

/// The bytes of the words `words`, `width` bytes each, one after another.
pub open spec fn packed(words: Seq<nat>, width: nat) -> Seq<u8>
    decreases words.len(),
{
    if words.len() == 0 {
        Seq::empty()
    } else {
        packed(words.drop_last(), width) + le_bytes(words.last(), width)
    }
}

pub proof fn lemma_capacities()
    ensures
        capacity(1) == 0x100,
        capacity(2) == 0x1_0000,
        capacity(4) == 0x1_0000_0000,
        capacity(8) == 0x1_0000_0000_0000_0000,
{
    reveal_with_fuel(capacity, 9);
}

pub proof fn lemma_le_bytes_len(x: nat, width: nat)
    ensures
        le_bytes(x, width).len() == width,
    decreases width,
{
    if width > 0 {
        lemma_le_bytes_len(x / 256, (width - 1) as nat);
    }
}

/// Reading the bytes of a number gives the number back.
pub proof fn lemma_le_value_of_bytes(x: nat, width: nat)
    requires
        x < capacity(width),
    ensures
        le_value(le_bytes(x, width)) == x,
    decreases width,
{
    if width > 0 {
        let rest = le_bytes(x / 256, (width - 1) as nat);
        lemma_le_value_of_bytes(x / 256, (width - 1) as nat);
        assert(le_bytes(x, width).skip(1) =~= rest);
    }
}

/// The bytes of the number read from a byte string are that byte string.
pub proof fn lemma_le_bytes_of_value(s: Seq<u8>)
    ensures
        le_bytes(le_value(s), s.len()) == s,
        le_value(s) < capacity(s.len()),
    decreases s.len(),
{
    if s.len() > 0 {
        let rest = s.skip(1);
        lemma_le_bytes_of_value(rest);
        let v = le_value(s);
        assert(v % 256 == s[0] && v / 256 == le_value(rest));
        assert(le_bytes(v, s.len()) =~= s);
    }
}

pub proof fn lemma_packed_len(words: Seq<nat>, width: nat)
    ensures
        packed(words, width).len() == words.len() * width,
    decreases words.len(),
{
    if words.len() > 0 {
        lemma_packed_len(words.drop_last(), width);
        lemma_le_bytes_len(words.last(), width);
        assert(words.len() * width == (words.len() - 1) * width + width) by (nonlinear_arith);
    }
}

/// Word `i` of a packed string occupies the bytes from `i * width` on.
pub proof fn lemma_packed_word(words: Seq<nat>, width: nat, i: int)
    requires
        0 <= i < words.len(),
    ensures
        0 <= i * width <= (i + 1) * width <= packed(words, width).len(),
        packed(words, width).subrange(i * width, (i + 1) * width) == le_bytes(words[i], width),
    decreases words.len(),
{
    let init = words.drop_last();
    let n = words.len();
    lemma_packed_len(words, width);
    lemma_packed_len(init, width);
    lemma_le_bytes_len(words.last(), width);
    assert(0 <= i * width <= (i + 1) * width <= n * width) by (nonlinear_arith)
        requires
            0 <= i < n,
    ;
    let whole = packed(words, width);
    if i == n - 1 {
        assert((i + 1) * width == n * width);
        assert(whole.subrange(i * width, (i + 1) * width) =~= le_bytes(words.last(), width));
    } else {
        lemma_packed_word(init, width, i);
        assert(whole.subrange(i * width, (i + 1) * width) =~= packed(init, width).subrange(
            i * width,
            (i + 1) * width,
        ));
    }
}

/// The words of a byte string, `width` bytes each, packed again give the
/// byte string back.
pub proof fn lemma_packed_of_words(s: Seq<u8>, words: Seq<nat>, width: nat)
    requires
        s.len() == words.len() * width,
        forall|i: int|
            0 <= i < words.len() ==> #[trigger] words[i] == le_value(
                s.subrange(i * width, (i + 1) * width),
            ),
    ensures
        packed(words, width) == s,
    decreases words.len(),
{
    let n = words.len();
    if n > 0 {
        let init = words.drop_last();
        assert(n * width == (n - 1) * width + width) by (nonlinear_arith);
        let head = s.take((n - 1) * width);
        assert forall|i: int| 0 <= i < init.len() implies #[trigger] init[i] == le_value(
            head.subrange(i * width, (i + 1) * width),
        ) by {
            assert(0 <= i * width <= (i + 1) * width <= (n - 1) * width) by (nonlinear_arith)
                requires
                    0 <= i < n - 1,
            ;
            assert(init[i] == words[i]);
            assert(head.subrange(i * width, (i + 1) * width) =~= s.subrange(
                i * width,
                (i + 1) * width,
            ));
        }
        lemma_packed_of_words(head, init, width);
        let tail = s.subrange((n - 1) * width, (n * width) as int);
        lemma_le_bytes_of_value(tail);
        assert(words.last() == le_value(tail));
        assert(head + tail =~= s);
    } else {
        assert(n * width == 0) by (nonlinear_arith)
            requires
                n == 0,
        ;
        assert(s =~= Seq::<u8>::empty());
    }
}

/// Appends the `width` low bytes of `x` to `out`, lowest first.
pub fn push_le(out: &mut Vec<u8>, x: u64, width: usize)
    ensures
        final(out)@ == old(out)@ + le_bytes(x as nat, width as nat),
{
    let mut rest: u64 = x;
    let mut left: usize = width;
    proof {
        assert(old(out)@ + le_bytes(x as nat, width as nat) =~= out@ + le_bytes(
            rest as nat,
            left as nat,
        ));
    }
    while left > 0
        invariant
            out@ + le_bytes(rest as nat, left as nat) == old(out)@ + le_bytes(
                x as nat,
                width as nat,
            ),
        decreases left,
    {
        let ghost before = out@;
        out.push((rest % 256) as u8);
        proof {
            let tail = le_bytes((rest / 256) as nat, (left - 1) as nat);
            assert(before + (seq![(rest % 256) as u8] + tail) =~= before.push((rest % 256) as u8)
                + tail);
        }
        rest = rest / 256;
        left = left - 1;
    }
    proof {
        assert(out@ + Seq::<u8>::empty() =~= out@);
    }
}

/// The number in the `width` bytes of `bytes` from `at` on, lowest first.
pub fn read_le(bytes: &[u8], at: usize, width: usize) -> (r: u64)
    requires
        width <= 8,
        at + width <= bytes@.len(),
    ensures
        r == le_value(bytes@.subrange(at as int, at + width)),
{
    let total: usize = bytes.len();
    let mut acc: u64 = 0;
    let mut i: usize = width;
    proof {
        lemma_capacities();
        assert(bytes@.subrange(at + width, at + width) =~= Seq::<u8>::empty());
    }
    while i > 0
        invariant
            0 <= i <= width,
            width <= 8,
            at + width <= total,
            total == bytes@.len(),
            acc == le_value(bytes@.subrange(at + i, at + width)),
        decreases i,
    {
        i = i - 1;
        let ghost tail = bytes@.subrange(at + i, at + width);
        proof {
            assert(tail.skip(1) =~= bytes@.subrange(at + i + 1, at + width));
            lemma_le_bytes_of_value(tail);
            lemma_capacity_monotone(tail.len(), 8);
            lemma_capacities();
        }
        acc = acc * 256 + bytes[at + i] as u64;
    }
    acc
}

proof fn lemma_capacity_monotone(a: nat, b: nat)
    requires
        a <= b,
    ensures
        capacity(a) <= capacity(b),
    decreases b,
{
    if a < b {
        lemma_capacity_monotone(a, (b - 1) as nat);
    }
}

/// The words `words`, four bytes each, as a kernel's uniform holds them.
pub fn words_to_bytes(words: &[u32]) -> (r: Vec<u8>)
    ensures
        r@ == packed(words@.map_values(|w: u32| w as nat), 4),
{
    let ghost all = words@.map_values(|w: u32| w as nat);
    let mut out: Vec<u8> = Vec::new();
    let mut i: usize = 0;
    while i < words.len()
        invariant
            0 <= i <= words@.len(),
            all == words@.map_values(|w: u32| w as nat),
            out@ == packed(all.take(i as int), 4),
        decreases words.len() - i,
    {
        push_le(&mut out, words[i] as u64, 4);
        proof {
            assert(all.take(i + 1).drop_last() =~= all.take(i as int));
        }
        i = i + 1;
    }
    proof {
        assert(all.take(i as int) =~= all);
    }
    out
}

} // verus!
