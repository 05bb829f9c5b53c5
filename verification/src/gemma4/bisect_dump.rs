//! Intermediate tensors on disk, to compare two runs step by step.

use crate::bytes::{
    lemma_capacities, lemma_le_value_of_bytes, lemma_packed_len, lemma_packed_word, packed, push_le,
    words_to_bytes,
};
use crate::text::{decimal, decimal_text};
use vstd::prelude::*;
use vstd::string::*;

verus! {

/// The directory that tensors are dumped to: the one that was asked for, and
/// none in a browser.
pub fn enabled(in_browser: bool, asked: Option<String>) -> (r: Option<String>)
    ensures
        r == if in_browser {
            None
        } else {
            asked
        },
{
    if in_browser {
        None
    } else {
        asked
    }
}

/// `n` zeros.
pub open spec fn zeros(n: nat) -> Seq<char> {
    Seq::new(n, |i: int| '0')
}

/// `n` in decimal, with zeros in front where it has fewer than `width` digits.
pub open spec fn padded_decimal(n: nat, width: nat) -> Seq<char> {
    let d = decimal(n);
    if d.len() < width {
        zeros((width - d.len()) as nat) + d
    } else {
        d
    }
}

fn padded_text(n: usize, width: usize) -> (r: String)
    ensures
        r@ == padded_decimal(n as nat, width as nat),
{
    let d: String = decimal_text(n);
    let len: usize = d.as_str().unicode_len();
    let mut out: String = String::new();
    if len < width {
        let missing: usize = width - len;
        let mut i: usize = 0;
        proof {
            reveal_strlit("0");
            assert(out@ =~= zeros(0));
        }
        while i < missing
            invariant
                0 <= i <= missing,
                out@ == zeros(i as nat),
            decreases missing - i,
        {
            proof {
                reveal_strlit("0");
                assert(zeros(i as nat) + "0"@ =~= zeros((i + 1) as nat));
            }
            out.append("0");
            i = i + 1;
        }
    }
    proof {
        assert(Seq::<char>::empty() + d@ =~= d@);
    }
    out.append(d.as_str());
    out
}

/// The name of the file of a dumped tensor.
pub open spec fn dump_name_of(step: nat, layer: nat, label: Seq<char>) -> Seq<char> {
    "step"@ + padded_decimal(step, 4) + "_layer"@ + padded_decimal(layer, 3) + "_"@ + label
        + ".bin"@
}

/// The name of the file of a dumped tensor.
pub fn dump_name(step: usize, layer: usize, label: &str) -> (r: String)
    ensures
        r@ == dump_name_of(step as nat, layer as nat, label@),
{
    let mut out: String = "step".to_owned();
    out.append(padded_text(step, 4).as_str());
    out.append("_layer");
    out.append(padded_text(layer, 3).as_str());
    out.append("_");
    out.append(label);
    out.append(".bin");
    out
}

/// The first bytes of every dump.
pub open spec fn magic() -> Seq<u8> {
    seq![66u8, 83u8, 84u8, 49u8]
}

/// The bytes of a dump: the rank in one byte, the axes in eight each, the
/// number of the dtype, and the elements in four bytes each. The elements are
/// 32-bit floats, by their bit patterns.
pub open spec fn dump_image(dims: Seq<usize>, data: Seq<u32>) -> Seq<u8> {
    magic() + seq![(dims.len() % 256) as u8] + packed(dims.map_values(|d: usize| d as nat), 8)
        + seq![0u8] + packed(data.map_values(|w: u32| w as nat), 4)
}

/// The bytes of a dump.
pub fn dump_bytes(dims: &Vec<usize>, data: &Vec<u32>) -> (r: Vec<u8>)
    ensures
        r@ == dump_image(dims@, data@),
{
    let n: usize = dims.len();
    let ghost words = dims@.map_values(|d: usize| d as nat);
    let mut out: Vec<u8> = Vec::new();
    out.push(66);
    out.push(83);
    out.push(84);
    out.push(49);
    out.push((n % 256) as u8);
    let ghost head = magic() + seq![(n % 256) as u8];
    proof {
        assert(out@ =~= head);
        assert(out@ =~= head + packed(words.take(0), 8));
    }
    let mut i: usize = 0;
    while i < n
        invariant
            n == dims@.len(),
            0 <= i <= n,
            words == dims@.map_values(|d: usize| d as nat),
            out@ == head + packed(words.take(i as int), 8),
        decreases n - i,
    {
        push_le(&mut out, dims[i] as u64, 8);
        proof {
            assert(words.take(i + 1).drop_last() =~= words.take(i as int));
            assert(out@ =~= head + packed(words.take(i + 1), 8));
        }
        i = i + 1;
    }
    out.push(0);
    let mut tail: Vec<u8> = words_to_bytes(data.as_slice());
    out.append(&mut tail);
    proof {
        assert(words.take(n as int) =~= words);
        assert(out@ =~= dump_image(dims@, data@));
    }
    out
}

/// A dump says what it holds: two tensors of the same dump are the same, as
/// long as they have fewer axes than a byte can count.
pub proof fn law_dump_is_faithful(d1: Seq<usize>, x1: Seq<u32>, d2: Seq<usize>, x2: Seq<u32>)
    requires
        d1.len() < 256,
        d2.len() < 256,
        dump_image(d1, x1) == dump_image(d2, x2),
    ensures
        d1 == d2,
        x1 == x2,
{
    let (a, b) = (dump_image(d1, x1), dump_image(d2, x2));
    let (w1, w2) = (d1.map_values(|d: usize| d as nat), d2.map_values(|d: usize| d as nat));
    let (v1, v2) = (x1.map_values(|w: u32| w as nat), x2.map_values(|w: u32| w as nat));
    lemma_packed_len(w1, 8);
    lemma_packed_len(w2, 8);
    lemma_packed_len(v1, 4);
    lemma_packed_len(v2, 4);
    assert(a[4] == d1.len() as u8);
    assert(b[4] == d2.len() as u8);
    let n = d1.len() as int;
    assert(d2.len() == n);
    assert(a.subrange(5, 5 + 8 * n) =~= packed(w1, 8));
    assert(b.subrange(5, 5 + 8 * n) =~= packed(w2, 8));
    assert(a.skip(6 + 8 * n) =~= packed(v1, 4));
    assert(b.skip(6 + 8 * n) =~= packed(v2, 4));
    lemma_capacities();
    assert forall|i: int| 0 <= i < n implies d1[i] == d2[i] by {
        lemma_packed_word(w1, 8, i);
        lemma_packed_word(w2, 8, i);
        lemma_le_value_of_bytes(w1[i], 8);
        lemma_le_value_of_bytes(w2[i], 8);
    }
    assert(d1 =~= d2);
    assert(x1.len() == x2.len());
    assert forall|i: int| 0 <= i < x1.len() implies x1[i] == x2[i] by {
        lemma_packed_word(v1, 4, i);
        lemma_packed_word(v2, 4, i);
        lemma_le_value_of_bytes(v1[i], 4);
        lemma_le_value_of_bytes(v2[i], 4);
    }
    assert(x1 =~= x2);
}

} // verus!
