//! Which entries of a head are rotated, and how fast: the structure of the
//! rotation tables. An entry is the power of the base's inverse that its
//! frequency is, in `2 / head_dim`ths, or none where the pair stays as it is.

use vstd::prelude::*;

verus! {

/// The frequencies of a head whose pairs are all rotated.
pub open spec fn full_frequencies(head_dim: nat) -> Seq<Option<usize>> {
    Seq::new(((head_dim + 1) / 2) as nat, |i: int| Some((2 * i) as usize))
}

/// The frequencies of a head of which only the first `angles` pairs are
/// rotated.
pub open spec fn partial_frequencies(head_dim: nat, angles: nat) -> Seq<Option<usize>> {
    Seq::new(
        head_dim / 2,
        |i: int|
            if i < angles {
                Some((2 * i) as usize)
            } else {
                None
            },
    )
}

/// The frequencies of a sliding layer's heads.
pub fn rotary_frequencies(head_dim: usize) -> (r: Vec<Option<usize>>)
    ensures
        r@ == full_frequencies(head_dim as nat),
{
    let n: usize = head_dim / 2 + head_dim % 2;
    let mut out: Vec<Option<usize>> = Vec::new();
    let mut i: usize = 0;
    while i < n
        invariant
            n == (head_dim + 1) / 2,
            0 <= i <= n,
            out@.len() == i,
            forall|j: int| 0 <= j < i ==> #[trigger] out@[j] == Some((2 * j) as usize),
        decreases n - i,
    {
        out.push(Some(2 * i));
        i = i + 1;
    }
    proof {
        assert(out@ =~= full_frequencies(head_dim as nat));
    }
    out
}

/// The frequencies of a full-attention layer's heads.
pub fn proportional_frequencies(head_dim: usize, angles: usize) -> (r: Vec<Option<usize>>)
    requires
        angles <= head_dim / 2,
    ensures
        r@ == partial_frequencies(head_dim as nat, angles as nat),
{
    let n: usize = head_dim / 2;
    let mut out: Vec<Option<usize>> = Vec::new();
    let mut i: usize = 0;
    while i < n
        invariant
            n == head_dim / 2,
            0 <= i <= n,
            out@.len() == i,
            forall|j: int|
                0 <= j < i ==> #[trigger] out@[j] == if j < angles {
                    Some((2 * j) as usize)
                } else {
                    None
                },
        decreases n - i,
    {
        if i < angles {
            out.push(Some(2 * i));
        } else {
            out.push(None);
        }
        i = i + 1;
    }
    proof {
        assert(out@ =~= partial_frequencies(head_dim as nat, angles as nat));
    }
    out
}

/// A head of pairs that are all rotated is the same either way.
pub proof fn law_full_is_partial_of_all(head_dim: nat)
    requires
        head_dim % 2 == 0,
    ensures
        partial_frequencies(head_dim, head_dim / 2) == full_frequencies(head_dim),
{
    assert(partial_frequencies(head_dim, head_dim / 2) =~= full_frequencies(head_dim));
}

} // verus!
