//! Greedy decoding: what goes in at each step, which token comes out, and how
//! it is reported.

use crate::text::{decimal, decimal_text, replace, replace_all};
use vstd::prelude::*;
use vstd::string::*;

verus! {

/// Bit pattern of the 32-bit float that is below all others.
pub const NEG_INFINITY: u32 = 0xff80_0000;

/// The bit pattern of a 32-bit float is none of a number.
pub open spec fn is_nan(b: u32) -> bool {
    b % 0x8000_0000 > 0x7f80_0000
}

/// A number that orders 32-bit floats by their bit patterns; both zeros have
/// the same.
pub open spec fn order(b: u32) -> int {
    if b < 0x8000_0000 {
        b as int
    } else {
        -(b - 0x8000_0000)
    }
}

/// `a > b`, of 32-bit floats.
pub open spec fn is_above(a: u32, b: u32) -> bool {
    !is_nan(a) && !is_nan(b) && order(a) > order(b)
}

fn above(a: u32, b: u32) -> (r: bool)
    ensures
        r == is_above(a, b),
{
    let (ma, mb): (u32, u32) = (a % 0x8000_0000, b % 0x8000_0000);
    if ma > 0x7f80_0000 || mb > 0x7f80_0000 {
        return false;
    }
    if a < 0x8000_0000 {
        if b < 0x8000_0000 {
            a > b
        } else {
            a > 0 || mb > 0
        }
    } else if b < 0x8000_0000 {
        false
    } else {
        ma < mb
    }
}

/// The index is that of the largest logit, the first of several; logits that
/// are no numbers do not count, and without any above minus infinity the
/// first index is taken.
pub open spec fn is_argmax(logits: Seq<u32>, r: int) -> bool {
    if exists|i: int| 0 <= i < logits.len() && is_above(#[trigger] logits[i], NEG_INFINITY) {
        &&& 0 <= r < logits.len()
        &&& is_above(logits[r], NEG_INFINITY)
        &&& forall|j: int| 0 <= j < logits.len() ==> !is_above(#[trigger] logits[j], logits[r])
        &&& forall|j: int| 0 <= j < r ==> is_above(logits[r], #[trigger] logits[j]) || is_nan(logits[j])
    } else {
        r == 0
    }
}

/// The token of the largest logit. The logits are 32-bit floats, by their bit
/// patterns.
pub fn greedy_argmax(logits: &Vec<u32>) -> (r: u32)
    requires
        logits@.len() <= 0x1_0000_0000,
    ensures
        is_argmax(logits@, r as int),
{
    let n: usize = logits.len();
    let mut best_id: u32 = 0;
    let mut best_val: u32 = NEG_INFINITY;
    let ghost mut found = false;
    let mut i: usize = 0;
    while i < n
        invariant
            n == logits@.len(),
            n <= 0x1_0000_0000,
            0 <= i <= n,
            !is_nan(best_val),
            found ==> {
                &&& best_id < i
                &&& best_val == logits@[best_id as int]
                &&& is_above(best_val, NEG_INFINITY)
                &&& forall|j: int|
                    0 <= j < best_id ==> is_above(best_val, #[trigger] logits@[j]) || is_nan(
                        logits@[j],
                    )
            },
            !found ==> best_id == 0 && best_val == NEG_INFINITY,
            forall|j: int| 0 <= j < i ==> !is_above(#[trigger] logits@[j], best_val),
        decreases n - i,
    {
        let x: u32 = logits[i];
        if above(x, best_val) {
            best_val = x;
            best_id = i as u32;
            proof {
                found = true;
            }
        }
        i = i + 1;
    }
    best_id
}

/// A token's text on one line: backslashes doubled, line breaks spelled out.
pub open spec fn escaped(s: Seq<char>) -> Seq<char> {
    replace_all(replace_all(s, "\\"@, "\\\\"@), "\n"@, "\\n"@)
}

/// A token's text on one line.
pub fn escape(s: &str) -> (r: String)
    ensures
        r@ == escaped(s@),
{
    proof {
        reveal_strlit("\\");
        reveal_strlit("\n");
    }
    let doubled: String = replace(s, "\\", "\\\\");
    replace(doubled.as_str(), "\n", "\\n")
}

/// The report of a step.
pub open spec fn step_line_of(step: nat, id: nat, token: Seq<char>) -> Seq<char> {
    "[step "@ + decimal(step) + "] id="@ + decimal(id) + " token="@ + escaped(token)
}

/// The report of a step.
pub fn step_line(step: usize, id: u32, token: &str) -> (r: String)
    ensures
        r@ == step_line_of(step as nat, id as nat, token@),
{
    let mut out: String = "[step ".to_owned();
    out.append(decimal_text(step).as_str());
    out.append("] id=");
    out.append(decimal_text(id as usize).as_str());
    out.append(" token=");
    out.append(escape(token).as_str());
    out
}

/// What goes into a step: tokens, and the positions that came before.
#[derive(Clone, Debug)]
pub struct StepInput {
    pub ids: Vec<u32>,
    pub offset: usize,
}

/// What goes into the next step: all tokens at first, the last one after
/// that.
pub fn next_input(tokens: &Vec<u32>, first: bool) -> (r: StepInput)
    requires
        tokens@.len() > 0,
    ensures
        r.ids@ == if first {
            tokens@
        } else {
            seq![tokens@.last()]
        },
        r.offset + r.ids@.len() == tokens@.len(),
{
    let n: usize = tokens.len();
    let start: usize = if first {
        0
    } else {
        n - 1
    };
    let mut ids: Vec<u32> = Vec::new();
    let mut i: usize = start;
    while i < n
        invariant
            n == tokens@.len(),
            start <= i <= n,
            ids@ == tokens@.subrange(start as int, i as int),
        decreases n - i,
    {
        ids.push(tokens[i]);
        proof {
            assert(ids@ =~= tokens@.subrange(start as int, i + 1));
        }
        i = i + 1;
    }
    proof {
        if first {
            assert(ids@ =~= tokens@);
        } else {
            assert(ids@ =~= seq![tokens@.last()]);
        }
    }
    StepInput { ids, offset: start }
}

proof fn lemma_replace_removes(s: Seq<char>, c: char, to: Seq<char>)
    requires
        !to.contains(c),
    ensures
        !replace_all(s, seq![c], to).contains(c),
    decreases s.len(),
{
    let pat = seq![c];
    if s.len() >= 1 {
        if s.take(1) == pat {
            lemma_replace_removes(s.skip(1), c, to);
            let rest = replace_all(s.skip(1), pat, to);
            assert forall|i: int| 0 <= i < (to + rest).len() implies (to + rest)[i] != c by {
                if i < to.len() {
                    assert(to.contains(to[i]));
                } else {
                    assert(rest.contains(rest[i - to.len()]));
                }
            }
        } else {
            lemma_replace_removes(s.skip(1), c, to);
            let rest = replace_all(s.skip(1), pat, to);
            assert(s[0] != c) by {
                if s[0] == c {
                    assert(s.take(1) =~= pat);
                }
            }
            let all = seq![s[0]] + rest;
            assert forall|i: int| 0 <= i < all.len() implies all[i] != c by {
                if i > 0 {
                    assert(rest.contains(rest[i - 1]));
                }
            }
        }
    }
}

/// A report is one line, whatever the token holds.
pub proof fn law_escaped_has_no_line_break(s: Seq<char>)
    ensures
        !escaped(s).contains('\n'),
{
    reveal_strlit("\n");
    reveal_strlit("\\n");
    assert("\n"@ =~= seq!['\n']);
    lemma_replace_removes(replace_all(s, "\\"@, "\\\\"@), '\n', "\\n"@);
}

} // verus!
