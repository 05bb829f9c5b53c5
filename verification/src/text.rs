//! Small operations on text: comparison, substitution, decimal numbers.

use vstd::prelude::*;
use vstd::string::*;

verus! {

/// `s` with every occurrence of `pat` replaced by `to`, scanning from the
/// left and never re-reading what was matched or written.
pub open spec fn replace_all(s: Seq<char>, pat: Seq<char>, to: Seq<char>) -> Seq<char>
    decreases s.len(),
{
    if pat.len() == 0 || s.len() < pat.len() {
        s
    } else if s.take(pat.len() as int) == pat {
        to + replace_all(s.skip(pat.len() as int), pat, to)
    } else {
        seq![s[0]] + replace_all(s.skip(1), pat, to)
    }
}

/// The decimal digit of `d`.
pub open spec fn digit(d: nat) -> char {
    (48 + d) as char
}

/// `n` in decimal, without leading zeros.
pub open spec fn decimal(n: nat) -> Seq<char>
    decreases n,
{
    if n < 10 {
        seq![digit(n)]
    } else {
        decimal(n / 10).push(digit(n % 10))
    }
}

/// Whether two texts are equal.
pub fn str_eq(a: &str, b: &str) -> (r: bool)
    ensures
        r == (a@ == b@),
{
    a.to_owned() == b.to_owned()
}

/// The characters of `s`.
fn chars_of(s: &str) -> (r: Vec<char>)
    ensures
        r@ == s@,
{
    let mut out: Vec<char> = Vec::new();
    for c in it: s.chars()
        invariant
            out@ == it.seq().take(it.index() as int),
            it.seq() == s@,
    {
        out.push(c);
    }
    proof {
        assert(out@ =~= s@);
    }
    out
}

/// `s` with every occurrence of the non-empty `pat` replaced by `to`.
pub fn replace(s: &str, pat: &str, to: &str) -> (r: String)
    requires
        pat@.len() > 0,
    ensures
        r@ == replace_all(s@, pat@, to@),
{
    let text: Vec<char> = chars_of(s);
    let want: Vec<char> = chars_of(pat);
    let n: usize = text.len();
    let m: usize = want.len();
    let mut out: String = String::new();
    let mut start: usize = 0;
    let mut i: usize = 0;
    proof {
        assert(s@.skip(0) =~= s@);
        assert(out@ + s@.subrange(0, 0) + replace_all(s@, pat@, to@) =~= replace_all(s@, pat@, to@));
    }
    while m <= n - i
        invariant
            text@ == s@,
            want@ == pat@,
            n == text@.len(),
            m == want@.len(),
            m > 0,
            start <= i <= n,
            replace_all(s@, pat@, to@) == out@ + s@.subrange(start as int, i as int) + replace_all(
                s@.skip(i as int),
                pat@,
                to@,
            ),
        decreases n - i,
    {
        let mut k: usize = 0;
        while k < m && text[i + k] == want[k]
            invariant
                n == text@.len(),
                m == want@.len(),
                i + m <= n,
                0 <= k <= m,
                forall|j: int| 0 <= j < k ==> text@[i + j] == want@[j],
            decreases m - k,
        {
            k = k + 1;
        }
        let ghost rest = s@.skip(i as int);
        if k == m {
            proof {
                assert(rest.take(m as int) =~= pat@);
                assert(rest.skip(m as int) =~= s@.skip(i + m));
                assert(s@.subrange(i + m, i + m) =~= Seq::<char>::empty());
                assert(out@ + s@.subrange(start as int, i as int) + (to@ + replace_all(
                    rest.skip(m as int),
                    pat@,
                    to@,
                )) =~= (out@ + s@.subrange(start as int, i as int) + to@) + Seq::<char>::empty()
                    + replace_all(s@.skip(i + m), pat@, to@));
            }
            out.append(s.substring_char(start, i));
            out.append(to);
            i = i + m;
            start = i;
        } else {
            proof {
                assert(rest.take(m as int)[k as int] == text@[i + k]);
                assert(rest.take(m as int) != pat@);
                assert(rest.skip(1) =~= s@.skip(i + 1));
                assert(s@.subrange(start as int, i + 1) =~= s@.subrange(start as int, i as int)
                    + seq![rest[0]]);
                assert(out@ + s@.subrange(start as int, i as int) + (seq![rest[0]] + replace_all(
                    rest.skip(1),
                    pat@,
                    to@,
                )) =~= out@ + s@.subrange(start as int, i + 1) + replace_all(
                    s@.skip(i + 1),
                    pat@,
                    to@,
                ));
            }
            i = i + 1;
        }
    }
    proof {
        assert(s@.subrange(start as int, i as int) + s@.skip(i as int) =~= s@.subrange(
            start as int,
            n as int,
        ));
        assert(out@ + s@.subrange(start as int, i as int) + s@.skip(i as int) =~= out@
            + s@.subrange(start as int, n as int));
    }
    out.append(s.substring_char(start, n));
    out
}

/// The text of one decimal digit.
fn digit_text(d: usize) -> (r: &'static str)
    requires
        d < 10,
    ensures
        r@ == seq![digit(d as nat)],
{
    proof {
        reveal_strlit("0");
        reveal_strlit("1");
        reveal_strlit("2");
        reveal_strlit("3");
        reveal_strlit("4");
        reveal_strlit("5");
        reveal_strlit("6");
        reveal_strlit("7");
        reveal_strlit("8");
        reveal_strlit("9");
    }
    match d {
        0 => "0",
        1 => "1",
        2 => "2",
        3 => "3",
        4 => "4",
        5 => "5",
        6 => "6",
        7 => "7",
        8 => "8",
        _ => "9",
    }
}

/// `n` in decimal.
pub fn decimal_text(n: usize) -> (r: String)
    ensures
        r@ == decimal(n as nat),
    decreases n,
{
    if n < 10 {
        digit_text(n).to_owned()
    } else {
        let mut r: String = decimal_text(n / 10);
        let d: &'static str = digit_text(n % 10);
        proof {
            assert(r@ + seq![digit((n % 10) as nat)] =~= decimal(n as nat));
        }
        r.append(d);
        r
    }
}

/// `a`, the number `n` in decimal, and `b`, in a row.
pub fn numbered(a: &str, n: usize, b: &str) -> (r: String)
    ensures
        r@ == a@ + decimal(n as nat) + b@,
{
    let mut r: String = a.to_owned();
    let d: String = decimal_text(n);
    r.append(d.as_str());
    r.append(b);
    r
}

proof fn lemma_decimal_nonempty(n: nat)
    ensures
        decimal(n).len() > 0,
{
}

/// Different numbers have different decimal texts.
pub proof fn lemma_decimal_injective(a: nat, b: nat)
    requires
        decimal(a) == decimal(b),
    ensures
        a == b,
    decreases a,
{
    let (x, y) = (decimal(a), decimal(b));
    if a < 10 && b < 10 {
        assert(x[0] == digit(a));
        assert(y[0] == digit(b));
    } else if a < 10 {
        lemma_decimal_nonempty(b / 10);
        assert(y.len() == decimal(b / 10).len() + 1);
    } else if b < 10 {
        lemma_decimal_nonempty(a / 10);
        assert(x.len() == decimal(a / 10).len() + 1);
    } else {
        assert(x.drop_last() =~= decimal(a / 10));
        assert(y.drop_last() =~= decimal(b / 10));
        assert(x.last() == digit(a % 10));
        assert(y.last() == digit(b % 10));
        lemma_decimal_injective(a / 10, b / 10);
    }
}

proof fn lemma_decimal_digits(n: nat)
    ensures
        forall|i: int| 0 <= i < decimal(n).len() ==> 48 <= (#[trigger] decimal(n)[i]) as u32 <= 57,
    decreases n,
{
    if n >= 10 {
        lemma_decimal_digits(n / 10);
        let rest = decimal(n / 10);
        assert(decimal(n) =~= rest.push(digit(n % 10)));
        assert forall|i: int| 0 <= i < decimal(n).len() implies 48 <= (
        #[trigger] decimal(n)[i]) as u32 <= 57 by {
            if i < rest.len() {
                assert(decimal(n)[i] == rest[i]);
            }
        }
    }
}

/// A number between a text and a dot can be told from the whole, and so can
/// what follows.
pub proof fn lemma_numbered_injective(a: Seq<char>, m: nat, s: Seq<char>, n: nat, t: Seq<char>)
    requires
        s.len() > 0 && s[0] == '.',
        t.len() > 0 && t[0] == '.',
        a + decimal(m) + s == a + decimal(n) + t,
    ensures
        m == n,
        s == t,
{
    let (x, y) = (a + decimal(m) + s, a + decimal(n) + t);
    let (p, q) = (decimal(m), decimal(n));
    lemma_decimal_digits(m);
    lemma_decimal_digits(n);
    let k = a.len() as int;
    assert(x[k + p.len()] == '.');
    assert(y[k + q.len()] == '.');
    if p.len() < q.len() {
        assert(y[k + p.len()] == q[p.len() as int]);
        assert(false);
    } else if q.len() < p.len() {
        assert(x[k + q.len()] == p[q.len() as int]);
        assert(false);
    }
    assert(x.subrange(k, k + p.len()) =~= p);
    assert(y.subrange(k, k + q.len()) =~= q);
    lemma_decimal_injective(m, n);
    assert(x.skip(k + p.len()) =~= s);
    assert(y.skip(k + q.len()) =~= t);
}

} // verus!
