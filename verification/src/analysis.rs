//! Functions of real numbers, by what is known of them.

use vstd::prelude::*;

verus! {

/// Functions of real numbers that formulas are made of.
pub struct Functions {
    pub exp: spec_fn(real) -> real,
    pub log: spec_fn(real) -> real,
    pub sin: spec_fn(real) -> real,
    pub cos: spec_fn(real) -> real,
    pub sqrt: spec_fn(real) -> real,
    pub floor: spec_fn(real) -> real,
}

impl Functions {
    /// The functions are those that their names say, as far as it matters
    /// here.
    pub open spec fn wf(&self) -> bool {
        &&& (self.exp)(0real) == 1real
        &&& forall|x: real| (#[trigger] (self.exp)(x)) > 0real
        &&& forall|x: real, y: real|
            (#[trigger] (self.exp)(x + y)) == (self.exp)(x) * (self.exp)(y)
        &&& forall|x: real, y: real|
            x < y ==> #[trigger] (self.exp)(x) < #[trigger] (self.exp)(y)
        &&& forall|x: real| (self.log)(#[trigger] (self.exp)(x)) == x
        &&& (self.sin)(0real) == 0real && (self.cos)(0real) == 1real
        &&& forall|x: real|
            (#[trigger] (self.sin)(x)) * (self.sin)(x) + (self.cos)(x) * (self.cos)(x) == 1real
        &&& forall|x: real|
            x >= 0real ==> (#[trigger] (self.sqrt)(x)) >= 0real && (self.sqrt)(x) * (self.sqrt)(x)
                == x
        &&& forall|x: real| (#[trigger] (self.floor)(x)) <= x && x < (self.floor)(x) + 1real
        &&& forall|x: real| is_whole(#[trigger] (self.floor)(x))
    }

    /// Hyperbolic tangent.
    pub open spec fn tanh(&self, x: real) -> real {
        let e = (self.exp)(x + x);
        (e - 1real) / (e + 1real)
    }

    /// The smallest whole number that is not below `x`.
    pub open spec fn ceil(&self, x: real) -> real {
        -(self.floor)(-x)
    }

    /// The nearest whole number, of two the even one.
    pub open spec fn round(&self, x: real) -> real {
        let f = (self.floor)(x);
        if x - f < 1real / 2real {
            f
        } else if x - f > 1real / 2real {
            f + 1real
        } else if is_whole(f / 2real) {
            f
        } else {
            f + 1real
        }
    }
}

/// The whole number `n`.
pub open spec fn whole(n: int) -> real {
    n as real
}

/// `x` is a whole number.
pub open spec fn is_whole(x: real) -> bool {
    exists|n: int| x == #[trigger] whole(n)
}

/// `r` is the square root of `x`.
pub open spec fn is_root(r: real, x: real) -> bool {
    r >= 0real && r * r == x
}

/// `x` without its sign.
pub open spec fn absolute(x: real) -> real {
    if x < 0real {
        -x
    } else {
        x
    }
}

/// Minus one, zero or one.
pub open spec fn sign(x: real) -> real {
    if x < 0real {
        -1real
    } else if x > 0real {
        1real
    } else {
        0real
    }
}

/// The larger of two numbers.
pub open spec fn larger(x: real, y: real) -> real {
    if x < y {
        y
    } else {
        x
    }
}

/// The smaller of two numbers.
pub open spec fn smaller(x: real, y: real) -> real {
    if y < x {
        y
    } else {
        x
    }
}

/// The hyperbolic tangent is odd, has the sign of its argument and stays
/// between minus one and one.
pub proof fn lemma_tanh(m: Functions, x: real)
    requires
        m.wf(),
    ensures
        m.tanh(-x) == -m.tanh(x),
        -1real < m.tanh(x) < 1real,
        x > 0real ==> m.tanh(x) > 0real,
        x == 0real ==> m.tanh(x) == 0real,
        x < 0real ==> m.tanh(x) < 0real,
{
    let (a, b) = ((m.exp)(x + x), (m.exp)(-x + -x));
    assert((x + x) + (-x + -x) == 0real);
    assert((m.exp)((x + x) + (-x + -x)) == a * b);
    assert(a > 0real && b > 0real && a * b == 1real);
    assert((b - 1real) / (b + 1real) == -((a - 1real) / (a + 1real))) by (nonlinear_arith)
        requires
            a > 0real,
            b > 0real,
            a * b == 1real,
    ;
    if x > 0real {
        assert((m.exp)(0real) < (m.exp)(x + x));
    } else if x < 0real {
        assert((m.exp)(x + x) < (m.exp)(0real));
    } else {
        assert(x + x == 0real);
    }
    assert(-1real < (a - 1real) / (a + 1real) < 1real && (a > 1real ==> (a - 1real) / (a + 1real)
        > 0real) && (a == 1real ==> (a - 1real) / (a + 1real) == 0real) && (a < 1real ==> (a
        - 1real) / (a + 1real) < 0real)) by (nonlinear_arith)
        requires
            a > 0real,
    ;
}

/// A larger argument has a larger hyperbolic tangent.
pub proof fn lemma_tanh_monotone(m: Functions, x: real, y: real)
    requires
        m.wf(),
        x < y,
    ensures
        m.tanh(x) < m.tanh(y),
{
    let (a, b) = ((m.exp)(x + x), (m.exp)(y + y));
    assert(a > 0real && b > 0real && a < b);
    assert((a - 1real) / (a + 1real) < (b - 1real) / (b + 1real)) by (nonlinear_arith)
        requires
            a > 0real,
            a < b,
    ;
}

/// Sum of `f(0)` to `f(n - 1)`.
pub open spec fn sum(n: nat, f: spec_fn(int) -> real) -> real
    decreases n,
{
    if n == 0 {
        0real
    } else {
        sum((n - 1) as nat, f) + f(n - 1)
    }
}

/// Sums of equal terms are equal.
pub proof fn lemma_sum_equal(n: nat, f: spec_fn(int) -> real, g: spec_fn(int) -> real)
    requires
        forall|i: int| 0 <= i < n ==> #[trigger] f(i) == g(i),
    ensures
        sum(n, f) == sum(n, g),
    decreases n,
{
    if n > 0 {
        lemma_sum_equal((n - 1) as nat, f, g);
    }
}

/// A factor of all terms is a factor of the sum.
pub proof fn lemma_sum_scaled(n: nat, f: spec_fn(int) -> real, s: real)
    ensures
        sum(n, |i: int| f(i) * s) == sum(n, f) * s,
    decreases n,
{
    if n > 0 {
        lemma_sum_scaled((n - 1) as nat, f, s);
        let (a, b) = (sum((n - 1) as nat, f), f(n - 1));
        assert((a + b) * s == a * s + b * s) by (nonlinear_arith);
    }
}

/// A sum of terms that are not negative is not negative, and positive where
/// one of them is.
pub proof fn lemma_sum_positive(n: nat, f: spec_fn(int) -> real)
    requires
        forall|i: int| 0 <= i < n ==> #[trigger] f(i) >= 0real,
    ensures
        sum(n, f) >= 0real,
        (exists|i: int| 0 <= i < n && #[trigger] f(i) > 0real) ==> sum(n, f) > 0real,
    decreases n,
{
    if n > 0 {
        lemma_sum_positive((n - 1) as nat, f);
        if exists|i: int| 0 <= i < n && #[trigger] f(i) > 0real {
            let i = choose|i: int| 0 <= i < n && #[trigger] f(i) > 0real;
            if i < n - 1 {
                assert(f(i) > 0real);
            }
        }
    }
}

} // verus!
