//! The shader code of the kernels' operations: how it is written, and what it
//! computes in real numbers.

use crate::analysis::{absolute, larger, sign, smaller, Functions};
use vstd::prelude::*;

verus! {

/// Names of numbers in the code.
pub enum Name {
    X,
    Y,
    Acc,
    V,
    Kappa,
    Cube,
    S,
    T,
    ErfS,
}

impl Name {
    /// How the name is written.
    pub open spec fn text(self) -> Seq<char> {
        match self {
            Name::X => "x"@,
            Name::Y => "y"@,
            Name::Acc => "acc"@,
            Name::V => "v"@,
            Name::Kappa => "kappa"@,
            Name::Cube => "cube"@,
            Name::S => "s"@,
            Name::T => "t"@,
            Name::ErfS => "erf_s"@,
        }
    }
}

/// Functions of one number that shaders have.
pub enum Builtin {
    Abs,
    Sqrt,
    Exp,
    Log,
    Sin,
    Cos,
    Tanh,
    Floor,
    Ceil,
    Round,
    Sign,
}

impl Builtin {
    /// How the function is written.
    pub open spec fn text(self) -> Seq<char> {
        match self {
            Builtin::Abs => "abs("@,
            Builtin::Sqrt => "sqrt("@,
            Builtin::Exp => "exp("@,
            Builtin::Log => "log("@,
            Builtin::Sin => "sin("@,
            Builtin::Cos => "cos("@,
            Builtin::Tanh => "tanh("@,
            Builtin::Floor => "floor("@,
            Builtin::Ceil => "ceil("@,
            Builtin::Round => "round("@,
            Builtin::Sign => "sign("@,
        }
    }

    /// What the function gives for `x`.
    pub open spec fn of(self, m: Functions, x: real) -> real {
        match self {
            Builtin::Abs => absolute(x),
            Builtin::Sqrt => (m.sqrt)(x),
            Builtin::Exp => (m.exp)(x),
            Builtin::Log => (m.log)(x),
            Builtin::Sin => (m.sin)(x),
            Builtin::Cos => (m.cos)(x),
            Builtin::Tanh => m.tanh(x),
            Builtin::Floor => (m.floor)(x),
            Builtin::Ceil => m.ceil(x),
            Builtin::Round => m.round(x),
            Builtin::Sign => sign(x),
        }
    }
}

/// Functions of two numbers that shaders have.
pub enum Extreme {
    Min,
    Max,
}

/// Signs between two terms.
pub enum Infix {
    Plus,
    Minus,
    Times,
    Over,
}

impl Infix {
    /// How the sign is written.
    pub open spec fn text(self) -> Seq<char> {
        match self {
            Infix::Plus => " + "@,
            Infix::Minus => " - "@,
            Infix::Times => " * "@,
            Infix::Over => " / "@,
        }
    }

    /// How tightly the sign binds.
    pub open spec fn level(self) -> nat {
        match self {
            Infix::Plus | Infix::Minus => 0,
            Infix::Times | Infix::Over => 1,
        }
    }

    /// What the sign makes of two numbers.
    pub open spec fn of(self, x: real, y: real) -> real {
        match self {
            Infix::Plus => x + y,
            Infix::Minus => x - y,
            Infix::Times => x * y,
            Infix::Over => x / y,
        }
    }
}

/// A term of the code.
pub enum Term {
    /// A number, and where its point stands.
    Number(Seq<char>, nat),
    Var(Name),
    Negative(Box<Term>),
    InParens(Box<Term>),
    Of(Infix, Box<Term>, Box<Term>),
    Call(Builtin, Box<Term>),
    OfTwo(Extreme, Box<Term>, Box<Term>),
    /// The second term where the third is not below the fourth, else the
    /// first.
    Select(Box<Term>, Box<Term>, Box<Term>, Box<Term>),
}

/// The number that digits `from` to `to - 1` of a text make up.
pub open spec fn digits(t: Seq<char>, from: nat, to: nat) -> int
    decreases to,
{
    if to <= from {
        0
    } else {
        digits(t, from, (to - 1) as nat) * 10 + (t[to - 1] as int - 48)
    }
}

/// Ten to the power `n`.
pub open spec fn ten_to(n: nat) -> int
    decreases n,
{
    if n == 0 {
        1
    } else {
        10 * ten_to((n - 1) as nat)
    }
}

/// The number that a text with a decimal point stands for.
pub open spec fn number(t: Seq<char>, point: nat) -> real {
    digits(t, 0, point) as real + digits(t, point + 1, t.len()) as real / ten_to(
        (t.len() - point - 1) as nat,
    ) as real
}

/// Digits with a point among them.
pub open spec fn is_number(t: Seq<char>, point: nat) -> bool {
    &&& 0 < point < t.len() - 1
    &&& t[point as int] == '.'
    &&& forall|i: int|
        0 <= i < t.len() && i != point ==> '0' <= #[trigger] t[i] && t[i] <= '9'
}

impl Term {
    /// How the term is written.
    pub open spec fn text(self) -> Seq<char>
        decreases self,
    {
        match self {
            Term::Number(t, _) => t,
            Term::Var(n) => n.text(),
            Term::Negative(a) => "-"@ + a.text(),
            Term::InParens(a) => "("@ + a.text() + ")"@,
            Term::Of(op, a, b) => a.text() + op.text() + b.text(),
            Term::Call(f, a) => f.text() + a.text() + ")"@,
            Term::OfTwo(f, a, b) => (match f {
                Extreme::Min => "min("@,
                Extreme::Max => "max("@,
            }) + a.text() + ", "@ + b.text() + ")"@,
            Term::Select(a, b, c, d) => "select("@ + a.text() + ", "@ + b.text() + ", "@ + c.text()
                + " >= "@ + d.text() + ")"@,
        }
    }

    /// How tightly the term holds together.
    pub open spec fn level(self) -> nat {
        match self {
            Term::Of(op, _, _) => op.level(),
            Term::Negative(_) => 2,
            _ => 3,
        }
    }

    /// The term is read from its text as it stands here: the parts of a sign
    /// bind more tightly than the sign, and equal signs go from left to
    /// right.
    pub open spec fn wf(self) -> bool
        decreases self,
    {
        match self {
            Term::Number(t, point) => is_number(t, point),
            Term::Var(_) => true,
            Term::Negative(a) => a.wf() && a.level() >= 2,
            Term::InParens(a) => a.wf(),
            Term::Of(op, a, b) => a.wf() && b.wf() && a.level() >= op.level() && b.level()
                > op.level(),
            Term::Call(_, a) => a.wf(),
            Term::OfTwo(_, a, b) => a.wf() && b.wf(),
            Term::Select(a, b, c, d) => a.wf() && b.wf() && c.wf() && d.wf(),
        }
    }

    /// What the term stands for, given what the names stand for.
    pub open spec fn value(self, m: Functions, names: spec_fn(Name) -> real) -> real
        decreases self,
    {
        match self {
            Term::Number(t, point) => number(t, point),
            Term::Var(n) => names(n),
            Term::Negative(a) => -a.value(m, names),
            Term::InParens(a) => a.value(m, names),
            Term::Of(op, a, b) => op.of(a.value(m, names), b.value(m, names)),
            Term::Call(f, a) => f.of(m, a.value(m, names)),
            Term::OfTwo(f, a, b) => match f {
                Extreme::Min => smaller(a.value(m, names), b.value(m, names)),
                Extreme::Max => larger(a.value(m, names), b.value(m, names)),
            },
            Term::Select(a, b, c, d) => if c.value(m, names) >= d.value(m, names) {
                b.value(m, names)
            } else {
                a.value(m, names)
            },
        }
    }
}

/// The names with one more number among them.
pub open spec fn with_name(names: spec_fn(Name) -> real, n: Name, v: real) -> spec_fn(Name) -> real {
    |k: Name|
        if k == n {
            v
        } else {
            names(k)
        }
}

/// The code of an operation: numbers that are given names, and the result.
pub enum Code {
    Let(Name, Term, Box<Code>),
    Return(Term),
}

impl Code {
    /// How the code is written.
    pub open spec fn text(self) -> Seq<char>
        decreases self,
    {
        match self {
            Code::Let(n, t, rest) => "let "@ + n.text() + ": f32 = "@ + t.text() + "; "@
                + rest.text(),
            Code::Return(t) => "return "@ + t.text() + ";"@,
        }
    }

    /// The terms are read from their text as they stand here.
    pub open spec fn wf(self) -> bool
        decreases self,
    {
        match self {
            Code::Let(_, t, rest) => t.wf() && rest.wf(),
            Code::Return(t) => t.wf(),
        }
    }

    /// What the code returns, given what the names stand for.
    pub open spec fn value(self, m: Functions, names: spec_fn(Name) -> real) -> real
        decreases self,
    {
        match self {
            Code::Let(n, t, rest) => rest.value(m, with_name(names, n, t.value(m, names))),
            Code::Return(t) => t.value(m, names),
        }
    }
}

/// A number with one digit before its point.
pub open spec fn num(t: Seq<char>) -> Term {
    Term::Number(t, 1)
}

/// A number by its name.
pub open spec fn var(n: Name) -> Term {
    Term::Var(n)
}

/// `-a`.
pub open spec fn negative(a: Term) -> Term {
    Term::Negative(Box::new(a))
}

/// `(a)`.
pub open spec fn parens(a: Term) -> Term {
    Term::InParens(Box::new(a))
}

/// `a + b`.
pub open spec fn sum_of(a: Term, b: Term) -> Term {
    Term::Of(Infix::Plus, Box::new(a), Box::new(b))
}

/// `a - b`.
pub open spec fn difference_of(a: Term, b: Term) -> Term {
    Term::Of(Infix::Minus, Box::new(a), Box::new(b))
}

/// `a * b`.
pub open spec fn product_of(a: Term, b: Term) -> Term {
    Term::Of(Infix::Times, Box::new(a), Box::new(b))
}

/// `a / b`.
pub open spec fn quotient_of(a: Term, b: Term) -> Term {
    Term::Of(Infix::Over, Box::new(a), Box::new(b))
}

/// A function of `a`.
pub open spec fn call(f: Builtin, a: Term) -> Term {
    Term::Call(f, Box::new(a))
}

/// The smaller of `a` and `b`.
pub open spec fn least(a: Term, b: Term) -> Term {
    Term::OfTwo(Extreme::Min, Box::new(a), Box::new(b))
}

/// The larger of `a` and `b`.
pub open spec fn greatest(a: Term, b: Term) -> Term {
    Term::OfTwo(Extreme::Max, Box::new(a), Box::new(b))
}

/// `b` where `c` is not below `d`, else `a`.
pub open spec fn select(a: Term, b: Term, c: Term, d: Term) -> Term {
    Term::Select(Box::new(a), Box::new(b), Box::new(c), Box::new(d))
}

/// The code `rest`, in which the term has a name.
pub open spec fn given_name(n: Name, t: Term, rest: Code) -> Code {
    Code::Let(n, t, Box::new(rest))
}

/// The text is code that returns `r` where the names stand for the given
/// numbers.
pub open spec fn computes(
    text: Seq<char>,
    m: Functions,
    names: spec_fn(Name) -> real,
    r: real,
) -> bool {
    exists|c: Code| #[trigger] c.text() == text && c.wf() && c.value(m, names) == r
}

} // verus!
