//! What the shader code of the element-wise operations computes, in real
//! numbers.

use crate::analysis::{absolute, larger, lemma_tanh, sign, smaller, Functions};
use crate::layout::LayoutView;
use crate::ops::binary::{self, binary_dispatch, BinaryOp};
use crate::ops::shader::{
    computes, difference_of, digits, greatest, least, num, number, product_of, quotient_of, sum_of,
    ten_to, var, Code, Name, Term,
};
use crate::ops::unary::{self, unary_dispatch, UnaryOp};
use crate::ops::unary_code::{
    gelu_code, lemma_abs_text, lemma_ceil_text, lemma_cos_text, lemma_exp_text, lemma_floor_text,
    lemma_gelu_text, lemma_log_text, lemma_neg_text, lemma_recip_text, lemma_relu_text,
    lemma_round_text, lemma_sign_text, lemma_silu_text, lemma_sin_text, lemma_sqr_text,
    lemma_sqrt_text, lemma_tanh_text, term_of,
};
use crate::storage::StorageView;
use vstd::prelude::*;
use vstd::string::*;

verus! {

/// What the names stand for where there is one operand.
pub open spec fn operand(x: real) -> spec_fn(Name) -> real {
    |n: Name|
        if n is X {
            x
        } else {
            0real
        }
}

/// What the names stand for where there are two operands.
pub open spec fn operands(x: real, y: real) -> spec_fn(Name) -> real {
    |n: Name|
        if n is X {
            x
        } else if n is Y {
            y
        } else {
            0real
        }
}

pub(crate) proof fn number_0_5()
    ensures
        number("0.5"@, 1) == 5real / 10real,
        num("0.5"@).wf(),
{
    reveal_strlit("0.5");
    reveal_with_fuel(digits, 3);
    reveal_with_fuel(ten_to, 3);
    assert(digits("0.5"@, 0, 1) == 0);
    assert(digits("0.5"@, 2, 3) == 5);
    assert(ten_to(1) == 10);
}

pub(crate) proof fn number_1_0()
    ensures
        number("1.0"@, 1) == 1real,
        num("1.0"@).wf(),
{
    reveal_strlit("1.0");
    reveal_with_fuel(digits, 3);
    reveal_with_fuel(ten_to, 3);
    assert(digits("1.0"@, 0, 1) == 1);
    assert(digits("1.0"@, 2, 3) == 0);
    assert(ten_to(1) == 10);
    assert(1real + 0real / 10real == 1real);
}

pub(crate) proof fn number_0_0()
    ensures
        number("0.0"@, 1) == 0real,
        num("0.0"@).wf(),
{
    reveal_strlit("0.0");
    reveal_with_fuel(digits, 3);
    reveal_with_fuel(ten_to, 3);
    assert(digits("0.0"@, 0, 1) == 0);
    assert(digits("0.0"@, 2, 3) == 0);
    assert(ten_to(1) == 10);
    assert(0real + 0real / 10real == 0real);
}

pub(crate) proof fn number_0_044715()
    ensures
        number("0.044715"@, 1) == 44715real / 1000000real,
        num("0.044715"@).wf(),
{
    reveal_strlit("0.044715");
    reveal_with_fuel(digits, 8);
    reveal_with_fuel(ten_to, 8);
    assert(digits("0.044715"@, 0, 1) == 0);
    assert(digits("0.044715"@, 2, 8) == 44715);
    assert(ten_to(6) == 1000000);
}

pub(crate) proof fn number_0_7978845608028654()
    ensures
        number("0.7978845608028654"@, 1) == 7978845608028654real / 10000000000000000real,
        num("0.7978845608028654"@).wf(),
{
    reveal_strlit("0.7978845608028654");
    reveal_with_fuel(digits, 18);
    reveal_with_fuel(ten_to, 18);
    assert(digits("0.7978845608028654"@, 0, 1) == 0);
    assert(digits("0.7978845608028654"@, 2, 18) == 7978845608028654);
    assert(ten_to(16) == 10000000000000000);
}

proof fn lemma_gelu_value(m: Functions, x: real)
    ensures
        gelu_code().wf(),
        gelu_code().value(m, operand(x)) == x / 2real * (1real + m.tanh(
            kappa() * (x + 44715real / 1000000real * (x * x * x)),
        )),
{
    number_0_7978845608028654();
    number_0_044715();
    number_0_5();
    number_1_0();
    reveal_with_fuel(Code::value, 4);
    reveal_with_fuel(Term::value, 10);
    reveal_with_fuel(Code::wf, 4);
    reveal_with_fuel(Term::wf, 10);
    let c = 44715real / 1000000real;
    assert(c * x * x * x == c * (x * x * x)) by (nonlinear_arith);
}

/// The square root of two over pi, as far as the code has it.
pub open spec fn kappa() -> real {
    7978845608028654real / 10000000000000000real
}

/// The code that a kernel's operation is given.
pub open spec fn code_in(subs: Seq<(Seq<char>, Seq<char>)>, code: Seq<char>) -> bool {
    exists|i: int|
        0 <= i < subs.len() && (#[trigger] subs[i]).0 == "__OP_BODY__"@ && subs[i].1 == code
}

/// The kernel runs code that computes `r` of `x`.
pub open spec fn runs(subs: Seq<(Seq<char>, Seq<char>)>, m: Functions, x: real, r: real) -> bool {
    exists|code: Seq<char>| #[trigger] code_in(subs, code) && computes(code, m, operand(x), r)
}

proof fn lemma_simple_value(op: UnaryOp, m: Functions, x: real)
    ensures
        !(op is Gelu || op is GeluErf || op is Erf) ==> Code::Return(term_of(op)).wf()
            && Code::Return(term_of(op)).value(m, operand(x)) == match op {
            UnaryOp::Neg => -x,
            UnaryOp::Abs => absolute(x),
            UnaryOp::Sqrt => (m.sqrt)(x),
            UnaryOp::Sqr => x * x,
            UnaryOp::Exp => (m.exp)(x),
            UnaryOp::Log => (m.log)(x),
            UnaryOp::Sin => (m.sin)(x),
            UnaryOp::Cos => (m.cos)(x),
            UnaryOp::Tanh => m.tanh(x),
            UnaryOp::Recip => 1real / x,
            UnaryOp::Floor => (m.floor)(x),
            UnaryOp::Ceil => m.ceil(x),
            UnaryOp::Round => m.round(x),
            UnaryOp::Sign => sign(x),
            UnaryOp::Relu => larger(x, 0real),
            UnaryOp::Silu => x / (1real + (m.exp)(-x)),
            _ => arbitrary(),
        },
{
    number_1_0();
    number_0_0();
    reveal_with_fuel(Term::value, 7);
    reveal_with_fuel(Term::wf, 7);
    let t = term_of(op);
    let n = operand(x);
    assert(Code::Return(t).value(m, n) == t.value(m, n));
    assert(Code::Return(t).wf() == t.wf());
    match op {
        UnaryOp::Neg => assert(t.wf() && t.value(m, n) == -x),
        UnaryOp::Abs => assert(t.wf() && t.value(m, n) == absolute(x)),
        UnaryOp::Sqrt => assert(t.wf() && t.value(m, n) == (m.sqrt)(x)),
        UnaryOp::Sqr => assert(t.wf() && t.value(m, n) == x * x),
        UnaryOp::Exp => assert(t.wf() && t.value(m, n) == (m.exp)(x)),
        UnaryOp::Log => assert(t.wf() && t.value(m, n) == (m.log)(x)),
        UnaryOp::Sin => assert(t.wf() && t.value(m, n) == (m.sin)(x)),
        UnaryOp::Cos => assert(t.wf() && t.value(m, n) == (m.cos)(x)),
        UnaryOp::Tanh => assert(t.wf() && t.value(m, n) == m.tanh(x)),
        UnaryOp::Recip => assert(t.wf() && t.value(m, n) == 1real / x),
        UnaryOp::Floor => assert(t.wf() && t.value(m, n) == (m.floor)(x)),
        UnaryOp::Ceil => assert(t.wf() && t.value(m, n) == m.ceil(x)),
        UnaryOp::Round => assert(t.wf() && t.value(m, n) == m.round(x)),
        UnaryOp::Sign => assert(t.wf() && t.value(m, n) == sign(x)),
        UnaryOp::Relu => assert(t.wf() && t.value(m, n) == larger(x, 0real)),
        UnaryOp::Silu => assert(t.wf() && t.value(m, n) == x / (1real + (m.exp)(-x))),
        _ => {},
    }
}

proof fn lemma_simple_text(op: UnaryOp)
    ensures
        !(op is Gelu || op is GeluErf || op is Erf) ==> Code::Return(term_of(op)).text()
            == op.spec_body(),
{
    match op {
        UnaryOp::Neg => lemma_neg_text(),
        UnaryOp::Abs => lemma_abs_text(),
        UnaryOp::Sqrt => lemma_sqrt_text(),
        UnaryOp::Sqr => lemma_sqr_text(),
        UnaryOp::Exp => lemma_exp_text(),
        UnaryOp::Log => lemma_log_text(),
        UnaryOp::Sin => lemma_sin_text(),
        UnaryOp::Cos => lemma_cos_text(),
        UnaryOp::Tanh => lemma_tanh_text(),
        UnaryOp::Recip => lemma_recip_text(),
        UnaryOp::Floor => lemma_floor_text(),
        UnaryOp::Ceil => lemma_ceil_text(),
        UnaryOp::Round => lemma_round_text(),
        UnaryOp::Sign => lemma_sign_text(),
        UnaryOp::Relu => lemma_relu_text(),
        UnaryOp::Silu => lemma_silu_text(),
        _ => {},
    }
}

/// The operation that is known by a name is the one of that name.
proof fn lemma_named(op: UnaryOp, named: UnaryOp, name: Seq<char>)
    requires
        named.spec_name() == name,
    ensures
        op.spec_name() == name ==> op == named,
{
    if op.spec_name() == name {
        unary::law_names_differ(op, named);
    }
}

/// For every element, the kernel that is dispatched under a name computes the
/// function of that name.
pub proof fn law_unary_computes(
    src: StorageView,
    l: LayoutView,
    op: UnaryOp,
    m: Functions,
    x: real,
)
    ensures
        ({
            let name = op.spec_name();
            let subs = unary_dispatch(src, l, op).kernel.substitutions;
            &&& name == "neg"@ ==> runs(subs, m, x, -x)
            &&& name == "abs"@ ==> runs(subs, m, x, absolute(x))
            &&& name == "sqrt"@ ==> runs(subs, m, x, (m.sqrt)(x))
            &&& name == "sqr"@ ==> runs(subs, m, x, x * x)
            &&& name == "exp"@ ==> runs(subs, m, x, (m.exp)(x))
            &&& name == "log"@ ==> runs(subs, m, x, (m.log)(x))
            &&& name == "sin"@ ==> runs(subs, m, x, (m.sin)(x))
            &&& name == "cos"@ ==> runs(subs, m, x, (m.cos)(x))
            &&& name == "tanh"@ ==> runs(subs, m, x, m.tanh(x))
            &&& name == "recip"@ ==> runs(subs, m, x, 1real / x)
            &&& name == "floor"@ ==> runs(subs, m, x, (m.floor)(x))
            &&& name == "ceil"@ ==> runs(subs, m, x, m.ceil(x))
            &&& name == "round"@ ==> runs(subs, m, x, m.round(x))
            &&& name == "sign"@ ==> runs(subs, m, x, sign(x))
            &&& name == "relu"@ ==> runs(subs, m, x, larger(x, 0real))
            &&& name == "silu"@ ==> runs(subs, m, x, x / (1real + (m.exp)(-x)))
        }),
{
    let subs = unary_dispatch(src, l, op).kernel.substitutions;
    assert(subs[1].0 == "__OP_BODY__"@ && subs[1].1 == op.spec_body());
    assert(code_in(subs, op.spec_body()));
    lemma_simple_value(op, m, x);
    lemma_simple_text(op);
    lemma_named(op, UnaryOp::Neg, "neg"@);
    lemma_named(op, UnaryOp::Abs, "abs"@);
    lemma_named(op, UnaryOp::Sqrt, "sqrt"@);
    lemma_named(op, UnaryOp::Sqr, "sqr"@);
    lemma_named(op, UnaryOp::Exp, "exp"@);
    lemma_named(op, UnaryOp::Log, "log"@);
    lemma_named(op, UnaryOp::Sin, "sin"@);
    lemma_named(op, UnaryOp::Cos, "cos"@);
    lemma_named(op, UnaryOp::Tanh, "tanh"@);
    lemma_named(op, UnaryOp::Recip, "recip"@);
    lemma_named(op, UnaryOp::Floor, "floor"@);
    lemma_named(op, UnaryOp::Ceil, "ceil"@);
    lemma_named(op, UnaryOp::Round, "round"@);
    lemma_named(op, UnaryOp::Sign, "sign"@);
    lemma_named(op, UnaryOp::Relu, "relu"@);
    lemma_named(op, UnaryOp::Silu, "silu"@);
}

/// `x / 2 * (1 + tanh(k * (x + 0.044715 * x^3)))`.
pub open spec fn gelu_of(m: Functions, x: real) -> real {
    x / 2real * (1real + m.tanh(kappa() * (x + 44715real / 1000000real * (x * x * x))))
}

/// The kernel that is dispatched under the name `gelu` computes, for every
/// element, `x / 2 * (1 + tanh(k * (x + 0.044715 * x^3)))`, with `k` the square
/// root of two over pi to five places and more.
pub proof fn law_gelu_computes(src: StorageView, l: LayoutView, op: UnaryOp, m: Functions, x: real)
    requires
        op.spec_name() == "gelu"@,
    ensures
        runs(
            unary_dispatch(src, l, op).kernel.substitutions,
            m,
            x,
            x / 2real * (1real + m.tanh(kappa() * (x + 44715real / 1000000real * (x * x * x)))),
        ),
        79788real / 100000real < kappa() < 79789real / 100000real,
{
    let subs = unary_dispatch(src, l, op).kernel.substitutions;
    lemma_named(op, UnaryOp::Gelu, "gelu"@);
    assert(subs[1].0 == "__OP_BODY__"@ && subs[1].1 == op.spec_body());
    assert(code_in(subs, op.spec_body()));
    lemma_gelu_text();
    lemma_gelu_value(m, x);
}

/// What `gelu` gives for a positive number is more than half of it and less
/// than the number; for its opposite it gives something below zero that is
/// smaller in size.
pub proof fn law_gelu_shape(m: Functions, x: real)
    requires
        m.wf(),
        x > 0real,
    ensures
        x / 2real < gelu_of(m, x) < x,
        -x / 2real < gelu_of(m, -x) < 0real,
        gelu_of(m, x) + gelu_of(m, -x) > 0real,
        gelu_of(m, x) - gelu_of(m, -x) == x,
{
    let c = 44715real / 1000000real;
    let a = kappa() * (x + c * (x * x * x));
    assert(x * x * x > 0real && -x * -x * -x == -(x * x * x)) by (nonlinear_arith)
        requires
            x > 0real,
    ;
    let q = x * x * x;
    assert(a > 0real && kappa() * (-x + c * -q) == -a) by (nonlinear_arith)
        requires
            a == kappa() * (x + c * q),
            kappa() == 7978845608028654real / 10000000000000000real,
            c == 44715real / 1000000real,
            x > 0real,
            q > 0real,
    ;
    lemma_tanh(m, a);
    let t = m.tanh(a);
    assert(gelu_of(m, -x) == -x / 2real * (1real + -t));
    assert(x / 2real < x / 2real * (1real + t) < x && -x / 2real < -x / 2real * (1real + -t)
        < 0real && x / 2real * (1real + t) + -x / 2real * (1real + -t) > 0real && x / 2real * (1real
        + t) - -x / 2real * (1real + -t) == x) by (nonlinear_arith)
        requires
            x > 0real,
            0real < t < 1real,
    ;
}

spec fn binary_term(op: BinaryOp) -> Term {
    let (x, y) = (var(Name::X), var(Name::Y));
    match op {
        BinaryOp::Add => sum_of(x, y),
        BinaryOp::Sub => difference_of(x, y),
        BinaryOp::Mul => product_of(x, y),
        BinaryOp::Div => quotient_of(x, y),
        BinaryOp::Minimum => least(x, y),
        BinaryOp::Maximum => greatest(x, y),
    }
}

proof fn lemma_binary_text(op: BinaryOp)
    ensures
        Code::Return(binary_term(op)).text() == op.spec_body(),
{
    reveal_strlit("return x + y;");
    reveal_strlit("return x - y;");
    reveal_strlit("return x * y;");
    reveal_strlit("return x / y;");
    reveal_strlit("return min(x, y);");
    reveal_strlit("return max(x, y);");
    reveal_strlit("return ");
    reveal_strlit("x");
    reveal_strlit("y");
    reveal_strlit(" + ");
    reveal_strlit(" - ");
    reveal_strlit(" * ");
    reveal_strlit(" / ");
    reveal_strlit("min(");
    reveal_strlit("max(");
    reveal_strlit(", ");
    reveal_strlit(")");
    reveal_strlit(";");
    reveal_with_fuel(Term::text, 3);
    match op {
        BinaryOp::Add => assert(Code::Return(binary_term(op)).text() =~= op.spec_body()),
        BinaryOp::Sub => assert(Code::Return(binary_term(op)).text() =~= op.spec_body()),
        BinaryOp::Mul => assert(Code::Return(binary_term(op)).text() =~= op.spec_body()),
        BinaryOp::Div => assert(Code::Return(binary_term(op)).text() =~= op.spec_body()),
        BinaryOp::Minimum => assert(Code::Return(binary_term(op)).text() =~= op.spec_body()),
        BinaryOp::Maximum => assert(Code::Return(binary_term(op)).text() =~= op.spec_body()),
    }
}

proof fn lemma_binary_named(op: BinaryOp, named: BinaryOp, name: Seq<char>)
    requires
        named.spec_name() == name,
    ensures
        op.spec_name() == name ==> op == named,
{
    if op.spec_name() == name {
        binary::law_names_differ(op, named);
    }
}

/// For every pair of elements, the kernel that is dispatched under a name
/// computes the operation of that name, the element of the first tensor on its
/// left.
pub proof fn law_binary_computes(
    lhs: StorageView,
    a: LayoutView,
    b: LayoutView,
    op: BinaryOp,
    m: Functions,
    x: real,
    y: real,
)
    ensures
        ({
            let name = op.spec_name();
            let code = op.spec_body();
            let names = operands(x, y);
            &&& code_in(binary_dispatch(lhs, a, b, op).kernel.substitutions, code)
            &&& name == "add"@ ==> computes(code, m, names, x + y)
            &&& name == "sub"@ ==> computes(code, m, names, x - y)
            &&& name == "mul"@ ==> computes(code, m, names, x * y)
            &&& name == "div"@ ==> computes(code, m, names, x / y)
            &&& name == "minimum"@ ==> computes(code, m, names, smaller(x, y))
            &&& name == "maximum"@ ==> computes(code, m, names, larger(x, y))
        }),
{
    let subs = binary_dispatch(lhs, a, b, op).kernel.substitutions;
    assert(subs[1].0 == "__OP_BODY__"@ && subs[1].1 == op.spec_body());
    lemma_binary_text(op);
    lemma_binary_named(op, BinaryOp::Add, "add"@);
    lemma_binary_named(op, BinaryOp::Sub, "sub"@);
    lemma_binary_named(op, BinaryOp::Mul, "mul"@);
    lemma_binary_named(op, BinaryOp::Div, "div"@);
    lemma_binary_named(op, BinaryOp::Minimum, "minimum"@);
    lemma_binary_named(op, BinaryOp::Maximum, "maximum"@);
    let c = Code::Return(binary_term(op));
    assert(c.text() == op.spec_body());
    reveal_with_fuel(Term::value, 3);
    reveal_with_fuel(Term::wf, 3);
    assert(c.wf());
}

} // verus!
