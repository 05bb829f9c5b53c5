//! What the shader code of the error function computes, in real numbers.

use crate::analysis::{absolute, Functions};
use crate::layout::LayoutView;
use crate::ops::erf_code::{
    erf_code, erf_t_term, erf_y_term, gelu_erf_code, lemma_erf_text, lemma_gelu_erf_text,
    stage_fifth, stage_first, stage_fourth, stage_second, stage_third,
};
use crate::ops::formulas::{code_in, number_0_0, number_0_5, number_1_0, operand, runs};
use crate::ops::shader::{
    call, computes, digits, given_name, negative, num, number, parens, product_of, select, sum_of,
    ten_to, var, with_name, Builtin, Code, Name, Term,
};
use crate::ops::unary::{self, unary_dispatch, UnaryOp};
use crate::storage::StorageView;
use vstd::prelude::*;
use vstd::string::*;

verus! {

proof fn number_0_7071067811865475()
    ensures
        number("0.7071067811865475"@, 1) == 7071067811865475real / 10000000000000000real,
        num("0.7071067811865475"@).wf(),
{
    reveal_strlit("0.7071067811865475");
    reveal_with_fuel(digits, 18);
    reveal_with_fuel(ten_to, 18);
    assert(digits("0.7071067811865475"@, 0, 1) == 0);
    assert(digits("0.7071067811865475"@, 2, 18) == 7071067811865475);
    assert(ten_to(16) == 10000000000000000);
}

proof fn number_0_3275911()
    ensures
        number("0.3275911"@, 1) == 3275911real / 10000000real,
        num("0.3275911"@).wf(),
{
    reveal_strlit("0.3275911");
    reveal_with_fuel(digits, 9);
    reveal_with_fuel(ten_to, 9);
    assert(digits("0.3275911"@, 0, 1) == 0);
    assert(digits("0.3275911"@, 2, 9) == 3275911);
    assert(ten_to(7) == 10000000);
}

proof fn number_1_061405429()
    ensures
        number("1.061405429"@, 1) == 1061405429real / 1000000000real,
        num("1.061405429"@).wf(),
{
    reveal_strlit("1.061405429");
    reveal_with_fuel(digits, 11);
    reveal_with_fuel(ten_to, 11);
    assert(digits("1.061405429"@, 0, 1) == 1);
    assert(digits("1.061405429"@, 2, 11) == 61405429);
    assert(ten_to(9) == 1000000000);
    assert(1real + 61405429real / 1000000000real == 1061405429real / 1000000000real);
}

proof fn number_1_453152027()
    ensures
        number("1.453152027"@, 1) == 1453152027real / 1000000000real,
        num("1.453152027"@).wf(),
{
    reveal_strlit("1.453152027");
    reveal_with_fuel(digits, 11);
    reveal_with_fuel(ten_to, 11);
    assert(digits("1.453152027"@, 0, 1) == 1);
    assert(digits("1.453152027"@, 2, 11) == 453152027);
    assert(ten_to(9) == 1000000000);
    assert(1real + 453152027real / 1000000000real == 1453152027real / 1000000000real);
}

proof fn number_1_421413741()
    ensures
        number("1.421413741"@, 1) == 1421413741real / 1000000000real,
        num("1.421413741"@).wf(),
{
    reveal_strlit("1.421413741");
    reveal_with_fuel(digits, 11);
    reveal_with_fuel(ten_to, 11);
    assert(digits("1.421413741"@, 0, 1) == 1);
    assert(digits("1.421413741"@, 2, 11) == 421413741);
    assert(ten_to(9) == 1000000000);
    assert(1real + 421413741real / 1000000000real == 1421413741real / 1000000000real);
}

proof fn number_0_284496736()
    ensures
        number("0.284496736"@, 1) == 284496736real / 1000000000real,
        num("0.284496736"@).wf(),
{
    reveal_strlit("0.284496736");
    reveal_with_fuel(digits, 11);
    reveal_with_fuel(ten_to, 11);
    assert(digits("0.284496736"@, 0, 1) == 0);
    assert(digits("0.284496736"@, 2, 11) == 284496736);
    assert(ten_to(9) == 1000000000);
}

proof fn number_0_254829592()
    ensures
        number("0.254829592"@, 1) == 254829592real / 1000000000real,
        num("0.254829592"@).wf(),
{
    reveal_strlit("0.254829592");
    reveal_with_fuel(digits, 11);
    reveal_with_fuel(ten_to, 11);
    assert(digits("0.254829592"@, 0, 1) == 0);
    assert(digits("0.254829592"@, 2, 11) == 254829592);
    assert(ten_to(9) == 1000000000);
}

/// The rational approximation of the error function: for `x` that is not
/// negative, one less `p(t) * t * exp(-x * x)` with a polynomial `p` of
/// `t = 1 / (1 + 0.3275911 * x)`; odd but at zero.
pub open spec fn erf_of(m: Functions, x: real) -> real {
    let t = 1real / (1real + 3275911real / 10000000real * absolute(x));
    let y = 1real - polynomial(t) * t * (m.exp)(-(x * x));
    if x >= 0real {
        y
    } else {
        -y
    }
}

pub open spec fn polynomial(t: real) -> real {
    let g = 1000000000real;
    ((((1061405429real / g) * t - 1453152027real / g) * t + 1421413741real / g) * t - 284496736real
        / g) * t + 254829592real / g
}

/// One over the square root of two, as far as the code has it.
pub open spec fn half_root() -> real {
    7071067811865475real / 10000000000000000real
}

proof fn lemma_stages(m: Functions, names: spec_fn(Name) -> real)
    ensures
        stage_fifth().wf(),
        stage_fifth().level() == 3,
        stage_fifth().value(m, names) == polynomial(names(Name::T)),
{
    number_1_061405429();
    number_1_453152027();
    number_1_421413741();
    number_0_284496736();
    number_0_254829592();
    reveal_with_fuel(Term::value, 4);
    reveal_with_fuel(Term::wf, 4);
    assert(stage_first().wf() && stage_first().level() == 3);
    assert(stage_second().wf() && stage_second().level() == 3);
    assert(stage_third().wf() && stage_third().level() == 3);
    assert(stage_fourth().wf() && stage_fourth().level() == 3);
    let t = names(Name::T);
    let g = 1000000000real;
    let a = (1061405429real / g) * t - 1453152027real / g;
    assert(stage_first().value(m, names) == a);
    assert(stage_second().value(m, names) == a * t);
    assert(stage_third().value(m, names) == a * t + 1421413741real / g);
    assert(stage_fourth().value(m, names) == (a * t + 1421413741real / g) * t - 284496736real / g);
}

proof fn lemma_erf_terms_value(m: Functions, names: spec_fn(Name) -> real, n: Name)
    ensures
        erf_t_term(var(n)).wf(),
        erf_y_term(var(n)).wf(),
        erf_t_term(var(n)).value(m, names) == 1real / (1real + 3275911real / 10000000real
            * absolute(names(n))),
        erf_y_term(var(n)).value(m, names) == 1real - polynomial(names(Name::T)) * names(Name::T)
            * (m.exp)(-(names(n) * names(n))),
{
    lemma_stages(m, names);
    number_1_0();
    number_0_3275911();
    let s = names(n);
    assert(-s * s == -(s * s)) by (nonlinear_arith);
    reveal_with_fuel(Term::value, 6);
    reveal_with_fuel(Term::wf, 6);
    let e = call(Builtin::Exp, product_of(negative(var(n)), var(n)));
    assert(e.wf() && e.value(m, names) == (m.exp)(-s * s));
    let q = product_of(stage_fifth(), var(Name::T));
    assert(q.wf() && q.value(m, names) == stage_fifth().value(m, names) * names(Name::T));
    assert(product_of(q, e).wf() && product_of(q, e).value(m, names) == q.value(m, names)
        * e.value(m, names));
}

proof fn lemma_let(n: Name, t: Term, rest: Code, m: Functions, names: spec_fn(Name) -> real)
    ensures
        given_name(n, t, rest).wf() == (t.wf() && rest.wf()),
        given_name(n, t, rest).value(m, names) == rest.value(
            m,
            with_name(names, n, t.value(m, names)),
        ),
{
    reveal_with_fuel(Code::value, 2);
    reveal_with_fuel(Code::wf, 2);
}

proof fn lemma_erf_value(m: Functions, x: real)
    ensures
        erf_code().wf(),
        erf_code().value(m, operand(x)) == erf_of(m, x),
{
    let n0 = operand(x);
    lemma_erf_terms_value(m, n0, Name::X);
    let t = erf_t_term(var(Name::X)).value(m, n0);
    let n1 = with_name(n0, Name::T, t);
    lemma_erf_terms_value(m, n1, Name::X);
    let y = erf_y_term(var(Name::X)).value(m, n1);
    let n2 = with_name(n1, Name::Y, y);
    number_0_0();
    let sel = select(negative(var(Name::Y)), var(Name::Y), var(Name::X), num("0.0"@));
    assert(sel.wf() && sel.value(m, n2) == if x >= 0real {
        y
    } else {
        -y
    }) by {
        reveal_with_fuel(Term::value, 3);
        reveal_with_fuel(Term::wf, 3);
    }
    let c2 = Code::Return(sel);
    let c1 = given_name(Name::Y, erf_y_term(var(Name::X)), c2);
    assert(c2.wf() && c2.value(m, n2) == sel.value(m, n2));
    lemma_let(Name::Y, erf_y_term(var(Name::X)), c2, m, n1);
    lemma_let(Name::T, erf_t_term(var(Name::X)), c1, m, n0);
}

proof fn lemma_gelu_erf_value(m: Functions, x: real)
    ensures
        gelu_erf_code().wf(),
        gelu_erf_code().value(m, operand(x)) == x / 2real * (1real + erf_of(m, x * half_root())),
{
    let n0 = operand(x);
    number_0_7071067811865475();
    number_0_0();
    number_0_5();
    number_1_0();
    let first = product_of(var(Name::X), num("0.7071067811865475"@));
    let s = x * half_root();
    assert(first.wf() && first.value(m, n0) == s) by {
        reveal_with_fuel(Term::value, 3);
        reveal_with_fuel(Term::wf, 3);
    }
    let n1 = with_name(n0, Name::S, s);
    lemma_erf_terms_value(m, n1, Name::S);
    let t = erf_t_term(var(Name::S)).value(m, n1);
    let n2 = with_name(n1, Name::T, t);
    lemma_erf_terms_value(m, n2, Name::S);
    let y = erf_y_term(var(Name::S)).value(m, n2);
    let n3 = with_name(n2, Name::Y, y);
    let sel = select(negative(var(Name::Y)), var(Name::Y), var(Name::S), num("0.0"@));
    assert(sel.wf() && sel.value(m, n3) == erf_of(m, s)) by {
        reveal_with_fuel(Term::value, 3);
        reveal_with_fuel(Term::wf, 3);
    }
    let n4 = with_name(n3, Name::ErfS, erf_of(m, s));
    let last = product_of(
        product_of(num("0.5"@), var(Name::X)),
        parens(sum_of(num("1.0"@), var(Name::ErfS))),
    );
    assert(last.wf() && last.value(m, n4) == x / 2real * (1real + erf_of(m, s))) by {
        reveal_with_fuel(Term::value, 5);
        reveal_with_fuel(Term::wf, 5);
    }
    let c4 = Code::Return(last);
    let c3 = given_name(Name::ErfS, sel, c4);
    let c2 = given_name(Name::Y, erf_y_term(var(Name::S)), c3);
    let c1 = given_name(Name::T, erf_t_term(var(Name::S)), c2);
    assert(c4.wf() && c4.value(m, n4) == last.value(m, n4));
    lemma_let(Name::ErfS, sel, c4, m, n3);
    lemma_let(Name::Y, erf_y_term(var(Name::S)), c3, m, n2);
    lemma_let(Name::T, erf_t_term(var(Name::S)), c2, m, n1);
    lemma_let(Name::S, first, c1, m, n0);
}

/// The kernels that are dispatched under the names `erf` and `gelu_erf` compute,
/// for every element, the rational approximation of the error function and
/// `x / 2 * (1 + erf(x / sqrt(2)))`. The approximation is, for numbers that are
/// not negative, one less `((((e * t - d) * t + c) * t - b) * t + a) * t *
/// exp(-x * x)` with `t = 1 / (1 + 0.3275911 * x)`; for others it is the
/// opposite of that for their size.
pub proof fn law_erf_computes(src: StorageView, l: LayoutView, op: UnaryOp, m: Functions, x: real)
    ensures
        ({
            let subs = unary_dispatch(src, l, op).kernel.substitutions;
            let g = 1000000000real;
            let erf = |x: real|
                {
                    let t = 1real / (1real + 3275911real / 10000000real * absolute(x));
                    let p = ((((1061405429real / g) * t - 1453152027real / g) * t + 1421413741real
                        / g) * t - 284496736real / g) * t + 254829592real / g;
                    let y = 1real - p * t * (m.exp)(-(x * x));
                    if x >= 0real {
                        y
                    } else {
                        -y
                    }
                };
            &&& op.spec_name() == "erf"@ ==> runs(subs, m, x, erf(x))
            &&& op.spec_name() == "gelu_erf"@ ==> runs(
                subs,
                m,
                x,
                x / 2real * (1real + erf(x * half_root())),
            )
        }),
        70710real / 100000real < half_root() < 70711real / 100000real,
{
    let subs = unary_dispatch(src, l, op).kernel.substitutions;
    assert(subs[1].0 == "__OP_BODY__"@ && subs[1].1 == op.spec_body());
    assert(code_in(subs, op.spec_body()));
    if op.spec_name() == "erf"@ {
        unary::law_names_differ(op, UnaryOp::Erf);
        lemma_erf_text();
        lemma_erf_value(m, x);
        assert(computes(op.spec_body(), m, operand(x), erf_of(m, x)));
    }
    if op.spec_name() == "gelu_erf"@ {
        unary::law_names_differ(op, UnaryOp::GeluErf);
        lemma_gelu_erf_text();
        lemma_gelu_erf_value(m, x);
        assert(computes(
            op.spec_body(),
            m,
            operand(x),
            x / 2real * (1real + erf_of(m, x * half_root())),
        ));
    }
}

/// The approximation of the error function is odd.
pub proof fn law_erf_odd(m: Functions, x: real)
    requires
        x != 0real,
    ensures
        erf_of(m, -x) == -erf_of(m, x),
{
    assert(-x * -x == x * x) by (nonlinear_arith);
}

} // verus!
