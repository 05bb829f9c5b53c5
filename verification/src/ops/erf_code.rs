//! The shader code of the error function and of what is made of it, term by
//! term.

use crate::ops::shader::{
    call, difference_of, given_name, negative, num, parens, product_of, quotient_of, select, sum_of,
    var, Builtin, Code, Name, Term,
};
use crate::ops::unary::UnaryOp;
use vstd::prelude::*;
use vstd::string::*;

verus! {

/// The polynomial of the error function, up to its second number.
pub open spec fn stage_first() -> Term {
    parens(difference_of(product_of(num("1.061405429"@), var(Name::T)), num("1.453152027"@)))
}

pub proof fn lemma_stage_first()
    ensures
        stage_first().text() == "(1.061405429 * t - 1.453152027)"@,
        stage_first().level() == 3,
{
    reveal_strlit("(1.061405429 * t - 1.453152027)");
    reveal_strlit("1.061405429");
    reveal_strlit(" * ");
    reveal_strlit("t");
    reveal_strlit(" - ");
    reveal_strlit("1.453152027");
    reveal_strlit("(");
    reveal_strlit(")");
    reveal_with_fuel(Term::text, 4);
    assert(stage_first().text() =~= "(1.061405429 * t - 1.453152027)"@);
}

/// The same, times `t`.
pub open spec fn stage_second() -> Term {
    parens(product_of(stage_first(), var(Name::T)))
}

pub proof fn lemma_stage_second()
    ensures
        stage_second().text() == "((1.061405429 * t - 1.453152027) * t)"@,
        stage_second().level() == 3,
{
    lemma_stage_first();
    reveal_strlit("(1.061405429 * t - 1.453152027)");
    reveal_strlit("((1.061405429 * t - 1.453152027) * t)");
    reveal_strlit("(");
    reveal_strlit(")");
    reveal_strlit(" * ");
    reveal_strlit("t");
    reveal_with_fuel(Term::text, 4);
    assert(stage_second().text() =~= "((1.061405429 * t - 1.453152027) * t)"@);
}

/// The same, up to the third number.
pub open spec fn stage_third() -> Term {
    parens(sum_of(stage_second(), num("1.421413741"@)))
}

pub proof fn lemma_stage_third()
    ensures
        stage_third().text() == "(((1.061405429 * t - 1.453152027) * t) + 1.421413741)"@,
        stage_third().level() == 3,
{
    lemma_stage_second();
    reveal_strlit("((1.061405429 * t - 1.453152027) * t)");
    reveal_strlit("(((1.061405429 * t - 1.453152027) * t) + 1.421413741)");
    reveal_strlit("(");
    reveal_strlit(")");
    reveal_strlit(" + ");
    reveal_strlit("1.421413741");
    reveal_with_fuel(Term::text, 4);
    assert(stage_third().text() =~= "(((1.061405429 * t - 1.453152027) * t) + 1.421413741)"@);
}

/// The same, up to the fourth number.
pub open spec fn stage_fourth() -> Term {
    parens(difference_of(product_of(stage_third(), var(Name::T)), num("0.284496736"@)))
}

pub proof fn lemma_stage_fourth()
    ensures
        stage_fourth().text() == "((((1.061405429 * t - 1.453152027) * t) + 1.421413741) * t - 0.284496736)"@,
        stage_fourth().level() == 3,
{
    lemma_stage_third();
    reveal_strlit("(((1.061405429 * t - 1.453152027) * t) + 1.421413741)");
    reveal_strlit("((((1.061405429 * t - 1.453152027) * t) + 1.421413741) * t - 0.284496736)");
    reveal_strlit("(");
    reveal_strlit(")");
    reveal_strlit(" * ");
    reveal_strlit("t");
    reveal_strlit(" - ");
    reveal_strlit("0.284496736");
    reveal_with_fuel(Term::text, 4);
    assert(stage_fourth().text() =~= "((((1.061405429 * t - 1.453152027) * t) + 1.421413741) * t - 0.284496736)"@);
}

/// The whole polynomial.
pub open spec fn stage_fifth() -> Term {
    parens(sum_of(product_of(stage_fourth(), var(Name::T)), num("0.254829592"@)))
}

pub proof fn lemma_stage_fifth()
    ensures
        stage_fifth().text() == "(((((1.061405429 * t - 1.453152027) * t) + 1.421413741) * t - 0.284496736) * t + 0.254829592)"@,
        stage_fifth().level() == 3,
{
    lemma_stage_fourth();
    reveal_strlit("((((1.061405429 * t - 1.453152027) * t) + 1.421413741) * t - 0.284496736)");
    reveal_strlit("(((((1.061405429 * t - 1.453152027) * t) + 1.421413741) * t - 0.284496736) * t + 0.254829592)");
    reveal_strlit("(");
    reveal_strlit(")");
    reveal_strlit(" * ");
    reveal_strlit("t");
    reveal_strlit(" + ");
    reveal_strlit("0.254829592");
    reveal_with_fuel(Term::text, 4);
    assert(stage_fifth().text() =~= "(((((1.061405429 * t - 1.453152027) * t) + 1.421413741) * t - 0.284496736) * t + 0.254829592)"@);
}

/// What the polynomial is taken of.
pub open spec fn erf_t_term(s: Term) -> Term {
    quotient_of(
        num("1.0"@),
        parens(sum_of(num("1.0"@), product_of(num("0.3275911"@), call(Builtin::Abs, s)))),
    )
}

/// The error function of the size of `s`.
pub open spec fn erf_y_term(s: Term) -> Term {
    difference_of(
        num("1.0"@),
        product_of(
            product_of(stage_fifth(), var(Name::T)),
            call(Builtin::Exp, product_of(negative(s), s)),
        ),
    )
}

pub proof fn lemma_erf_terms_x()
    ensures
        erf_t_term(var(Name::X)).text() == "1.0 / (1.0 + 0.3275911 * abs(x))"@,
        erf_y_term(var(Name::X)).text() == "1.0 - (((((1.061405429 * t - 1.453152027) * t) + 1.421413741) * t - 0.284496736) * t + 0.254829592) * t * exp(-x * x)"@,
{
    lemma_stage_fifth();
    reveal_strlit("(((((1.061405429 * t - 1.453152027) * t) + 1.421413741) * t - 0.284496736) * t + 0.254829592)");
    reveal_strlit("1.0 / (1.0 + 0.3275911 * abs(x))");
    reveal_strlit("1.0 - (((((1.061405429 * t - 1.453152027) * t) + 1.421413741) * t - 0.284496736) * t + 0.254829592) * t * exp(-x * x)");
    reveal_strlit("1.0");
    reveal_strlit(" / ");
    reveal_strlit("(");
    reveal_strlit(" + ");
    reveal_strlit("0.3275911");
    reveal_strlit(" * ");
    reveal_strlit("abs(");
    reveal_strlit(")");
    reveal_strlit(" - ");
    reveal_strlit("t");
    reveal_strlit("exp(");
    reveal_strlit("-");
    reveal_strlit("x");
    reveal_with_fuel(Term::text, 6);
    assert(erf_t_term(var(Name::X)).text() =~= "1.0 / (1.0 + 0.3275911 * abs(x))"@);
    let e = call(Builtin::Exp, product_of(negative(var(Name::X)), var(Name::X)));
    assert(e.text() =~= "exp("@ + "-"@ + "x"@ + " * "@ + "x"@ + ")"@);
    let q = product_of(stage_fifth(), var(Name::T));
    assert(q.text() == stage_fifth().text() + " * "@ + "t"@);
    assert(erf_y_term(var(Name::X)).text() == "1.0"@ + " - "@ + (q.text() + " * "@ + e.text()));
    assert(erf_y_term(var(Name::X)).text() =~= "1.0 - (((((1.061405429 * t - 1.453152027) * t) + 1.421413741) * t - 0.284496736) * t + 0.254829592) * t * exp(-x * x)"@);
}

pub proof fn lemma_erf_terms_s()
    ensures
        erf_t_term(var(Name::S)).text() == "1.0 / (1.0 + 0.3275911 * abs(s))"@,
        erf_y_term(var(Name::S)).text() == "1.0 - (((((1.061405429 * t - 1.453152027) * t) + 1.421413741) * t - 0.284496736) * t + 0.254829592) * t * exp(-s * s)"@,
{
    lemma_stage_fifth();
    reveal_strlit("(((((1.061405429 * t - 1.453152027) * t) + 1.421413741) * t - 0.284496736) * t + 0.254829592)");
    reveal_strlit("1.0 / (1.0 + 0.3275911 * abs(s))");
    reveal_strlit("1.0 - (((((1.061405429 * t - 1.453152027) * t) + 1.421413741) * t - 0.284496736) * t + 0.254829592) * t * exp(-s * s)");
    reveal_strlit("1.0");
    reveal_strlit(" / ");
    reveal_strlit("(");
    reveal_strlit(" + ");
    reveal_strlit("0.3275911");
    reveal_strlit(" * ");
    reveal_strlit("abs(");
    reveal_strlit(")");
    reveal_strlit(" - ");
    reveal_strlit("t");
    reveal_strlit("exp(");
    reveal_strlit("-");
    reveal_strlit("s");
    reveal_with_fuel(Term::text, 6);
    assert(erf_t_term(var(Name::S)).text() =~= "1.0 / (1.0 + 0.3275911 * abs(s))"@);
    let e = call(Builtin::Exp, product_of(negative(var(Name::S)), var(Name::S)));
    assert(e.text() =~= "exp("@ + "-"@ + "s"@ + " * "@ + "s"@ + ")"@);
    let q = product_of(stage_fifth(), var(Name::T));
    assert(q.text() == stage_fifth().text() + " * "@ + "t"@);
    assert(erf_y_term(var(Name::S)).text() == "1.0"@ + " - "@ + (q.text() + " * "@ + e.text()));
    assert(erf_y_term(var(Name::S)).text() =~= "1.0 - (((((1.061405429 * t - 1.453152027) * t) + 1.421413741) * t - 0.284496736) * t + 0.254829592) * t * exp(-s * s)"@);
}

/// The code of `erf`.
pub open spec fn erf_code() -> Code {
    given_name(
        Name::T,
        erf_t_term(var(Name::X)),
        given_name(
            Name::Y,
            erf_y_term(var(Name::X)),
            Code::Return(
                select(negative(var(Name::Y)), var(Name::Y), var(Name::X), num("0.0"@)),
            ),
        ),
    )
}

/// The code of `gelu_erf`.
pub open spec fn gelu_erf_code() -> Code {
    given_name(
        Name::S,
        product_of(var(Name::X), num("0.7071067811865475"@)),
        given_name(
            Name::T,
            erf_t_term(var(Name::S)),
            given_name(
                Name::Y,
                erf_y_term(var(Name::S)),
                given_name(
                    Name::ErfS,
                    select(negative(var(Name::Y)), var(Name::Y), var(Name::S), num("0.0"@)),
                    Code::Return(
                        product_of(
                            product_of(num("0.5"@), var(Name::X)),
                            parens(sum_of(num("1.0"@), var(Name::ErfS))),
                        ),
                    ),
                ),
            ),
        ),
    )
}

pub proof fn lemma_erf_text()
    ensures
        erf_code().text() == UnaryOp::Erf.spec_body(),
{
    lemma_erf_terms_x();
    reveal_strlit("let t: f32 = 1.0 / (1.0 + 0.3275911 * abs(x)); let y: f32 = 1.0 - (((((1.061405429 * t - 1.453152027) * t) + 1.421413741) * t - 0.284496736) * t + 0.254829592) * t * exp(-x * x); return select(-y, y, x >= 0.0);");
    reveal_strlit("1.0 / (1.0 + 0.3275911 * abs(x))");
    reveal_strlit("1.0 - (((((1.061405429 * t - 1.453152027) * t) + 1.421413741) * t - 0.284496736) * t + 0.254829592) * t * exp(-x * x)");
    reveal_strlit("select(-y, y, x >= 0.0)");
    reveal_strlit("let ");
    reveal_strlit(": f32 = ");
    reveal_strlit("; ");
    reveal_strlit("return ");
    reveal_strlit(";");
    reveal_strlit("t");
    reveal_strlit("y");
    reveal_strlit("x");
    reveal_strlit("select(");
    reveal_strlit("-");
    reveal_strlit(", ");
    reveal_strlit(" >= ");
    reveal_strlit("0.0");
    reveal_strlit(")");
    let sel = select(negative(var(Name::Y)), var(Name::Y), var(Name::X), num("0.0"@));
    assert(sel.text() =~= "select(-y, y, x >= 0.0)"@) by {
        reveal_with_fuel(Term::text, 3);
    }
    let c2 = Code::Return(sel);
    let c1 = given_name(Name::Y, erf_y_term(var(Name::X)), c2);
    assert(c2.text() == "return "@ + sel.text() + ";"@);
    assert(c1.text() == "let "@ + "y"@ + ": f32 = "@ + erf_y_term(var(Name::X)).text() + "; "@
        + c2.text());
    assert(erf_code().text() == "let "@ + "t"@ + ": f32 = "@ + erf_t_term(var(Name::X)).text()
        + "; "@ + c1.text());
    assert(erf_code().text() =~= UnaryOp::Erf.spec_body());
}

pub proof fn lemma_gelu_erf_text()
    ensures
        gelu_erf_code().text() == UnaryOp::GeluErf.spec_body(),
{
    lemma_erf_terms_s();
    reveal_strlit("let s: f32 = x * 0.7071067811865475; let t: f32 = 1.0 / (1.0 + 0.3275911 * abs(s)); let y: f32 = 1.0 - (((((1.061405429 * t - 1.453152027) * t) + 1.421413741) * t - 0.284496736) * t + 0.254829592) * t * exp(-s * s); let erf_s: f32 = select(-y, y, s >= 0.0); return 0.5 * x * (1.0 + erf_s);");
    reveal_strlit("1.0 / (1.0 + 0.3275911 * abs(s))");
    reveal_strlit("1.0 - (((((1.061405429 * t - 1.453152027) * t) + 1.421413741) * t - 0.284496736) * t + 0.254829592) * t * exp(-s * s)");
    reveal_strlit("select(-y, y, s >= 0.0)");
    reveal_strlit("let ");
    reveal_strlit(": f32 = ");
    reveal_strlit("; ");
    reveal_strlit("return ");
    reveal_strlit(";");
    reveal_strlit("t");
    reveal_strlit("y");
    reveal_strlit("s");
    reveal_strlit("select(");
    reveal_strlit("-");
    reveal_strlit(", ");
    reveal_strlit(" >= ");
    reveal_strlit("0.0");
    reveal_strlit(")");
    reveal_strlit("x");
    reveal_strlit(" * ");
    reveal_strlit("0.7071067811865475");
    reveal_strlit("erf_s");
    reveal_strlit("0.5");
    reveal_strlit("(");
    reveal_strlit("1.0");
    reveal_strlit(" + ");
    let sel = select(negative(var(Name::Y)), var(Name::Y), var(Name::S), num("0.0"@));
    assert(sel.text() =~= "select(-y, y, s >= 0.0)"@) by {
        reveal_with_fuel(Term::text, 3);
    }
    let first = product_of(var(Name::X), num("0.7071067811865475"@));
    let last = product_of(
        product_of(num("0.5"@), var(Name::X)),
        parens(sum_of(num("1.0"@), var(Name::ErfS))),
    );
    assert(first.text() =~= "x"@ + " * "@ + "0.7071067811865475"@) by {
        reveal_with_fuel(Term::text, 3);
    }
    assert(last.text() =~= "0.5"@ + " * "@ + "x"@ + " * "@ + "("@ + "1.0"@ + " + "@ + "erf_s"@
        + ")"@) by {
        reveal_with_fuel(Term::text, 5);
    }
    let c4 = Code::Return(last);
    let c3 = given_name(Name::ErfS, sel, c4);
    let c2 = given_name(Name::Y, erf_y_term(var(Name::S)), c3);
    let c1 = given_name(Name::T, erf_t_term(var(Name::S)), c2);
    assert(c4.text() == "return "@ + last.text() + ";"@);
    assert(c3.text() == "let "@ + "erf_s"@ + ": f32 = "@ + sel.text() + "; "@ + c4.text());
    assert(c2.text() == "let "@ + "y"@ + ": f32 = "@ + erf_y_term(var(Name::S)).text() + "; "@
        + c3.text());
    assert(c1.text() == "let "@ + "t"@ + ": f32 = "@ + erf_t_term(var(Name::S)).text() + "; "@
        + c2.text());
    assert(gelu_erf_code().text() == "let "@ + "s"@ + ": f32 = "@ + first.text() + "; "@
        + c1.text());
    assert(gelu_erf_code().text() =~= UnaryOp::GeluErf.spec_body());
}

} // verus!
