//! The shader code of the element-wise operations, term by term.

use crate::ops::shader::{
    call, given_name, greatest, negative, num, parens, product_of, quotient_of, sum_of, var,
    Builtin, Code, Name, Term,
};
use crate::ops::unary::UnaryOp;
use vstd::prelude::*;
use vstd::string::*;

verus! {

/// What an operation whose code is one term returns.
pub open spec fn term_of(op: UnaryOp) -> Term {
    match op {
        UnaryOp::Neg => negative(var(Name::X)),
        UnaryOp::Abs => call(Builtin::Abs, var(Name::X)),
        UnaryOp::Sqrt => call(Builtin::Sqrt, var(Name::X)),
        UnaryOp::Sqr => product_of(var(Name::X), var(Name::X)),
        UnaryOp::Exp => call(Builtin::Exp, var(Name::X)),
        UnaryOp::Log => call(Builtin::Log, var(Name::X)),
        UnaryOp::Sin => call(Builtin::Sin, var(Name::X)),
        UnaryOp::Cos => call(Builtin::Cos, var(Name::X)),
        UnaryOp::Tanh => call(Builtin::Tanh, var(Name::X)),
        UnaryOp::Recip => quotient_of(num("1.0"@), var(Name::X)),
        UnaryOp::Floor => call(Builtin::Floor, var(Name::X)),
        UnaryOp::Ceil => call(Builtin::Ceil, var(Name::X)),
        UnaryOp::Round => call(Builtin::Round, var(Name::X)),
        UnaryOp::Sign => call(Builtin::Sign, var(Name::X)),
        UnaryOp::Relu => greatest(var(Name::X), num("0.0"@)),
        UnaryOp::Silu => quotient_of(
            var(Name::X),
            parens(sum_of(num("1.0"@), call(Builtin::Exp, negative(var(Name::X))))),
        ),
        _ => var(Name::X),
    }
}

pub proof fn lemma_neg_text()
    ensures
        Code::Return(term_of(UnaryOp::Neg)).text() == UnaryOp::Neg.spec_body(),
{
    reveal_strlit("return -x;");
    reveal_strlit("-");
    reveal_strlit(";");
    reveal_strlit("return ");
    reveal_strlit("x");
    reveal_with_fuel(Term::text, 3);
    assert(Code::Return(term_of(UnaryOp::Neg)).text() =~= UnaryOp::Neg.spec_body());
}

pub proof fn lemma_abs_text()
    ensures
        Code::Return(term_of(UnaryOp::Abs)).text() == UnaryOp::Abs.spec_body(),
{
    reveal_strlit("return abs(x);");
    reveal_strlit(")");
    reveal_strlit(";");
    reveal_strlit("abs(");
    reveal_strlit("return ");
    reveal_strlit("x");
    reveal_with_fuel(Term::text, 3);
    assert(Code::Return(term_of(UnaryOp::Abs)).text() =~= UnaryOp::Abs.spec_body());
}

pub proof fn lemma_sqrt_text()
    ensures
        Code::Return(term_of(UnaryOp::Sqrt)).text() == UnaryOp::Sqrt.spec_body(),
{
    reveal_strlit("return sqrt(x);");
    reveal_strlit(")");
    reveal_strlit(";");
    reveal_strlit("return ");
    reveal_strlit("sqrt(");
    reveal_strlit("x");
    reveal_with_fuel(Term::text, 3);
    assert(Code::Return(term_of(UnaryOp::Sqrt)).text() =~= UnaryOp::Sqrt.spec_body());
}

pub proof fn lemma_sqr_text()
    ensures
        Code::Return(term_of(UnaryOp::Sqr)).text() == UnaryOp::Sqr.spec_body(),
{
    reveal_strlit("return x * x;");
    reveal_strlit(" * ");
    reveal_strlit(";");
    reveal_strlit("return ");
    reveal_strlit("x");
    reveal_with_fuel(Term::text, 3);
    assert(Code::Return(term_of(UnaryOp::Sqr)).text() =~= UnaryOp::Sqr.spec_body());
}

pub proof fn lemma_exp_text()
    ensures
        Code::Return(term_of(UnaryOp::Exp)).text() == UnaryOp::Exp.spec_body(),
{
    reveal_strlit("return exp(x);");
    reveal_strlit(")");
    reveal_strlit(";");
    reveal_strlit("exp(");
    reveal_strlit("return ");
    reveal_strlit("x");
    reveal_with_fuel(Term::text, 3);
    assert(Code::Return(term_of(UnaryOp::Exp)).text() =~= UnaryOp::Exp.spec_body());
}

pub proof fn lemma_log_text()
    ensures
        Code::Return(term_of(UnaryOp::Log)).text() == UnaryOp::Log.spec_body(),
{
    reveal_strlit("return log(x);");
    reveal_strlit(")");
    reveal_strlit(";");
    reveal_strlit("log(");
    reveal_strlit("return ");
    reveal_strlit("x");
    reveal_with_fuel(Term::text, 3);
    assert(Code::Return(term_of(UnaryOp::Log)).text() =~= UnaryOp::Log.spec_body());
}

pub proof fn lemma_sin_text()
    ensures
        Code::Return(term_of(UnaryOp::Sin)).text() == UnaryOp::Sin.spec_body(),
{
    reveal_strlit("return sin(x);");
    reveal_strlit(")");
    reveal_strlit(";");
    reveal_strlit("return ");
    reveal_strlit("sin(");
    reveal_strlit("x");
    reveal_with_fuel(Term::text, 3);
    assert(Code::Return(term_of(UnaryOp::Sin)).text() =~= UnaryOp::Sin.spec_body());
}

pub proof fn lemma_cos_text()
    ensures
        Code::Return(term_of(UnaryOp::Cos)).text() == UnaryOp::Cos.spec_body(),
{
    reveal_strlit("return cos(x);");
    reveal_strlit(")");
    reveal_strlit(";");
    reveal_strlit("cos(");
    reveal_strlit("return ");
    reveal_strlit("x");
    reveal_with_fuel(Term::text, 3);
    assert(Code::Return(term_of(UnaryOp::Cos)).text() =~= UnaryOp::Cos.spec_body());
}

pub proof fn lemma_tanh_text()
    ensures
        Code::Return(term_of(UnaryOp::Tanh)).text() == UnaryOp::Tanh.spec_body(),
{
    reveal_strlit("return tanh(x);");
    reveal_strlit(")");
    reveal_strlit(";");
    reveal_strlit("return ");
    reveal_strlit("tanh(");
    reveal_strlit("x");
    reveal_with_fuel(Term::text, 3);
    assert(Code::Return(term_of(UnaryOp::Tanh)).text() =~= UnaryOp::Tanh.spec_body());
}

pub proof fn lemma_recip_text()
    ensures
        Code::Return(term_of(UnaryOp::Recip)).text() == UnaryOp::Recip.spec_body(),
{
    reveal_strlit("return 1.0 / x;");
    reveal_strlit(" / ");
    reveal_strlit("1.0");
    reveal_strlit(";");
    reveal_strlit("return ");
    reveal_strlit("x");
    reveal_with_fuel(Term::text, 3);
    assert(Code::Return(term_of(UnaryOp::Recip)).text() =~= UnaryOp::Recip.spec_body());
}

pub proof fn lemma_floor_text()
    ensures
        Code::Return(term_of(UnaryOp::Floor)).text() == UnaryOp::Floor.spec_body(),
{
    reveal_strlit("return floor(x);");
    reveal_strlit(")");
    reveal_strlit(";");
    reveal_strlit("floor(");
    reveal_strlit("return ");
    reveal_strlit("x");
    reveal_with_fuel(Term::text, 3);
    assert(Code::Return(term_of(UnaryOp::Floor)).text() =~= UnaryOp::Floor.spec_body());
}

pub proof fn lemma_ceil_text()
    ensures
        Code::Return(term_of(UnaryOp::Ceil)).text() == UnaryOp::Ceil.spec_body(),
{
    reveal_strlit("return ceil(x);");
    reveal_strlit(")");
    reveal_strlit(";");
    reveal_strlit("ceil(");
    reveal_strlit("return ");
    reveal_strlit("x");
    reveal_with_fuel(Term::text, 3);
    assert(Code::Return(term_of(UnaryOp::Ceil)).text() =~= UnaryOp::Ceil.spec_body());
}

pub proof fn lemma_round_text()
    ensures
        Code::Return(term_of(UnaryOp::Round)).text() == UnaryOp::Round.spec_body(),
{
    reveal_strlit("return round(x);");
    reveal_strlit(")");
    reveal_strlit(";");
    reveal_strlit("return ");
    reveal_strlit("round(");
    reveal_strlit("x");
    reveal_with_fuel(Term::text, 3);
    assert(Code::Return(term_of(UnaryOp::Round)).text() =~= UnaryOp::Round.spec_body());
}

pub proof fn lemma_sign_text()
    ensures
        Code::Return(term_of(UnaryOp::Sign)).text() == UnaryOp::Sign.spec_body(),
{
    reveal_strlit("return sign(x);");
    reveal_strlit(")");
    reveal_strlit(";");
    reveal_strlit("return ");
    reveal_strlit("sign(");
    reveal_strlit("x");
    reveal_with_fuel(Term::text, 3);
    assert(Code::Return(term_of(UnaryOp::Sign)).text() =~= UnaryOp::Sign.spec_body());
}

pub proof fn lemma_relu_text()
    ensures
        Code::Return(term_of(UnaryOp::Relu)).text() == UnaryOp::Relu.spec_body(),
{
    reveal_strlit("return max(x, 0.0);");
    reveal_strlit(")");
    reveal_strlit(", ");
    reveal_strlit("0.0");
    reveal_strlit(";");
    reveal_strlit("max(");
    reveal_strlit("return ");
    reveal_strlit("x");
    reveal_with_fuel(Term::text, 3);
    assert(Code::Return(term_of(UnaryOp::Relu)).text() =~= UnaryOp::Relu.spec_body());
}

pub proof fn lemma_silu_text()
    ensures
        Code::Return(term_of(UnaryOp::Silu)).text() == UnaryOp::Silu.spec_body(),
{
    reveal_strlit("return x / (1.0 + exp(-x));");
    reveal_strlit(" + ");
    reveal_strlit(" / ");
    reveal_strlit("(");
    reveal_strlit(")");
    reveal_strlit("-");
    reveal_strlit("1.0");
    reveal_strlit(";");
    reveal_strlit("exp(");
    reveal_strlit("return ");
    reveal_strlit("x");
    reveal_with_fuel(Term::text, 5);
    assert(Code::Return(term_of(UnaryOp::Silu)).text() =~= UnaryOp::Silu.spec_body());
}

/// The code of `gelu`.
pub open spec fn gelu_code() -> Code {
    given_name(
        Name::Kappa,
        num("0.7978845608028654"@),
        given_name(
            Name::Cube,
            product_of(
                product_of(product_of(num("0.044715"@), var(Name::X)), var(Name::X)),
                var(Name::X),
            ),
            Code::Return(
                product_of(
                    product_of(num("0.5"@), var(Name::X)),
                    parens(
                        sum_of(
                            num("1.0"@),
                            call(
                                Builtin::Tanh,
                                product_of(
                                    var(Name::Kappa),
                                    parens(sum_of(var(Name::X), var(Name::Cube))),
                                ),
                            ),
                        ),
                    ),
                ),
            ),
        ),
    )
}

pub proof fn lemma_gelu_text()
    ensures
        gelu_code().text() == UnaryOp::Gelu.spec_body(),
{
    reveal_strlit("let kappa: f32 = 0.7978845608028654; let cube: f32 = 0.044715 * x * x * x; return 0.5 * x * (1.0 + tanh(kappa * (x + cube)));");
    reveal_strlit(" * ");
    reveal_strlit(" + ");
    reveal_strlit("(");
    reveal_strlit(")");
    reveal_strlit("0.044715");
    reveal_strlit("0.5");
    reveal_strlit("0.7978845608028654");
    reveal_strlit("1.0");
    reveal_strlit(": f32 = ");
    reveal_strlit(";");
    reveal_strlit("; ");
    reveal_strlit("cube");
    reveal_strlit("kappa");
    reveal_strlit("let ");
    reveal_strlit("return ");
    reveal_strlit("tanh(");
    reveal_strlit("x");
    reveal_with_fuel(Code::text, 4);
    reveal_with_fuel(Term::text, 10);
    assert(gelu_code().text() =~= UnaryOp::Gelu.spec_body());
}

} // verus!
