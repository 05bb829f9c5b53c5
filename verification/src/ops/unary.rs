//! Element-wise operations on one tensor.
//!
//! The output is a new contiguous tensor of the input's shape. The kernel
//! follows the input's strides, so the input may be any view of up to four
//! axes.

use crate::dtype::DType;
use crate::error::{Error, Op, Quantity};
use crate::layout::{product, Layout, LayoutView};
use crate::ops::dispatch::{
    find_wide, first_wide, is_wide, lemma_axes_fit, linear_dispatch, linear_groups, out_storage,
    output_storage, padded4, push_padded, Dispatch, DispatchView, Kernel, KernelView, Lift,
    MAX_RANK, Substitution, Template,
};
use crate::ops::scalar::{lift_of, scalar_for, widened, ScalarDType};
use crate::storage::{StorageView, WgpuStorage};
use crate::text::str_eq;
use vstd::prelude::*;
use vstd::string::*;

verus! {

/// The operations that have a kernel.
#[derive(Clone, Copy, Debug, PartialEq, Eq, Structural)]
pub enum UnaryOp {
    Neg,
    Abs,
    Sqrt,
    Sqr,
    Exp,
    Log,
    Sin,
    Cos,
    Tanh,
    Recip,
    Floor,
    Ceil,
    Round,
    Sign,
    Relu,
    Gelu,
    GeluErf,
    Erf,
    Silu,
}

impl UnaryOp {
    /// Name of the operation.
    pub open spec fn spec_name(self) -> Seq<char> {
        match self {
            UnaryOp::Neg => "neg"@,
            UnaryOp::Abs => "abs"@,
            UnaryOp::Sqrt => "sqrt"@,
            UnaryOp::Sqr => "sqr"@,
            UnaryOp::Exp => "exp"@,
            UnaryOp::Log => "log"@,
            UnaryOp::Sin => "sin"@,
            UnaryOp::Cos => "cos"@,
            UnaryOp::Tanh => "tanh"@,
            UnaryOp::Recip => "recip"@,
            UnaryOp::Floor => "floor"@,
            UnaryOp::Ceil => "ceil"@,
            UnaryOp::Round => "round"@,
            UnaryOp::Sign => "sign"@,
            UnaryOp::Relu => "relu"@,
            UnaryOp::Gelu => "gelu"@,
            UnaryOp::GeluErf => "gelu_erf"@,
            UnaryOp::Erf => "erf"@,
            UnaryOp::Silu => "silu"@,
        }
    }

    /// Shader code that computes the operation of `x`.
    pub open spec fn spec_body(self) -> Seq<char> {
        match self {
            UnaryOp::Neg => "return -x;"@,
            UnaryOp::Abs => "return abs(x);"@,
            UnaryOp::Sqrt => "return sqrt(x);"@,
            UnaryOp::Sqr => "return x * x;"@,
            UnaryOp::Exp => "return exp(x);"@,
            UnaryOp::Log => "return log(x);"@,
            UnaryOp::Sin => "return sin(x);"@,
            UnaryOp::Cos => "return cos(x);"@,
            UnaryOp::Tanh => "return tanh(x);"@,
            UnaryOp::Recip => "return 1.0 / x;"@,
            UnaryOp::Floor => "return floor(x);"@,
            UnaryOp::Ceil => "return ceil(x);"@,
            UnaryOp::Round => "return round(x);"@,
            UnaryOp::Sign => "return sign(x);"@,
            UnaryOp::Relu => "return max(x, 0.0);"@,
            UnaryOp::Gelu => "let kappa: f32 = 0.7978845608028654; let cube: f32 = 0.044715 * x * x * x; return 0.5 * x * (1.0 + tanh(kappa * (x + cube)));"@,
            UnaryOp::GeluErf => "let s: f32 = x * 0.7071067811865475; let t: f32 = 1.0 / (1.0 + 0.3275911 * abs(s)); let y: f32 = 1.0 - (((((1.061405429 * t - 1.453152027) * t) + 1.421413741) * t - 0.284496736) * t + 0.254829592) * t * exp(-s * s); let erf_s: f32 = select(-y, y, s >= 0.0); return 0.5 * x * (1.0 + erf_s);"@,
            UnaryOp::Erf => "let t: f32 = 1.0 / (1.0 + 0.3275911 * abs(x)); let y: f32 = 1.0 - (((((1.061405429 * t - 1.453152027) * t) + 1.421413741) * t - 0.284496736) * t + 0.254829592) * t * exp(-x * x); return select(-y, y, x >= 0.0);"@,
            UnaryOp::Silu => "return x / (1.0 + exp(-x));"@,
        }
    }

    /// Key of the operation's pipeline.
    pub open spec fn spec_key(self, dtype: ScalarDType) -> Seq<char> {
        "unary:"@ + self.spec_name() + ":"@ + dtype.spec_wgsl_name()
    }

    /// Name of the operation.
    pub fn name(self) -> (r: &'static str)
        ensures
            r@ == self.spec_name(),
    {
        match self {
            UnaryOp::Neg => "neg",
            UnaryOp::Abs => "abs",
            UnaryOp::Sqrt => "sqrt",
            UnaryOp::Sqr => "sqr",
            UnaryOp::Exp => "exp",
            UnaryOp::Log => "log",
            UnaryOp::Sin => "sin",
            UnaryOp::Cos => "cos",
            UnaryOp::Tanh => "tanh",
            UnaryOp::Recip => "recip",
            UnaryOp::Floor => "floor",
            UnaryOp::Ceil => "ceil",
            UnaryOp::Round => "round",
            UnaryOp::Sign => "sign",
            UnaryOp::Relu => "relu",
            UnaryOp::Gelu => "gelu",
            UnaryOp::GeluErf => "gelu_erf",
            UnaryOp::Erf => "erf",
            UnaryOp::Silu => "silu",
        }
    }

    /// Shader code that computes the operation of `x`. Rounding is to even,
    /// and the error function is a rational approximation.
    pub fn body(self) -> (r: &'static str)
        ensures
            r@ == self.spec_body(),
    {
        match self {
            UnaryOp::Neg => "return -x;",
            UnaryOp::Abs => "return abs(x);",
            UnaryOp::Sqrt => "return sqrt(x);",
            UnaryOp::Sqr => "return x * x;",
            UnaryOp::Exp => "return exp(x);",
            UnaryOp::Log => "return log(x);",
            UnaryOp::Sin => "return sin(x);",
            UnaryOp::Cos => "return cos(x);",
            UnaryOp::Tanh => "return tanh(x);",
            UnaryOp::Recip => "return 1.0 / x;",
            UnaryOp::Floor => "return floor(x);",
            UnaryOp::Ceil => "return ceil(x);",
            UnaryOp::Round => "return round(x);",
            UnaryOp::Sign => "return sign(x);",
            UnaryOp::Relu => "return max(x, 0.0);",
            UnaryOp::Gelu => "let kappa: f32 = 0.7978845608028654; let cube: f32 = 0.044715 * x * x * x; return 0.5 * x * (1.0 + tanh(kappa * (x + cube)));",
            UnaryOp::GeluErf => "let s: f32 = x * 0.7071067811865475; let t: f32 = 1.0 / (1.0 + 0.3275911 * abs(s)); let y: f32 = 1.0 - (((((1.061405429 * t - 1.453152027) * t) + 1.421413741) * t - 0.284496736) * t + 0.254829592) * t * exp(-s * s); let erf_s: f32 = select(-y, y, s >= 0.0); return 0.5 * x * (1.0 + erf_s);",
            UnaryOp::Erf => "let t: f32 = 1.0 / (1.0 + 0.3275911 * abs(x)); let y: f32 = 1.0 - (((((1.061405429 * t - 1.453152027) * t) + 1.421413741) * t - 0.284496736) * t + 0.254829592) * t * exp(-x * x); return select(-y, y, x >= 0.0);",
            UnaryOp::Silu => "return x / (1.0 + exp(-x));",
        }
    }

    /// Key of the operation's pipeline.
    pub fn key(self, dtype: ScalarDType) -> (r: String)
        ensures
            r@ == self.spec_key(dtype),
    {
        let mut r: String = "unary:".to_owned();
        r.append(self.name());
        r.append(":");
        r.append(dtype.wgsl_name());
        r
    }

    /// The operation of the given name.
    pub fn from_name(name: &str) -> (r: Option<UnaryOp>)
        ensures
            match r {
                Some(op) => op.spec_name() == name@,
                None => forall|op: UnaryOp| (#[trigger] op.spec_name()) != name@,
            },
    {
        if str_eq(name, "neg") {
            Some(UnaryOp::Neg)
        } else if str_eq(name, "abs") {
            Some(UnaryOp::Abs)
        } else if str_eq(name, "sqrt") {
            Some(UnaryOp::Sqrt)
        } else if str_eq(name, "sqr") {
            Some(UnaryOp::Sqr)
        } else if str_eq(name, "exp") {
            Some(UnaryOp::Exp)
        } else if str_eq(name, "log") {
            Some(UnaryOp::Log)
        } else if str_eq(name, "sin") {
            Some(UnaryOp::Sin)
        } else if str_eq(name, "cos") {
            Some(UnaryOp::Cos)
        } else if str_eq(name, "tanh") {
            Some(UnaryOp::Tanh)
        } else if str_eq(name, "recip") {
            Some(UnaryOp::Recip)
        } else if str_eq(name, "floor") {
            Some(UnaryOp::Floor)
        } else if str_eq(name, "ceil") {
            Some(UnaryOp::Ceil)
        } else if str_eq(name, "round") {
            Some(UnaryOp::Round)
        } else if str_eq(name, "sign") {
            Some(UnaryOp::Sign)
        } else if str_eq(name, "relu") {
            Some(UnaryOp::Relu)
        } else if str_eq(name, "gelu") {
            Some(UnaryOp::Gelu)
        } else if str_eq(name, "gelu_erf") {
            Some(UnaryOp::GeluErf)
        } else if str_eq(name, "erf") {
            Some(UnaryOp::Erf)
        } else if str_eq(name, "silu") {
            Some(UnaryOp::Silu)
        } else {
            None
        }
    }
}

/// No two operations share a name.
pub proof fn law_names_differ(a: UnaryOp, b: UnaryOp)
    requires
        a.spec_name() == b.spec_name(),
    ensures
        a == b,
{
    reveal_strlit("neg");
    reveal_strlit("abs");
    reveal_strlit("sqrt");
    reveal_strlit("sqr");
    reveal_strlit("exp");
    reveal_strlit("log");
    reveal_strlit("sin");
    reveal_strlit("cos");
    reveal_strlit("tanh");
    reveal_strlit("recip");
    reveal_strlit("floor");
    reveal_strlit("ceil");
    reveal_strlit("round");
    reveal_strlit("sign");
    reveal_strlit("relu");
    reveal_strlit("gelu");
    reveal_strlit("gelu_erf");
    reveal_strlit("erf");
    reveal_strlit("silu");
    let (x, y) = (a.spec_name(), b.spec_name());
    assert(x.len() == y.len());
    assert(x[0] == y[0] && x[1] == y[1] && x[2] == y[2]);
    assert(x.len() > 3 ==> x[3] == y[3]);
}

/// No two pipelines share a key.
pub proof fn law_keys_differ(a: UnaryOp, d: ScalarDType, b: UnaryOp, e: ScalarDType)
    requires
        a.spec_key(d) == b.spec_key(e),
    ensures
        a == b,
        d == e,
{
    reveal_strlit("unary:");
    reveal_strlit(":");
    reveal_strlit("f32");
    reveal_strlit("f16");
    let (x, y) = (a.spec_key(d), b.spec_key(e));
    let n = x.len() as int;
    assert(x.len() == 10 + a.spec_name().len());
    assert(y.len() == 10 + b.spec_name().len());
    assert(x[n - 2] == d.spec_wgsl_name()[1]);
    assert(y[n - 2] == e.spec_wgsl_name()[1]);
    assert(x.subrange(6, n - 4) =~= a.spec_name());
    assert(y.subrange(6, n - 4) =~= b.spec_name());
    law_names_differ(a, b);
}

/// Pipeline key and shader code of the operation of the given name.
pub fn op_for(name: &str, dtype: ScalarDType) -> (r: Option<(String, &'static str)>)
    ensures
        match r {
            Some((key, body)) => exists|op: UnaryOp|
                (#[trigger] op.spec_name()) == name@ && key@ == op.spec_key(dtype) && body@
                    == op.spec_body(),
            None => forall|op: UnaryOp| (#[trigger] op.spec_name()) != name@,
        },
{
    match UnaryOp::from_name(name) {
        Some(op) => Some((op.key(dtype), op.body())),
        None => None,
    }
}

/// The dispatch of `op` on a tensor that the kernel reads by `l`.
pub open spec fn unary_dispatch(src: StorageView, l: LayoutView, op: UnaryOp) -> DispatchView {
    let n = product(l.dims);
    let view = widened(src.dtype, l);
    DispatchView {
        kernel: KernelView {
            key: op.spec_key(ScalarDType::F32),
            template: Template::ElementwiseUnary,
            substitutions: seq![("__SCALAR_T__"@, "f32"@), ("__OP_BODY__"@, op.spec_body())],
            meta: seq![n as u32, l.dims.len() as u32, view.start_offset as u32, 0u32] + padded4(
                l.dims,
                1,
            ) + padded4(view.stride, 0),
            groups: linear_groups(n),
        },
        lifts: seq![lift_of(src.dtype)],
        output: out_storage("wgpu-unary-out"@, n, DType::F32, src.device),
        result_dtype: src.dtype,
    }
}

/// Why `op` cannot be dispatched on a tensor of layout `l`, if it cannot;
/// the first of several reasons counts.
pub open spec fn unary_refusal(dtype: DType, l: LayoutView, known: bool) -> Option<Error> {
    let view = widened(dtype, l);
    let op = Op::Unary;
    if dtype is F16 {
        Some(Error::F16Unsupported { op })
    } else if !(dtype is F32 || dtype is BF16) {
        Some(Error::UnsupportedDType { op, dtype })
    } else if l.dims.len() > MAX_RANK {
        Some(Error::RankTooLarge { op, rank: l.dims.len() as usize })
    } else if !known {
        Some(Error::UnknownOperator { op })
    } else if product(l.dims) == 0 {
        Some(Error::Empty { op })
    } else if product(l.dims) > u32::MAX {
        Some(
            Error::ExceedsU32 {
                op,
                what: Quantity::ElementCount,
                value: product(l.dims) as usize,
            },
        )
    } else if first_wide(view.stride, 0) is Some {
        let axis = first_wide(view.stride, 0)->0 as usize;
        Some(
            Error::ExceedsU32 {
                op,
                what: Quantity::Stride { axis },
                value: view.stride[axis as int],
            },
        )
    } else if view.start_offset > u32::MAX {
        Some(
            Error::ExceedsU32 { op, what: Quantity::StartOffset, value: view.start_offset },
        )
    } else {
        None
    }
}

/// The dispatch of the operation named `name` on the tensor that `layout`
/// describes in `src`. A bf16 tensor is widened, and the result narrowed.
pub fn unary(src: &WgpuStorage, layout: &Layout, name: &str) -> (r: Result<Dispatch, Error>)
    requires
        layout@.wf(),
    ensures
        match r {
            Ok(d) => {
                &&& unary_refusal(src.dtype, layout@, true) is None
                &&& exists|op: UnaryOp|
                    (#[trigger] op.spec_name()) == name@ && d@ == unary_dispatch(
                        src@,
                        layout@,
                        op,
                    )
            },
            Err(e) => unary_refusal(
                src.dtype,
                layout@,
                exists|op: UnaryOp| (#[trigger] op.spec_name()) == name@,
            ) == Some(e),
        },
{
    let ghost known = exists|op: UnaryOp| (#[trigger] op.spec_name()) == name@;
    let op: Op = Op::Unary;
    match src.dtype {
        DType::F32 | DType::BF16 => {},
        DType::F16 => {
            return Err(Error::F16Unsupported { op });
        },
        other => {
            return Err(Error::UnsupportedDType { op, dtype: other });
        },
    }
    let rank: usize = layout.dims.len();
    if rank > MAX_RANK {
        return Err(Error::RankTooLarge { op, rank });
    }
    let unary_op: UnaryOp = match UnaryOp::from_name(name) {
        Some(o) => o,
        None => {
            return Err(Error::UnknownOperator { op });
        },
    };
    proof {
        assert(unary_op.spec_name() == name@);
        assert(known);
    }
    let n: usize = layout.elem_count();
    if n == 0 {
        return Err(Error::Empty { op });
    }
    if is_wide(n) {
        return Err(Error::ExceedsU32 { op, what: Quantity::ElementCount, value: n });
    }
    proof {
        lemma_axes_fit(layout@.dims);
    }
    let (view, lift): (Layout, Lift) = scalar_for(src.dtype, layout);
    if let Some(axis) = find_wide(view.stride.as_slice()) {
        return Err(
            Error::ExceedsU32 { op, what: Quantity::Stride { axis }, value: view.stride[axis] },
        );
    }
    if is_wide(view.start_offset) {
        return Err(
            Error::ExceedsU32 { op, what: Quantity::StartOffset, value: view.start_offset },
        );
    }
    let mut meta: Vec<u32> = Vec::new();
    meta.push(n as u32);
    meta.push(rank as u32);
    meta.push(view.start_offset as u32);
    meta.push(0);
    push_padded(&mut meta, layout.dims.as_slice(), 1);
    push_padded(&mut meta, view.stride.as_slice(), 0);
    let mut substitutions: Vec<Substitution> = Vec::new();
    substitutions.push(Substitution { marker: "__SCALAR_T__", text: "f32" });
    substitutions.push(Substitution { marker: "__OP_BODY__", text: unary_op.body() });
    let mut lifts: Vec<Lift> = Vec::new();
    lifts.push(lift);
    let d = Dispatch {
        kernel: Kernel {
            key: unary_op.key(ScalarDType::F32),
            template: Template::ElementwiseUnary,
            substitutions,
            meta,
            groups: linear_dispatch(n as u32),
        },
        lifts,
        output: output_storage("wgpu-unary-out", n, DType::F32, src.device),
        result_dtype: src.dtype,
    };
    proof {
        assert(d@.kernel.meta =~= unary_dispatch(src@, layout@, unary_op).kernel.meta);
        assert(d@ =~= unary_dispatch(src@, layout@, unary_op));
    }
    Ok(d)
}

} // verus!
