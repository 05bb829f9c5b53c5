//! Element-wise operations on two tensors.
//!
//! Both operands come with layouts of the output's shape. An axis that an
//! operand is broadcast along has stride zero there, so that several output
//! elements read one source element; the kernel needs nothing else to
//! broadcast.

use crate::dtype::DType;
use crate::error::{Error, Op, Quantity};
use crate::layout::{product, Layout, LayoutView};
use crate::ops::dispatch::{
    find_wide_pair, first_wide_pair, is_wide, lemma_axes_fit, linear_dispatch, linear_groups,
    out_storage, output_storage, padded4, push_padded, Dispatch, DispatchView, Kernel, KernelView,
    Lift, MAX_RANK, Substitution, Template,
};
use crate::ops::scalar::{lift_of, same_dims, scalar_for, widened, ScalarDType};
use crate::storage::{StorageView, WgpuStorage};
use crate::text::str_eq;
use vstd::prelude::*;
use vstd::string::*;

verus! {

/// The operations that have a kernel.
#[derive(Clone, Copy, Debug, PartialEq, Eq, Structural)]
pub enum BinaryOp {
    Add,
    Sub,
    Mul,
    Div,
    Minimum,
    Maximum,
}

impl BinaryOp {
    /// Name of the operation.
    pub open spec fn spec_name(self) -> Seq<char> {
        match self {
            BinaryOp::Add => "add"@,
            BinaryOp::Sub => "sub"@,
            BinaryOp::Mul => "mul"@,
            BinaryOp::Div => "div"@,
            BinaryOp::Minimum => "minimum"@,
            BinaryOp::Maximum => "maximum"@,
        }
    }

    /// Shader code that computes the operation of `x` and `y`.
    pub open spec fn spec_body(self) -> Seq<char> {
        match self {
            BinaryOp::Add => "return x + y;"@,
            BinaryOp::Sub => "return x - y;"@,
            BinaryOp::Mul => "return x * y;"@,
            BinaryOp::Div => "return x / y;"@,
            BinaryOp::Minimum => "return min(x, y);"@,
            BinaryOp::Maximum => "return max(x, y);"@,
        }
    }

    /// Key of the operation's pipeline.
    pub open spec fn spec_key(self, dtype: ScalarDType) -> Seq<char> {
        "binary:"@ + self.spec_name() + ":"@ + dtype.spec_wgsl_name()
    }

    /// Name of the operation.
    pub fn name(self) -> (r: &'static str)
        ensures
            r@ == self.spec_name(),
    {
        match self {
            BinaryOp::Add => "add",
            BinaryOp::Sub => "sub",
            BinaryOp::Mul => "mul",
            BinaryOp::Div => "div",
            BinaryOp::Minimum => "minimum",
            BinaryOp::Maximum => "maximum",
        }
    }

    /// Shader code that computes the operation of `x` and `y`. What `min`
    /// and `max` give for a NaN is the shader's choice.
    pub fn body(self) -> (r: &'static str)
        ensures
            r@ == self.spec_body(),
    {
        match self {
            BinaryOp::Add => "return x + y;",
            BinaryOp::Sub => "return x - y;",
            BinaryOp::Mul => "return x * y;",
            BinaryOp::Div => "return x / y;",
            BinaryOp::Minimum => "return min(x, y);",
            BinaryOp::Maximum => "return max(x, y);",
        }
    }

    /// Key of the operation's pipeline.
    pub fn key(self, dtype: ScalarDType) -> (r: String)
        ensures
            r@ == self.spec_key(dtype),
    {
        let mut r: String = "binary:".to_owned();
        r.append(self.name());
        r.append(":");
        r.append(dtype.wgsl_name());
        r
    }

    /// The operation of the given name.
    pub fn from_name(name: &str) -> (r: Option<BinaryOp>)
        ensures
            match r {
                Some(op) => op.spec_name() == name@,
                None => forall|op: BinaryOp| (#[trigger] op.spec_name()) != name@,
            },
    {
        if str_eq(name, "add") {
            Some(BinaryOp::Add)
        } else if str_eq(name, "sub") {
            Some(BinaryOp::Sub)
        } else if str_eq(name, "mul") {
            Some(BinaryOp::Mul)
        } else if str_eq(name, "div") {
            Some(BinaryOp::Div)
        } else if str_eq(name, "minimum") {
            Some(BinaryOp::Minimum)
        } else if str_eq(name, "maximum") {
            Some(BinaryOp::Maximum)
        } else {
            None
        }
    }
}

/// No two operations share a name.
pub proof fn law_names_differ(a: BinaryOp, b: BinaryOp)
    requires
        a.spec_name() == b.spec_name(),
    ensures
        a == b,
{
    reveal_strlit("add");
    reveal_strlit("sub");
    reveal_strlit("mul");
    reveal_strlit("div");
    reveal_strlit("minimum");
    reveal_strlit("maximum");
    let (x, y) = (a.spec_name(), b.spec_name());
    assert(x.len() == y.len());
    assert(x[0] == y[0] && x[1] == y[1]);
}

/// No two pipelines share a key.
pub proof fn law_keys_differ(a: BinaryOp, d: ScalarDType, b: BinaryOp, e: ScalarDType)
    requires
        a.spec_key(d) == b.spec_key(e),
    ensures
        a == b,
        d == e,
{
    reveal_strlit("binary:");
    reveal_strlit(":");
    reveal_strlit("f32");
    reveal_strlit("f16");
    let (x, y) = (a.spec_key(d), b.spec_key(e));
    let n = x.len() as int;
    assert(x.len() == 11 + a.spec_name().len());
    assert(y.len() == 11 + b.spec_name().len());
    assert(x[n - 2] == d.spec_wgsl_name()[1]);
    assert(y[n - 2] == e.spec_wgsl_name()[1]);
    assert(x.subrange(7, n - 4) =~= a.spec_name());
    assert(y.subrange(7, n - 4) =~= b.spec_name());
    law_names_differ(a, b);
}

/// Pipeline key and shader code of the operation of the given name.
pub fn op_for(name: &str, dtype: ScalarDType) -> (r: Option<(String, &'static str)>)
    ensures
        match r {
            Some((key, body)) => exists|op: BinaryOp|
                (#[trigger] op.spec_name()) == name@ && key@ == op.spec_key(dtype) && body@
                    == op.spec_body(),
            None => forall|op: BinaryOp| (#[trigger] op.spec_name()) != name@,
        },
{
    match BinaryOp::from_name(name) {
        Some(op) => Some((op.key(dtype), op.body())),
        None => None,
    }
}

/// The dispatch of `op` on two tensors of one shape.
pub open spec fn binary_dispatch(
    lhs: StorageView,
    a: LayoutView,
    b: LayoutView,
    op: BinaryOp,
) -> DispatchView {
    let n = product(a.dims);
    let av = widened(lhs.dtype, a);
    let bv = widened(lhs.dtype, b);
    DispatchView {
        kernel: KernelView {
            key: op.spec_key(ScalarDType::F32),
            template: Template::ElementwiseBinary,
            substitutions: seq![("__SCALAR_T__"@, "f32"@), ("__OP_BODY__"@, op.spec_body())],
            meta: seq![
                n as u32,
                a.dims.len() as u32,
                av.start_offset as u32,
                bv.start_offset as u32,
            ] + padded4(a.dims, 1) + padded4(av.stride, 0) + padded4(bv.stride, 0),
            groups: linear_groups(n),
        },
        lifts: seq![lift_of(lhs.dtype), lift_of(lhs.dtype)],
        output: out_storage("wgpu-binary-out"@, n, DType::F32, lhs.device),
        result_dtype: lhs.dtype,
    }
}

/// Why an operation cannot be dispatched on tensors of these dtypes and
/// layouts, if it cannot; the first of several reasons counts.
pub open spec fn binary_refusal(
    lhs: DType,
    rhs: DType,
    a: LayoutView,
    b: LayoutView,
    known: bool,
) -> Option<Error> {
    let av = widened(lhs, a);
    let bv = widened(lhs, b);
    let op = Op::Binary;
    if lhs != rhs {
        Some(Error::DTypeMismatch { op, lhs, rhs })
    } else if lhs is F16 {
        Some(Error::F16Unsupported { op })
    } else if !(lhs is F32 || lhs is BF16) {
        Some(Error::UnsupportedDType { op, dtype: lhs })
    } else if a.dims != b.dims {
        Some(Error::ShapeMismatch { op })
    } else if a.dims.len() > MAX_RANK {
        Some(Error::RankTooLarge { op, rank: a.dims.len() as usize })
    } else if !known {
        Some(Error::UnknownOperator { op })
    } else if product(a.dims) == 0 {
        Some(Error::Empty { op })
    } else if product(a.dims) > u32::MAX {
        Some(
            Error::ExceedsU32 {
                op,
                what: Quantity::ElementCount,
                value: product(a.dims) as usize,
            },
        )
    } else if first_wide_pair(av.stride, bv.stride, 0) is Some {
        let (i, second) = first_wide_pair(av.stride, bv.stride, 0)->0;
        let axis = i as usize;
        Some(
            if second {
                Error::ExceedsU32 {
                    op,
                    what: Quantity::RhsStride { axis },
                    value: bv.stride[axis as int],
                }
            } else {
                Error::ExceedsU32 {
                    op,
                    what: Quantity::LhsStride { axis },
                    value: av.stride[axis as int],
                }
            },
        )
    } else if av.start_offset > u32::MAX {
        Some(Error::ExceedsU32 { op, what: Quantity::LhsOffset, value: av.start_offset })
    } else if bv.start_offset > u32::MAX {
        Some(Error::ExceedsU32 { op, what: Quantity::RhsOffset, value: bv.start_offset })
    } else {
        None
    }
}

/// The dispatch of the operation named `name` on the tensors that the
/// layouts describe in `lhs` and `rhs`. bf16 tensors are widened, and the
/// result narrowed.
pub fn binary(
    lhs: &WgpuStorage,
    rhs: &WgpuStorage,
    lhs_layout: &Layout,
    rhs_layout: &Layout,
    name: &str,
) -> (r: Result<Dispatch, Error>)
    requires
        lhs_layout@.wf(),
        rhs_layout@.wf(),
    ensures
        match r {
            Ok(d) => {
                &&& binary_refusal(lhs.dtype, rhs.dtype, lhs_layout@, rhs_layout@, true) is None
                &&& exists|op: BinaryOp|
                    (#[trigger] op.spec_name()) == name@ && d@ == binary_dispatch(
                        lhs@,
                        lhs_layout@,
                        rhs_layout@,
                        op,
                    )
            },
            Err(e) => binary_refusal(
                lhs.dtype,
                rhs.dtype,
                lhs_layout@,
                rhs_layout@,
                exists|op: BinaryOp| (#[trigger] op.spec_name()) == name@,
            ) == Some(e),
        },
{
    let ghost known = exists|op: BinaryOp| (#[trigger] op.spec_name()) == name@;
    let op: Op = Op::Binary;
    if lhs.dtype != rhs.dtype {
        return Err(Error::DTypeMismatch { op, lhs: lhs.dtype, rhs: rhs.dtype });
    }
    match lhs.dtype {
        DType::F32 | DType::BF16 => {},
        DType::F16 => {
            return Err(Error::F16Unsupported { op });
        },
        other => {
            return Err(Error::UnsupportedDType { op, dtype: other });
        },
    }
    if !same_dims(&lhs_layout.dims, &rhs_layout.dims) {
        return Err(Error::ShapeMismatch { op });
    }
    let rank: usize = lhs_layout.dims.len();
    if rank > MAX_RANK {
        return Err(Error::RankTooLarge { op, rank });
    }
    let binary_op: BinaryOp = match BinaryOp::from_name(name) {
        Some(o) => o,
        None => {
            return Err(Error::UnknownOperator { op });
        },
    };
    proof {
        assert(binary_op.spec_name() == name@);
        assert(known);
    }
    let n: usize = lhs_layout.elem_count();
    if n == 0 {
        return Err(Error::Empty { op });
    }
    if is_wide(n) {
        return Err(Error::ExceedsU32 { op, what: Quantity::ElementCount, value: n });
    }
    proof {
        lemma_axes_fit(lhs_layout@.dims);
    }
    let (a, a_lift): (Layout, Lift) = scalar_for(lhs.dtype, lhs_layout);
    let (b, b_lift): (Layout, Lift) = scalar_for(lhs.dtype, rhs_layout);
    if let Some((axis, second)) = find_wide_pair(a.stride.as_slice(), b.stride.as_slice()) {
        if second {
            return Err(
                Error::ExceedsU32 { op, what: Quantity::RhsStride { axis }, value: b.stride[axis] },
            );
        }
        return Err(
            Error::ExceedsU32 { op, what: Quantity::LhsStride { axis }, value: a.stride[axis] },
        );
    }
    if is_wide(a.start_offset) {
        return Err(Error::ExceedsU32 { op, what: Quantity::LhsOffset, value: a.start_offset });
    }
    if is_wide(b.start_offset) {
        return Err(Error::ExceedsU32 { op, what: Quantity::RhsOffset, value: b.start_offset });
    }
    let mut meta: Vec<u32> = Vec::new();
    meta.push(n as u32);
    meta.push(rank as u32);
    meta.push(a.start_offset as u32);
    meta.push(b.start_offset as u32);
    push_padded(&mut meta, lhs_layout.dims.as_slice(), 1);
    push_padded(&mut meta, a.stride.as_slice(), 0);
    push_padded(&mut meta, b.stride.as_slice(), 0);
    let mut substitutions: Vec<Substitution> = Vec::new();
    substitutions.push(Substitution { marker: "__SCALAR_T__", text: "f32" });
    substitutions.push(Substitution { marker: "__OP_BODY__", text: binary_op.body() });
    let mut lifts: Vec<Lift> = Vec::new();
    lifts.push(a_lift);
    lifts.push(b_lift);
    let d = Dispatch {
        kernel: Kernel {
            key: binary_op.key(ScalarDType::F32),
            template: Template::ElementwiseBinary,
            substitutions,
            meta,
            groups: linear_dispatch(n as u32),
        },
        lifts,
        output: output_storage("wgpu-binary-out", n, DType::F32, lhs.device),
        result_dtype: lhs.dtype,
    };
    proof {
        let want = binary_dispatch(lhs@, lhs_layout@, rhs_layout@, binary_op);
        assert(d@.kernel.meta =~= want.kernel.meta);
        assert(d@ =~= want);
    }
    Ok(d)
}

} // verus!
