//! Programs, built one typed operation at a time.

use crate::dtype::DType;
use crate::ops::scalar::copy_dims;
use crate::gemma4::config::F64Bits;
use crate::tensor::op::{
    bin, leaf, tri, un, BinOp, Expr, KvPart, Leaf, MapOp, RopeTable, Scalar, TOp,
};
use vstd::prelude::*;

verus! {

/// Dtype and shape of a tensor.
#[derive(Clone, Debug)]
pub struct TensorType {
    pub dtype: DType,
    pub dims: Vec<usize>,
}

/// What a [`TensorType`] stands for.
#[verifier::ext_equal]
pub struct TypeView {
    pub dtype: DType,
    pub dims: Seq<usize>,
}

/// One operation: what it does, to the results of which earlier ones, and the
/// type of its result.
#[derive(Clone, Debug)]
pub struct Step {
    pub op: TOp,
    pub args: Vec<usize>,
    pub ty: TensorType,
}

/// What a [`Step`] stands for.
#[verifier::ext_equal]
pub struct StepView {
    pub op: TOp,
    pub args: Seq<usize>,
    pub ty: TypeView,
}

impl View for TensorType {
    type V = TypeView;

    open spec fn view(&self) -> TypeView {
        TypeView { dtype: self.dtype, dims: self.dims@ }
    }
}

impl View for Step {
    type V = StepView;

    open spec fn view(&self) -> StepView {
        StepView { op: self.op, args: self.args@, ty: self.ty@ }
    }
}

/// A program. Its steps are known by their numbers.
#[derive(Clone, Debug)]
pub struct Program {
    steps: Vec<Step>,
}

impl View for Program {
    type V = Seq<StepView>;

    closed spec fn view(&self) -> Seq<StepView> {
        self.steps@.map_values(|s: Step| s@)
    }
}

/// Every step uses the results of earlier ones only.
pub open spec fn ordered(steps: Seq<StepView>) -> bool {
    forall|i: int, j: int|
        0 <= i < steps.len() && 0 <= j < (#[trigger] steps[i]).args.len() ==> (
        #[trigger] steps[i].args[j]) < i
}

/// The formula of step `id`.
pub open spec fn expr(steps: Seq<StepView>, id: nat) -> Expr
    decreases id, 1nat,
{
    Expr::Node(steps[id as int].op, operands(steps, id))
}

/// The formulas of the operands of step `id`.
pub open spec fn operands(steps: Seq<StepView>, id: nat) -> Seq<Expr>
    decreases id, 0nat,
{
    Seq::new(
        steps[id as int].args.len(),
        |i: int|
            if steps[id as int].args[i] < id {
                expr(steps, steps[id as int].args[i] as nat)
            } else {
                arbitrary()
            },
    )
}

/// The type of step `id`.
pub open spec fn ty(steps: Seq<StepView>, id: nat) -> TypeView {
    steps[id as int].ty
}

/// `new` is `old` with more steps behind it; formulas and types of the old
/// steps have not changed.
pub open spec fn extends(old: Seq<StepView>, new: Seq<StepView>) -> bool {
    &&& old.len() <= new.len()
    &&& forall|id: nat| id < old.len() ==> #[trigger] expr(new, id) == expr(old, id)
    &&& forall|id: nat| id < old.len() ==> #[trigger] ty(new, id) == ty(old, id)
}

/// Step `id` of `steps` has the given formula and type.
pub open spec fn is(steps: Seq<StepView>, id: usize, e: Expr, t: TypeView) -> bool {
    id < steps.len() && expr(steps, id as nat) == e && ty(steps, id as nat) == t
}

proof fn lemma_expr_prefix(old: Seq<StepView>, new: Seq<StepView>, id: nat)
    requires
        ordered(old),
        old.len() <= new.len(),
        forall|i: int| 0 <= i < old.len() ==> new[i] == old[i],
        id < old.len(),
    ensures
        expr(new, id) == expr(old, id),
    decreases id,
{
    let s = old[id as int];
    assert(new[id as int] == s);
    assert forall|i: int| 0 <= i < s.args.len() implies #[trigger] operands(new, id)[i] == operands(
        old,
        id,
    )[i] by {
        assert(s.args[i] < id);
        lemma_expr_prefix(old, new, s.args[i] as nat);
    }
    assert(operands(new, id) =~= operands(old, id));
}

impl Program {
    /// Every step uses the results of earlier ones only.
    pub open spec fn wf(&self) -> bool {
        ordered(self@)
    }

    /// The empty program.
    pub fn new() -> (r: Self)
        ensures
            r.wf(),
            r@.len() == 0,
    {
        Program { steps: Vec::new() }
    }

    /// Number of steps.
    pub fn len(&self) -> (r: usize)
        ensures
            r == self@.len(),
    {
        self.steps.len()
    }

    /// The step of the given number.
    pub fn step(&self, id: usize) -> (r: &Step)
        requires
            id < self@.len(),
        ensures
            r@ == self@[id as int],
    {
        &self.steps[id]
    }

    /// Adds a step.
    fn push(&mut self, op: TOp, args: Vec<usize>, dtype: DType, dims: Vec<usize>) -> (r: usize)
        requires
            old(self).wf(),
            forall|i: int| 0 <= i < args@.len() ==> (#[trigger] args@[i]) < old(self)@.len(),
        ensures
            final(self).wf(),
            extends(old(self)@, final(self)@),
            r == old(self)@.len(),
            is(
                final(self)@,
                r,
                Expr::Node(op, args@.map_values(|a: usize| expr(old(self)@, a as nat))),
                TypeView { dtype, dims: dims@ },
            ),
    {
        let id: usize = self.steps.len();
        let ghost before = self@;
        let ghost (a, d) = (args@, dims@);
        self.steps.push(Step { op, args, ty: TensorType { dtype, dims } });
        proof {
            let after = self@;
            let s = StepView { op, args: a, ty: TypeView { dtype, dims: d } };
            assert(after =~= before.push(s));
            assert forall|i: int| 0 <= i < before.len() implies after[i] == before[i] by {}
            assert forall|k: nat| k < before.len() implies #[trigger] expr(after, k) == expr(
                before,
                k,
            ) by {
                lemma_expr_prefix(before, after, k);
            }
            assert(after[id as int] == s);
            let want = a.map_values(|x: usize| expr(before, x as nat));
            assert forall|i: int| 0 <= i < a.len() implies #[trigger] operands(after, id as nat)[i]
                == want[i] by {
                assert(a[i] < before.len());
                assert(expr(after, a[i] as nat) == expr(before, a[i] as nat));
            }
            assert(operands(after, id as nat) =~= want);
        }
        id
    }
}

/// `b` can be broadcast to the shape `a`: aligned at the last axis, every axis
/// of `b` is that of `a` or has one entry.
pub open spec fn fits_into(b: Seq<usize>, a: Seq<usize>) -> bool {
    &&& b.len() <= a.len()
    &&& forall|j: int|
        0 <= j < b.len() ==> (#[trigger] b[j] == a[a.len() - b.len() + j] || b[j] == 1)
}

/// The type with another shape.
pub open spec fn with_dims(t: TypeView, dims: Seq<usize>) -> TypeView {
    TypeView { dtype: t.dtype, dims }
}

impl Program {
    /// The type of a step's result.
    fn type_of(&self, id: usize) -> (r: TensorType)
        requires
            id < self@.len(),
        ensures
            r@ == ty(self@, id as nat),
    {
        TensorType { dtype: self.steps[id].ty.dtype, dims: copy_dims(&self.steps[id].ty.dims) }
    }

    /// The dtype of a step's result.
    pub fn dtype_of(&self, id: usize) -> (r: DType)
        requires
            id < self@.len(),
        ensures
            r == ty(self@, id as nat).dtype,
    {
        self.steps[id].ty.dtype
    }

    /// A copy of a step's shape.
    pub fn dims_of(&self, id: usize) -> (r: Vec<usize>)
        requires
            id < self@.len(),
        ensures
            r@ == ty(self@, id as nat).dims,
    {
        copy_dims(&self.steps[id].ty.dims)
    }

    fn push_1(&mut self, op: TOp, x: usize, dtype: DType, dims: Vec<usize>) -> (r: usize)
        requires
            old(self).wf(),
            x < old(self)@.len(),
        ensures
            final(self).wf(),
            extends(old(self)@, final(self)@),
            r == old(self)@.len(),
            is(
                final(self)@,
                r,
                un(op, expr(old(self)@, x as nat)),
                TypeView { dtype, dims: dims@ },
            ),
    {
        let mut args: Vec<usize> = Vec::new();
        args.push(x);
        proof {
            assert(args@.map_values(|a: usize| expr(self@, a as nat)) =~= seq![
                expr(self@, x as nat),
            ]);
        }
        self.push(op, args, dtype, dims)
    }

    fn push_2(&mut self, op: TOp, x: usize, y: usize, dtype: DType, dims: Vec<usize>) -> (r: usize)
        requires
            old(self).wf(),
            x < old(self)@.len(),
            y < old(self)@.len(),
        ensures
            final(self).wf(),
            extends(old(self)@, final(self)@),
            r == old(self)@.len(),
            is(
                final(self)@,
                r,
                bin(op, expr(old(self)@, x as nat), expr(old(self)@, y as nat)),
                TypeView { dtype, dims: dims@ },
            ),
    {
        let mut args: Vec<usize> = Vec::new();
        args.push(x);
        args.push(y);
        proof {
            assert(args@.map_values(|a: usize| expr(self@, a as nat)) =~= seq![
                expr(self@, x as nat),
                expr(self@, y as nat),
            ]);
        }
        self.push(op, args, dtype, dims)
    }

    fn push_3(
        &mut self,
        op: TOp,
        x: usize,
        y: usize,
        z: usize,
        dtype: DType,
        dims: Vec<usize>,
    ) -> (r: usize)
        requires
            old(self).wf(),
            x < old(self)@.len(),
            y < old(self)@.len(),
            z < old(self)@.len(),
        ensures
            final(self).wf(),
            extends(old(self)@, final(self)@),
            r == old(self)@.len(),
            is(
                final(self)@,
                r,
                tri(
                    op,
                    expr(old(self)@, x as nat),
                    expr(old(self)@, y as nat),
                    expr(old(self)@, z as nat),
                ),
                TypeView { dtype, dims: dims@ },
            ),
    {
        let mut args: Vec<usize> = Vec::new();
        args.push(x);
        args.push(y);
        args.push(z);
        proof {
            assert(args@.map_values(|a: usize| expr(self@, a as nat)) =~= seq![
                expr(self@, x as nat),
                expr(self@, y as nat),
                expr(self@, z as nat),
            ]);
        }
        self.push(op, args, dtype, dims)
    }

    /// A tensor that the program is given.
    pub fn leaf(&mut self, l: Leaf, dtype: DType, dims: Vec<usize>) -> (r: usize)
        requires
            old(self).wf(),
        ensures
            final(self).wf(),
            extends(old(self)@, final(self)@),
            r == old(self)@.len(),
            is(final(self)@, r, leaf(l), TypeView { dtype, dims: dims@ }),
    {
        let args: Vec<usize> = Vec::new();
        proof {
            assert(args@.map_values(|a: usize| expr(self@, a as nat)) =~= Seq::<Expr>::empty());
        }
        self.push(TOp::Leaf(l), args, dtype, dims)
    }

    /// A vector that the program is given.
    pub fn leaf_1(&mut self, l: Leaf, dtype: DType, n: usize) -> (r: usize)
        requires
            old(self).wf(),
        ensures
            final(self).wf(),
            extends(old(self)@, final(self)@),
            r == old(self)@.len(),
            is(final(self)@, r, leaf(l), TypeView { dtype, dims: seq![n] }),
    {
        let mut dims: Vec<usize> = Vec::new();
        dims.push(n);
        proof {
            assert(dims@ =~= seq![n]);
        }
        self.leaf(l, dtype, dims)
    }

    /// A matrix that the program is given.
    pub fn leaf_2(&mut self, l: Leaf, dtype: DType, n: usize, m: usize) -> (r: usize)
        requires
            old(self).wf(),
        ensures
            final(self).wf(),
            extends(old(self)@, final(self)@),
            r == old(self)@.len(),
            is(final(self)@, r, leaf(l), TypeView { dtype, dims: seq![n, m] }),
    {
        let mut dims: Vec<usize> = Vec::new();
        dims.push(n);
        dims.push(m);
        proof {
            assert(dims@ =~= seq![n, m]);
        }
        self.leaf(l, dtype, dims)
    }

    /// An element-wise operation.
    pub fn each(&mut self, op: MapOp, x: usize) -> (r: usize)
        requires
            old(self).wf(),
            x < old(self)@.len(),
        ensures
            final(self).wf(),
            extends(old(self)@, final(self)@),
            r == old(self)@.len(),
            is(
                final(self)@,
                r,
                un(TOp::Each(op), expr(old(self)@, x as nat)),
                ty(old(self)@, x as nat),
            ),
    {
        let t: TensorType = self.type_of(x);
        let dims: Vec<usize> = copy_dims(&t.dims);
        self.push_1(TOp::Each(op), x, t.dtype, dims)
    }

    /// The elements in another dtype.
    pub fn cast(&mut self, x: usize, dtype: DType) -> (r: usize)
        requires
            old(self).wf(),
            x < old(self)@.len(),
        ensures
            final(self).wf(),
            extends(old(self)@, final(self)@),
            r == old(self)@.len(),
            is(
                final(self)@,
                r,
                un(TOp::Cast(dtype), expr(old(self)@, x as nat)),
                (TypeView { dtype, dims: ty(old(self)@, x as nat).dims }),
            ),
    {
        let t: TensorType = TensorType { dtype, dims: self.dims_of(x) };
        let dims: Vec<usize> = copy_dims(&t.dims);
        self.push_1(TOp::Cast(dtype), x, t.dtype, dims)
    }

    /// An element-wise operation on tensors of one type.
    pub fn zip(&mut self, op: BinOp, x: usize, y: usize) -> (r: usize)
        requires
            old(self).wf(),
            x < old(self)@.len(),
            y < old(self)@.len(),
            ty(old(self)@, x as nat) == ty(old(self)@, y as nat),
        ensures
            final(self).wf(),
            extends(old(self)@, final(self)@),
            r == old(self)@.len(),
            is(
                final(self)@,
                r,
                bin(TOp::Zip(op), expr(old(self)@, x as nat), expr(old(self)@, y as nat)),
                ty(old(self)@, x as nat),
            ),
    {
        let t: TensorType = self.type_of(x);
        let dims: Vec<usize> = copy_dims(&t.dims);
        self.push_2(TOp::Zip(op), x, y, t.dtype, dims)
    }

    /// An element-wise operation, the second tensor being broadcast to the first.
    pub fn zip_broadcast(&mut self, op: BinOp, x: usize, y: usize) -> (r: usize)
        requires
            old(self).wf(),
            x < old(self)@.len(),
            y < old(self)@.len(),
            ty(old(self)@, x as nat).dtype == ty(old(self)@, y as nat).dtype,
            fits_into(ty(old(self)@, y as nat).dims, ty(old(self)@, x as nat).dims),
        ensures
            final(self).wf(),
            extends(old(self)@, final(self)@),
            r == old(self)@.len(),
            is(
                final(self)@,
                r,
                bin(TOp::ZipBroadcast(op), expr(old(self)@, x as nat), expr(old(self)@, y as nat)),
                ty(old(self)@, x as nat),
            ),
    {
        let t: TensorType = self.type_of(x);
        let dims: Vec<usize> = copy_dims(&t.dims);
        self.push_2(TOp::ZipBroadcast(op), x, y, t.dtype, dims)
    }

    /// The product with the transpose of a weight.
    pub fn linear(&mut self, x: usize, w: usize) -> (r: usize)
        requires
            old(self).wf(),
            x < old(self)@.len(),
            w < old(self)@.len(),
            ty(old(self)@, x as nat).dims.len() > 0,
            ty(old(self)@, w as nat).dims.len() == 2,
            ty(old(self)@, w as nat).dims[1] == ty(old(self)@, x as nat).dims.last(),
        ensures
            final(self).wf(),
            extends(old(self)@, final(self)@),
            r == old(self)@.len(),
            is(
                final(self)@,
                r,
                bin(TOp::Linear, expr(old(self)@, x as nat), expr(old(self)@, w as nat)),
                with_dims(
                    ty(old(self)@, x as nat),
                    ty(old(self)@, x as nat).dims.update(
                        ty(old(self)@, x as nat).dims.len() - 1,
                        ty(old(self)@, w as nat).dims[0],
                    ),
                ),
            ),
    {
        let t: TensorType = self.type_of(x);
        let mut dims: Vec<usize> = copy_dims(&t.dims);
        let n: usize = dims.len();
        let out: usize = self.steps[w].ty.dims[0];
        dims.set(n - 1, out);
        self.push_2(TOp::Linear, x, w, t.dtype, dims)
    }

    /// The product with the transpose of a weight, and a bias added.
    pub fn linear_bias(&mut self, x: usize, w: usize, b: usize) -> (r: usize)
        requires
            old(self).wf(),
            x < old(self)@.len(),
            w < old(self)@.len(),
            b < old(self)@.len(),
            ty(old(self)@, x as nat).dims.len() > 0,
            ty(old(self)@, w as nat).dims.len() == 2,
            ty(old(self)@, w as nat).dims[1] == ty(old(self)@, x as nat).dims.last(),
            ty(old(self)@, b as nat).dims == seq![ty(old(self)@, w as nat).dims[0]],
        ensures
            final(self).wf(),
            extends(old(self)@, final(self)@),
            r == old(self)@.len(),
            is(
                final(self)@,
                r,
                tri(
                    TOp::LinearBias,
                    expr(old(self)@, x as nat),
                    expr(old(self)@, w as nat),
                    expr(old(self)@, b as nat),
                ),
                with_dims(
                    ty(old(self)@, x as nat),
                    ty(old(self)@, x as nat).dims.update(
                        ty(old(self)@, x as nat).dims.len() - 1,
                        ty(old(self)@, w as nat).dims[0],
                    ),
                ),
            ),
    {
        let t: TensorType = self.type_of(x);
        let mut dims: Vec<usize> = copy_dims(&t.dims);
        let n: usize = dims.len();
        let out: usize = self.steps[w].ty.dims[0];
        dims.set(n - 1, out);
        self.push_3(TOp::LinearBias, x, w, b, t.dtype, dims)
    }

    /// Division by the root mean square, and a learned scale.
    pub fn rms_norm(&mut self, x: usize, w: usize, eps: F64Bits) -> (r: usize)
        requires
            old(self).wf(),
            x < old(self)@.len(),
            w < old(self)@.len(),
            ty(old(self)@, x as nat).dims.len() > 0,
            ty(old(self)@, w as nat).dims == seq![ty(old(self)@, x as nat).dims.last()],
        ensures
            final(self).wf(),
            extends(old(self)@, final(self)@),
            r == old(self)@.len(),
            is(
                final(self)@,
                r,
                bin(TOp::RmsNorm(eps), expr(old(self)@, x as nat), expr(old(self)@, w as nat)),
                ty(old(self)@, x as nat),
            ),
    {
        let t: TensorType = self.type_of(x);
        let dims: Vec<usize> = copy_dims(&t.dims);
        self.push_2(TOp::RmsNorm(eps), x, w, t.dtype, dims)
    }

    /// Sum along the last axis.
    pub fn sum_keep_last(&mut self, x: usize) -> (r: usize)
        requires
            old(self).wf(),
            x < old(self)@.len(),
            ty(old(self)@, x as nat).dims.len() > 0,
        ensures
            final(self).wf(),
            extends(old(self)@, final(self)@),
            r == old(self)@.len(),
            is(
                final(self)@,
                r,
                un(TOp::SumKeepLast, expr(old(self)@, x as nat)),
                with_dims(
                    ty(old(self)@, x as nat),
                    ty(old(self)@, x as nat).dims.update(
                        ty(old(self)@, x as nat).dims.len() - 1,
                        1,
                    ),
                ),
            ),
    {
        let t: TensorType = self.type_of(x);
        let mut dims: Vec<usize> = copy_dims(&t.dims);
        let n: usize = dims.len();
        dims.set(n - 1, 1);
        self.push_1(TOp::SumKeepLast, x, t.dtype, dims)
    }

    /// Mean along the last axis.
    pub fn mean_keep_last(&mut self, x: usize) -> (r: usize)
        requires
            old(self).wf(),
            x < old(self)@.len(),
            ty(old(self)@, x as nat).dims.len() > 0,
        ensures
            final(self).wf(),
            extends(old(self)@, final(self)@),
            r == old(self)@.len(),
            is(
                final(self)@,
                r,
                un(TOp::MeanKeepLast, expr(old(self)@, x as nat)),
                with_dims(
                    ty(old(self)@, x as nat),
                    ty(old(self)@, x as nat).dims.update(
                        ty(old(self)@, x as nat).dims.len() - 1,
                        1,
                    ),
                ),
            ),
    {
        let t: TensorType = self.type_of(x);
        let mut dims: Vec<usize> = copy_dims(&t.dims);
        let n: usize = dims.len();
        dims.set(n - 1, 1);
        self.push_1(TOp::MeanKeepLast, x, t.dtype, dims)
    }

    /// Mean along the first axis.
    pub fn mean_first(&mut self, x: usize) -> (r: usize)
        requires
            old(self).wf(),
            x < old(self)@.len(),
            ty(old(self)@, x as nat).dims.len() > 0,
        ensures
            final(self).wf(),
            extends(old(self)@, final(self)@),
            r == old(self)@.len(),
            is(
                final(self)@,
                r,
                un(TOp::MeanFirst, expr(old(self)@, x as nat)),
                with_dims(ty(old(self)@, x as nat), ty(old(self)@, x as nat).dims.remove(0)),
            ),
    {
        let t: TensorType = self.type_of(x);
        let mut dims: Vec<usize> = copy_dims(&t.dims);
        dims.remove(0);
        self.push_1(TOp::MeanFirst, x, t.dtype, dims)
    }

    /// Softmax along the last axis.
    pub fn softmax_last(&mut self, x: usize) -> (r: usize)
        requires
            old(self).wf(),
            x < old(self)@.len(),
            ty(old(self)@, x as nat).dims.len() > 0,
        ensures
            final(self).wf(),
            extends(old(self)@, final(self)@),
            r == old(self)@.len(),
            is(
                final(self)@,
                r,
                un(TOp::SoftmaxLast, expr(old(self)@, x as nat)),
                ty(old(self)@, x as nat),
            ),
    {
        let t: TensorType = self.type_of(x);
        let dims: Vec<usize> = copy_dims(&t.dims);
        self.push_1(TOp::SoftmaxLast, x, t.dtype, dims)
    }

    /// The product of the matrices in the last two of four axes.
    pub fn matmul(&mut self, x: usize, y: usize) -> (r: usize)
        requires
            old(self).wf(),
            x < old(self)@.len(),
            y < old(self)@.len(),
            ty(old(self)@, x as nat).dtype == ty(old(self)@, y as nat).dtype,
            ty(old(self)@, x as nat).dims.len() == 4,
            ty(old(self)@, y as nat).dims.len() == 4,
            ty(old(self)@, x as nat).dims[0] == ty(old(self)@, y as nat).dims[0],
            ty(old(self)@, x as nat).dims[1] == ty(old(self)@, y as nat).dims[1],
            ty(old(self)@, x as nat).dims[3] == ty(old(self)@, y as nat).dims[2],
        ensures
            final(self).wf(),
            extends(old(self)@, final(self)@),
            r == old(self)@.len(),
            is(
                final(self)@,
                r,
                bin(TOp::Matmul, expr(old(self)@, x as nat), expr(old(self)@, y as nat)),
                with_dims(
                    ty(old(self)@, x as nat),
                    ty(old(self)@, x as nat).dims.update(3, ty(old(self)@, y as nat).dims[3]),
                ),
            ),
    {
        let t: TensorType = self.type_of(x);
        let mut dims: Vec<usize> = copy_dims(&t.dims);
        let cols: usize = self.steps[y].ty.dims[3];
        dims.set(3, cols);
        self.push_2(TOp::Matmul, x, y, t.dtype, dims)
    }

    /// The last axis as two.
    pub fn split_last(&mut self, x: usize, outer: usize, inner: usize) -> (r: usize)
        requires
            old(self).wf(),
            x < old(self)@.len(),
            ty(old(self)@, x as nat).dims.len() > 0,
            ty(old(self)@, x as nat).dims.last() == outer * inner,
        ensures
            final(self).wf(),
            extends(old(self)@, final(self)@),
            r == old(self)@.len(),
            is(
                final(self)@,
                r,
                un((TOp::SplitLast { outer, inner }), expr(old(self)@, x as nat)),
                with_dims(
                    ty(old(self)@, x as nat),
                    ty(old(self)@, x as nat).dims.update(
                        ty(old(self)@, x as nat).dims.len() - 1,
                        outer,
                    ).push(inner),
                ),
            ),
    {
        let t: TensorType = self.type_of(x);
        let mut dims: Vec<usize> = copy_dims(&t.dims);
        let n: usize = dims.len();
        dims.set(n - 1, outer);
        dims.push(inner);
        self.push_1((TOp::SplitLast { outer, inner }), x, t.dtype, dims)
    }

    /// The last two axes as one.
    pub fn merge_last(&mut self, x: usize) -> (r: usize)
        requires
            old(self).wf(),
            x < old(self)@.len(),
            ty(old(self)@, x as nat).dims.len() > 1,
            ty(old(self)@, x as nat).dims[ty(old(self)@, x as nat).dims.len() - 2]
                * ty(old(self)@, x as nat).dims.last() <= usize::MAX,
        ensures
            final(self).wf(),
            extends(old(self)@, final(self)@),
            r == old(self)@.len(),
            is(
                final(self)@,
                r,
                un(TOp::MergeLast, expr(old(self)@, x as nat)),
                with_dims(
                    ty(old(self)@, x as nat),
                    ty(old(self)@, x as nat).dims.drop_last().update(
                        ty(old(self)@, x as nat).dims.len() - 2,
                        (ty(old(self)@, x as nat).dims[ty(old(self)@, x as nat).dims.len() - 2]
                            * ty(old(self)@, x as nat).dims.last()) as usize,
                    ),
                ),
            ),
    {
        let t: TensorType = self.type_of(x);
        let mut dims: Vec<usize> = copy_dims(&t.dims);
        let n: usize = dims.len();
        let merged: usize = dims[n - 2] * dims[n - 1];
        dims.pop();
        dims.set(n - 2, merged);
        self.push_1(TOp::MergeLast, x, t.dtype, dims)
    }

    /// Two axes exchanged.
    pub fn transpose(&mut self, x: usize, a: usize, b: usize) -> (r: usize)
        requires
            old(self).wf(),
            x < old(self)@.len(),
            a < ty(old(self)@, x as nat).dims.len(),
            b < ty(old(self)@, x as nat).dims.len(),
        ensures
            final(self).wf(),
            extends(old(self)@, final(self)@),
            r == old(self)@.len(),
            is(
                final(self)@,
                r,
                un((TOp::Transpose { a, b }), expr(old(self)@, x as nat)),
                with_dims(
                    ty(old(self)@, x as nat),
                    ty(old(self)@, x as nat).dims.update(
                        a as int,
                        ty(old(self)@, x as nat).dims[b as int],
                    ).update(b as int, ty(old(self)@, x as nat).dims[a as int]),
                ),
            ),
    {
        let t: TensorType = self.type_of(x);
        let mut dims: Vec<usize> = copy_dims(&t.dims);
        let n: usize = dims.len();
        let (da, db): (usize, usize) = (dims[a], dims[b]);
        dims.set(a, db);
        dims.set(b, da);
        self.push_1((TOp::Transpose { a, b }), x, t.dtype, dims)
    }

    /// Three axes rearranged.
    pub fn permute_3(&mut self, x: usize, a: usize, b: usize, c: usize) -> (r: usize)
        requires
            old(self).wf(),
            x < old(self)@.len(),
            ty(old(self)@, x as nat).dims.len() == 3,
            a < 3,
            b < 3,
            c < 3,
        ensures
            final(self).wf(),
            extends(old(self)@, final(self)@),
            r == old(self)@.len(),
            is(
                final(self)@,
                r,
                un((TOp::Permute3 { a, b, c }), expr(old(self)@, x as nat)),
                with_dims(
                    ty(old(self)@, x as nat),
                    seq![
                        ty(old(self)@, x as nat).dims[a as int],
                        ty(old(self)@, x as nat).dims[b as int],
                        ty(old(self)@, x as nat).dims[c as int],
                    ],
                ),
            ),
    {
        let t: TensorType = self.type_of(x);
        let mut dims: Vec<usize> = Vec::new();
        dims.push(t.dims[a]);
        dims.push(t.dims[b]);
        dims.push(t.dims[c]);
        proof {
            assert(dims@ =~= seq![t.dims@[a as int], t.dims@[b as int], t.dims@[c as int]]);
        }
        self.push_1((TOp::Permute3 { a, b, c }), x, t.dtype, dims)
    }

    /// Four axes rearranged.
    pub fn permute_4(&mut self, x: usize, a: usize, b: usize, c: usize, d: usize) -> (r: usize)
        requires
            old(self).wf(),
            x < old(self)@.len(),
            ty(old(self)@, x as nat).dims.len() == 4,
            a < 4,
            b < 4,
            c < 4,
            d < 4,
        ensures
            final(self).wf(),
            extends(old(self)@, final(self)@),
            r == old(self)@.len(),
            is(
                final(self)@,
                r,
                un((TOp::Permute4 { a, b, c, d }), expr(old(self)@, x as nat)),
                with_dims(
                    ty(old(self)@, x as nat),
                    seq![
                        ty(old(self)@, x as nat).dims[a as int],
                        ty(old(self)@, x as nat).dims[b as int],
                        ty(old(self)@, x as nat).dims[c as int],
                        ty(old(self)@, x as nat).dims[d as int],
                    ],
                ),
            ),
    {
        let t: TensorType = self.type_of(x);
        let mut dims: Vec<usize> = Vec::new();
        dims.push(t.dims[a]);
        dims.push(t.dims[b]);
        dims.push(t.dims[c]);
        dims.push(t.dims[d]);
        proof {
            assert(dims@ =~= seq![
                t.dims@[a as int],
                t.dims@[b as int],
                t.dims@[c as int],
                t.dims@[d as int],
            ]);
        }
        self.push_1((TOp::Permute4 { a, b, c, d }), x, t.dtype, dims)
    }

    /// Part of an axis.
    pub fn narrow(&mut self, x: usize, axis: usize, start: usize, len: usize) -> (r: usize)
        requires
            old(self).wf(),
            x < old(self)@.len(),
            axis < ty(old(self)@, x as nat).dims.len(),
            start + len <= ty(old(self)@, x as nat).dims[axis as int],
        ensures
            final(self).wf(),
            extends(old(self)@, final(self)@),
            r == old(self)@.len(),
            is(
                final(self)@,
                r,
                un((TOp::Narrow { axis, start, len }), expr(old(self)@, x as nat)),
                with_dims(
                    ty(old(self)@, x as nat),
                    ty(old(self)@, x as nat).dims.update(axis as int, len),
                ),
            ),
    {
        let t: TensorType = self.type_of(x);
        let mut dims: Vec<usize> = copy_dims(&t.dims);
        let n: usize = dims.len();
        dims.set(axis, len);
        self.push_1((TOp::Narrow { axis, start, len }), x, t.dtype, dims)
    }

    /// One entry of an axis.
    pub fn select(&mut self, x: usize, axis: usize, index: usize) -> (r: usize)
        requires
            old(self).wf(),
            x < old(self)@.len(),
            axis < ty(old(self)@, x as nat).dims.len(),
            index < ty(old(self)@, x as nat).dims[axis as int],
        ensures
            final(self).wf(),
            extends(old(self)@, final(self)@),
            r == old(self)@.len(),
            is(
                final(self)@,
                r,
                un((TOp::Select { axis, index }), expr(old(self)@, x as nat)),
                with_dims(
                    ty(old(self)@, x as nat),
                    ty(old(self)@, x as nat).dims.remove(axis as int),
                ),
            ),
    {
        let t: TensorType = self.type_of(x);
        let mut dims: Vec<usize> = copy_dims(&t.dims);
        dims.remove(axis);
        self.push_1((TOp::Select { axis, index }), x, t.dtype, dims)
    }

    /// An axis of one entry dropped.
    pub fn squeeze(&mut self, x: usize, axis: usize) -> (r: usize)
        requires
            old(self).wf(),
            x < old(self)@.len(),
            axis < ty(old(self)@, x as nat).dims.len(),
            ty(old(self)@, x as nat).dims[axis as int] == 1,
        ensures
            final(self).wf(),
            extends(old(self)@, final(self)@),
            r == old(self)@.len(),
            is(
                final(self)@,
                r,
                un((TOp::Squeeze { axis }), expr(old(self)@, x as nat)),
                with_dims(
                    ty(old(self)@, x as nat),
                    ty(old(self)@, x as nat).dims.remove(axis as int),
                ),
            ),
    {
        let t: TensorType = self.type_of(x);
        let mut dims: Vec<usize> = copy_dims(&t.dims);
        dims.remove(axis);
        self.push_1((TOp::Squeeze { axis }), x, t.dtype, dims)
    }

    /// An axis of one entry added.
    pub fn unsqueeze(&mut self, x: usize, axis: usize) -> (r: usize)
        requires
            old(self).wf(),
            x < old(self)@.len(),
            axis <= ty(old(self)@, x as nat).dims.len(),
        ensures
            final(self).wf(),
            extends(old(self)@, final(self)@),
            r == old(self)@.len(),
            is(
                final(self)@,
                r,
                un((TOp::Unsqueeze { axis }), expr(old(self)@, x as nat)),
                with_dims(
                    ty(old(self)@, x as nat),
                    ty(old(self)@, x as nat).dims.insert(axis as int, 1),
                ),
            ),
    {
        let t: TensorType = self.type_of(x);
        let mut dims: Vec<usize> = copy_dims(&t.dims);
        dims.insert(axis, 1);
        self.push_1((TOp::Unsqueeze { axis }), x, t.dtype, dims)
    }

    /// The first axis, of one entry, repeated.
    pub fn expand_first(&mut self, x: usize, n: usize) -> (r: usize)
        requires
            old(self).wf(),
            x < old(self)@.len(),
            ty(old(self)@, x as nat).dims.len() > 0,
            ty(old(self)@, x as nat).dims[0] == 1,
        ensures
            final(self).wf(),
            extends(old(self)@, final(self)@),
            r == old(self)@.len(),
            is(
                final(self)@,
                r,
                un((TOp::ExpandFirst { n }), expr(old(self)@, x as nat)),
                with_dims(ty(old(self)@, x as nat), ty(old(self)@, x as nat).dims.update(0, n)),
            ),
    {
        let t: TensorType = self.type_of(x);
        let mut dims: Vec<usize> = copy_dims(&t.dims);
        dims.set(0, n);
        self.push_1((TOp::ExpandFirst { n }), x, t.dtype, dims)
    }

    /// Rotation by the angles of the positions from `offset` on.
    pub fn rope(&mut self, table: RopeTable, x: usize, offset: usize) -> (r: usize)
        requires
            old(self).wf(),
            x < old(self)@.len(),
            ty(old(self)@, x as nat).dims.len() == 4,
            ty(old(self)@, x as nat).dims[3] % 2 == 0,
        ensures
            final(self).wf(),
            extends(old(self)@, final(self)@),
            r == old(self)@.len(),
            is(
                final(self)@,
                r,
                un((TOp::Rope { table, offset }), expr(old(self)@, x as nat)),
                ty(old(self)@, x as nat),
            ),
    {
        let t: TensorType = self.type_of(x);
        let dims: Vec<usize> = copy_dims(&t.dims);
        self.push_1((TOp::Rope { table, offset }), x, t.dtype, dims)
    }

    /// Every head repeated.
    pub fn repeat_kv(&mut self, x: usize, groups: usize) -> (r: usize)
        requires
            old(self).wf(),
            x < old(self)@.len(),
            ty(old(self)@, x as nat).dims.len() == 4,
            ty(old(self)@, x as nat).dims[1] * groups <= usize::MAX,
        ensures
            final(self).wf(),
            extends(old(self)@, final(self)@),
            r == old(self)@.len(),
            is(
                final(self)@,
                r,
                un((TOp::RepeatKv { groups }), expr(old(self)@, x as nat)),
                with_dims(
                    ty(old(self)@, x as nat),
                    ty(old(self)@, x as nat).dims.update(
                        1,
                        (ty(old(self)@, x as nat).dims[1] * groups) as usize,
                    ),
                ),
            ),
    {
        let t: TensorType = self.type_of(x);
        let mut dims: Vec<usize> = copy_dims(&t.dims);
        let heads: usize = dims[1] * groups;
        dims.set(1, heads);
        self.push_1((TOp::RepeatKv { groups }), x, t.dtype, dims)
    }

    /// A layer's cache after it was given `x`; it gives back `kv_len` positions.
    pub fn cache_append(
        &mut self,
        layer: usize,
        part: KvPart,
        x: usize,
        kv_len: usize,
    ) -> (r: usize)
        requires
            old(self).wf(),
            x < old(self)@.len(),
            ty(old(self)@, x as nat).dims.len() == 4,
        ensures
            final(self).wf(),
            extends(old(self)@, final(self)@),
            r == old(self)@.len(),
            is(
                final(self)@,
                r,
                un((TOp::CacheAppend { layer, part }), expr(old(self)@, x as nat)),
                with_dims(
                    ty(old(self)@, x as nat),
                    ty(old(self)@, x as nat).dims.update(2, kv_len),
                ),
            ),
    {
        let t: TensorType = self.type_of(x);
        let mut dims: Vec<usize> = copy_dims(&t.dims);
        dims.set(2, kv_len);
        self.push_1((TOp::CacheAppend { layer, part }), x, t.dtype, dims)
    }

    /// The `cached` positions of a layer with `x` behind them.
    pub fn cache_concat(
        &mut self,
        layer: usize,
        part: KvPart,
        x: usize,
        cached: usize,
    ) -> (r: usize)
        requires
            old(self).wf(),
            x < old(self)@.len(),
            ty(old(self)@, x as nat).dims.len() == 4,
            cached + ty(old(self)@, x as nat).dims[2] <= usize::MAX,
        ensures
            final(self).wf(),
            extends(old(self)@, final(self)@),
            r == old(self)@.len(),
            is(
                final(self)@,
                r,
                un((TOp::CacheConcat { layer, part }), expr(old(self)@, x as nat)),
                with_dims(
                    ty(old(self)@, x as nat),
                    ty(old(self)@, x as nat).dims.update(
                        2,
                        (cached + ty(old(self)@, x as nat).dims[2]) as usize,
                    ),
                ),
            ),
    {
        let t: TensorType = self.type_of(x);
        let mut dims: Vec<usize> = copy_dims(&t.dims);
        let len: usize = cached + dims[2];
        dims.set(2, len);
        self.push_1((TOp::CacheConcat { layer, part }), x, t.dtype, dims)
    }

    /// Attention of one query position.
    pub fn flash_attn_decode(
        &mut self,
        x: usize,
        k: usize,
        v: usize,
        window: Option<u32>,
    ) -> (r: usize)
        requires
            old(self).wf(),
            x < old(self)@.len(),
            k < old(self)@.len(),
            v < old(self)@.len(),
            ty(old(self)@, x as nat).dims.len() == 4,
            ty(old(self)@, x as nat).dims[2] == 1,
            ty(old(self)@, k as nat) == ty(old(self)@, v as nat),
            ty(old(self)@, k as nat).dtype == ty(old(self)@, x as nat).dtype,
            ty(old(self)@, k as nat).dims == ty(old(self)@, x as nat).dims.update(
                2,
                ty(old(self)@, k as nat).dims[2],
            ),
        ensures
            final(self).wf(),
            extends(old(self)@, final(self)@),
            r == old(self)@.len(),
            is(
                final(self)@,
                r,
                tri(
                    (TOp::FlashAttnDecode { window }),
                    expr(old(self)@, x as nat),
                    expr(old(self)@, k as nat),
                    expr(old(self)@, v as nat),
                ),
                ty(old(self)@, x as nat),
            ),
    {
        let t: TensorType = self.type_of(x);
        let dims: Vec<usize> = copy_dims(&t.dims);
        self.push_3((TOp::FlashAttnDecode { window }), x, k, v, t.dtype, dims)
    }

    /// Attention of several query positions, the heads being the third axis.
    pub fn flash_attn(
        &mut self,
        x: usize,
        k: usize,
        v: usize,
        scale: Scalar,
        causal: bool,
    ) -> (r: usize)
        requires
            old(self).wf(),
            x < old(self)@.len(),
            k < old(self)@.len(),
            v < old(self)@.len(),
            ty(old(self)@, x as nat).dims.len() == 4,
            ty(old(self)@, k as nat) == ty(old(self)@, v as nat),
            ty(old(self)@, k as nat).dtype == ty(old(self)@, x as nat).dtype,
            ty(old(self)@, k as nat).dims == ty(old(self)@, x as nat).dims.update(
                1,
                ty(old(self)@, k as nat).dims[1],
            ),
        ensures
            final(self).wf(),
            extends(old(self)@, final(self)@),
            r == old(self)@.len(),
            is(
                final(self)@,
                r,
                tri(
                    (TOp::FlashAttn { scale, causal }),
                    expr(old(self)@, x as nat),
                    expr(old(self)@, k as nat),
                    expr(old(self)@, v as nat),
                ),
                ty(old(self)@, x as nat),
            ),
    {
        let t: TensorType = self.type_of(x);
        let dims: Vec<usize> = copy_dims(&t.dims);
        self.push_3((TOp::FlashAttn { scale, causal }), x, k, v, t.dtype, dims)
    }

    /// Rows of a table, by the ids of `x`.
    pub fn embed(&mut self, x: usize, table: usize, dtype: DType) -> (r: usize)
        requires
            old(self).wf(),
            x < old(self)@.len(),
            table < old(self)@.len(),
            ty(old(self)@, table as nat).dims.len() == 2,
        ensures
            final(self).wf(),
            extends(old(self)@, final(self)@),
            r == old(self)@.len(),
            is(
                final(self)@,
                r,
                bin(TOp::Embed, expr(old(self)@, x as nat), expr(old(self)@, table as nat)),
                (TypeView {
                    dtype,
                    dims: ty(old(self)@, x as nat).dims.push(
                        ty(old(self)@, table as nat).dims[1],
                    ),
                }),
            ),
    {
        let cols: usize = self.steps[table].ty.dims[1];
        let t: TensorType = TensorType { dtype, dims: self.dims_of(x) };
        let mut dims: Vec<usize> = copy_dims(&t.dims);
        dims.push(cols);
        self.push_2(TOp::Embed, x, table, t.dtype, dims)
    }

    /// Tensors of one type along a new first axis.
    pub fn stack(&mut self, xs: Vec<usize>) -> (r: usize)
        requires
            old(self).wf(),
            xs@.len() > 0,
            forall|i: int|
                0 <= i < xs@.len() ==> (#[trigger] xs@[i]) < old(self)@.len() && ty(
                    old(self)@,
                    xs@[i] as nat,
                ) == ty(old(self)@, xs@[0] as nat),
        ensures
            final(self).wf(),
            extends(old(self)@, final(self)@),
            r == old(self)@.len(),
            is(
                final(self)@,
                r,
                Expr::Node(TOp::Stack, xs@.map_values(|a: usize| expr(old(self)@, a as nat))),
                with_dims(
                    ty(old(self)@, xs@[0] as nat),
                    ty(old(self)@, xs@[0] as nat).dims.insert(0, xs@.len() as usize),
                ),
            ),
    {
        let n: usize = xs.len();
        let t: TensorType = self.type_of(xs[0]);
        let mut dims: Vec<usize> = copy_dims(&t.dims);
        dims.insert(0, n);
        self.push(TOp::Stack, xs, t.dtype, dims)
    }
}

} // verus!
