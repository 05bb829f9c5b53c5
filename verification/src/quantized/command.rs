//! Commands to the kernels of quantized tensors.

use crate::dtype::GgmlDType;
use crate::ops::dispatch::Groups;
use vstd::prelude::*;

verus! {

/// Entry points of the kernels of one block type.
#[derive(Clone, Copy, Debug, PartialEq, Eq, Structural)]
pub enum QFunction {
    /// Unpacks blocks into f32 elements.
    DequantizeBlockToF32,
    /// Product with one row.
    MatmulNaiveBlockM1,
    /// Product, a 16 by 16 tile per workgroup.
    MatmulNaiveBlock,
    /// Tiled product.
    MatmulSgemm,
    /// Integer product of 4-bit blocks with one row of 8-bit blocks.
    MatmulQ4kQ8kM1,
    /// Packs a row of f32 elements into 8-bit blocks.
    QuantizeRowToQ8k,
}

/// A kernel of a block type.
#[derive(Clone, Copy, Debug, PartialEq, Eq, Structural)]
pub struct QPipeline {
    pub dtype: GgmlDType,
    pub function: QFunction,
}

/// How much of a kernel is run.
#[derive(Clone, Copy, Debug, PartialEq, Eq, Structural)]
pub enum Work {
    /// So many workgroups.
    Groups(Groups),
    /// So many threads, in workgroups of 64.
    Threads64 { length: u32 },
}

/// The buffers that kernels of quantized tensors work on.
#[derive(Clone, Copy, Debug, PartialEq, Eq, Structural)]
pub enum QBuffer {
    /// The f32 elements that come out.
    Output,
    /// The f32 elements that go in.
    Source,
    /// The blocks of a packed row.
    Packed,
    /// The blocks of the weights.
    Weights,
}

/// One command: a kernel, the buffers that are bound to it, its compile-time
/// constants, its parameters in order, how much of it is run, and an estimate
/// of its cost.
#[derive(Clone, Debug)]
pub struct QCommand {
    pub pipeline: QPipeline,
    /// In order; what the kernel writes comes first.
    pub bindings: Vec<QBuffer>,
    pub consts: Vec<usize>,
    pub params: Vec<usize>,
    pub work: Work,
    pub workload: usize,
}

/// What a [`QCommand`] stands for.
#[verifier::ext_equal]
pub struct QCommandView {
    pub pipeline: QPipeline,
    pub bindings: Seq<QBuffer>,
    pub consts: Seq<usize>,
    pub params: Seq<usize>,
    pub work: Work,
    pub workload: nat,
}

impl View for QCommand {
    type V = QCommandView;

    open spec fn view(&self) -> QCommandView {
        QCommandView {
            pipeline: self.pipeline,
            bindings: self.bindings@,
            consts: self.consts@,
            params: self.params@,
            work: self.work,
            workload: self.workload as nat,
        }
    }
}

/// Two bindings.
pub(crate) fn bind_two(a: QBuffer, b: QBuffer) -> (r: Vec<QBuffer>)
    ensures
        r@ == seq![a, b],
{
    let mut r: Vec<QBuffer> = Vec::new();
    r.push(a);
    r.push(b);
    proof {
        assert(r@ =~= seq![a, b]);
    }
    r
}

/// Three bindings.
pub(crate) fn bind_three(a: QBuffer, b: QBuffer, c: QBuffer) -> (r: Vec<QBuffer>)
    ensures
        r@ == seq![a, b, c],
{
    let mut r: Vec<QBuffer> = Vec::new();
    r.push(a);
    r.push(b);
    r.push(c);
    proof {
        assert(r@ =~= seq![a, b, c]);
    }
    r
}

} // verus!
