//! Operations of tensor programs, and the expressions that they make up.

use crate::dtype::DType;
use crate::gemma4::config::{Activation, F64Bits};
use vstd::prelude::*;

verus! {

/// A number in a formula.
#[derive(Clone, Copy, Debug, PartialEq, Eq, Structural)]
pub enum Scalar {
    /// One.
    One,
    /// A number of the configuration.
    Bits(F64Bits),
    /// The count itself.
    Count(usize),
    /// Square root of a count.
    Sqrt(usize),
    /// One over the square root of a count.
    RecipSqrt(usize),
    /// One over a count.
    Recip(usize),
}

/// Weights that the whole model has once.
#[derive(Clone, Copy, Debug, PartialEq, Eq, Structural)]
pub enum TopTensor {
    TokenEmbedding,
    OutputNorm,
    Output,
    PerLayerTokenEmbedding,
    PerLayerModelProjection,
    PerLayerProjectionNorm,
}

/// Weights that every layer has, or may have.
#[derive(Clone, Copy, Debug, PartialEq, Eq, Structural)]
pub enum LayerTensor {
    AttnQ,
    AttnK,
    AttnV,
    AttnOutput,
    AttnQBias,
    AttnKBias,
    AttnVBias,
    AttnOutputBias,
    AttnQNorm,
    AttnKNorm,
    InputNorm,
    PostAttentionNorm,
    PreFeedforwardNorm,
    PostFeedforwardNorm,
    FfnGate,
    FfnUp,
    FfnDown,
    LaurelLeft,
    LaurelRight,
    PostLaurelNorm,
    LayerScalar,
    PerLayerInputGate,
    PerLayerProjection,
    PostPerLayerInputNorm,
    AltupCorrectOutputScale,
    AltupCorrectionCoefs,
    AltupPredictionCoefs,
    AltupModalityRouter,
    AltupRouterNorm,
}

/// Weights that every parallel stream but the active one has.
#[derive(Clone, Copy, Debug, PartialEq, Eq, Structural)]
pub enum StreamTensor {
    Projection,
    UnembedProjection,
}

/// Keys or values.
#[derive(Clone, Copy, Debug, PartialEq, Eq, Structural)]
pub enum KvPart {
    Keys,
    Values,
}

/// The masks of a step.
#[derive(Clone, Copy, Debug, PartialEq, Eq, Structural)]
pub enum MaskKind {
    Full,
    Sliding,
}

/// Tensors that a program is given.
#[derive(Clone, Copy, Debug, PartialEq, Eq, Structural)]
pub enum Leaf {
    /// The token ids of the step.
    TokenIds,
    /// Embeddings that were looked up elsewhere.
    Embeddings,
    /// The auxiliary embeddings of all layers.
    PerLayerInputs,
    Mask(MaskKind),
    Top(TopTensor),
    Layer(usize, LayerTensor),
    Stream(usize, StreamTensor),
}

/// Rotation tables.
#[derive(Clone, Copy, Debug, PartialEq, Eq, Structural)]
pub enum RopeTable {
    /// Part of a head is rotated, on full-attention layers.
    Global,
    /// All of a head is rotated, on sliding layers.
    Local,
}

/// Element-wise operations on two tensors.
#[derive(Clone, Copy, Debug, PartialEq, Eq, Structural)]
pub enum BinOp {
    Add,
    Sub,
    Mul,
    Div,
    Maximum,
}

/// Element-wise operations on one tensor.
#[derive(Clone, Copy, Debug, PartialEq, Eq, Structural)]
pub enum MapOp {
    Sqr,
    Sqrt,
    Tanh,
    Act(Activation),
    Mul(Scalar),
    Div(Scalar),
    Add(Scalar),
    /// The number itself where an element is below it.
    AtLeast(Scalar),
    ZerosLike,
    /// The same elements, adjacent in memory.
    Contiguous,
}

/// A tensor operation.
#[derive(Clone, Copy, Debug, PartialEq, Eq, Structural)]
pub enum TOp {
    Leaf(Leaf),
    Each(MapOp),
    Cast(DType),
    /// Two tensors of one shape.
    Zip(BinOp),
    /// The second tensor is broadcast to the first.
    ZipBroadcast(BinOp),
    /// Product with the transpose of a weight, along the last axis.
    Linear,
    /// The same, and a bias added.
    LinearBias,
    /// Division by the root mean square along the last axis, and a learned
    /// scale.
    RmsNorm(F64Bits),
    /// Sum along the last axis, which keeps one entry.
    SumKeepLast,
    /// Mean along the last axis, which keeps one entry.
    MeanKeepLast,
    /// Mean along the first axis, which goes.
    MeanFirst,
    SoftmaxLast,
    Matmul,
    /// The last axis as two.
    SplitLast { outer: usize, inner: usize },
    /// The last two axes as one.
    MergeLast,
    Transpose { a: usize, b: usize },
    Permute3 { a: usize, b: usize, c: usize },
    Permute4 { a: usize, b: usize, c: usize, d: usize },
    /// Entries `[start, start + len)` of an axis.
    Narrow { axis: usize, start: usize, len: usize },
    /// One entry of an axis, which goes.
    Select { axis: usize, index: usize },
    Squeeze { axis: usize },
    Unsqueeze { axis: usize },
    /// The first axis, which has one entry, repeated.
    ExpandFirst { n: usize },
    /// Tensors of one shape along a new first axis.
    Stack,
    /// Rotation by the angles of the positions from `offset` on.
    Rope { table: RopeTable, offset: usize },
    /// Every head along the second axis repeated.
    RepeatKv { groups: usize },
    /// A layer's cache after it was given the tensor.
    CacheAppend { layer: usize, part: KvPart },
    /// A layer's cached tensor with the tensor behind it.
    CacheConcat { layer: usize, part: KvPart },
    /// Attention of one query position; hidden positions as given by the
    /// window.
    FlashAttnDecode { window: Option<u32> },
    /// Attention of several query positions.
    FlashAttn { scale: Scalar, causal: bool },
    /// Rows of a table.
    Embed,
}

/// The formula behind a tensor: an operation and the formulas of its
/// operands.
pub enum Expr {
    Node(TOp, Seq<Expr>),
}

pub open spec fn leaf(l: Leaf) -> Expr {
    Expr::Node(TOp::Leaf(l), Seq::empty())
}

pub open spec fn un(op: TOp, x: Expr) -> Expr {
    Expr::Node(op, seq![x])
}

pub open spec fn bin(op: TOp, x: Expr, y: Expr) -> Expr {
    Expr::Node(op, seq![x, y])
}

pub open spec fn tri(op: TOp, x: Expr, y: Expr, z: Expr) -> Expr {
    Expr::Node(op, seq![x, y, z])
}

/// `x + y`, the shapes being equal.
pub open spec fn plus(x: Expr, y: Expr) -> Expr {
    bin(TOp::Zip(BinOp::Add), x, y)
}

/// `x * y`, the shapes being equal.
pub open spec fn times(x: Expr, y: Expr) -> Expr {
    bin(TOp::Zip(BinOp::Mul), x, y)
}

/// `x - y`, the shapes being equal.
pub open spec fn minus(x: Expr, y: Expr) -> Expr {
    bin(TOp::Zip(BinOp::Sub), x, y)
}

/// `x * s`.
pub open spec fn scaled(x: Expr, s: Scalar) -> Expr {
    un(TOp::Each(MapOp::Mul(s)), x)
}

/// The product of `x` with a weight.
pub open spec fn linear(x: Expr, w: Leaf) -> Expr {
    bin(TOp::Linear, x, leaf(w))
}

/// `x` with its elements adjacent.
pub open spec fn contiguous(x: Expr) -> Expr {
    un(TOp::Each(MapOp::Contiguous), x)
}

} // verus!
