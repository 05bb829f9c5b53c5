//! What can go wrong before a command reaches the GPU.

use crate::dtype::{DType, GgmlDType};
use crate::gemma4::gguf_config::MetaKey;
use crate::tensor::op::Leaf;
use vstd::prelude::*;

verus! {

/// The operation that refused its input.
#[derive(Clone, Copy, Debug, PartialEq, Eq, Structural)]
pub enum Op {
    Affine,
    Binary,
    Cast,
    Copy,
    Copy2d,
    Dequantize,
    Embedding,
    FlashAttnDecode,
    IndexSelect,
    Matmul,
    QMatmul,
    QuantizeQ8K,
    Reduce,
    Rope,
    Softmax,
    Unary,
}

/// The quantity that does not fit the 32-bit words of a kernel's uniform.
#[derive(Clone, Copy, Debug, PartialEq, Eq, Structural)]
pub enum Quantity {
    ElementCount,
    Dim { axis: usize },
    Stride { axis: usize },
    LhsStride { axis: usize },
    RhsStride { axis: usize },
    StartOffset,
    LhsOffset,
    RhsOffset,
    DstOffset,
    ReduceTotal,
    OutputCount,
    PairCount,
    Batch,
    M,
    N,
    K,
    LhsRowStride,
    LhsColStride,
    RhsRowStride,
    RhsColStride,
    OutRowStride,
    OutColStride,
    LhsBatchStride,
    RhsBatchStride,
    OutBatchStride,
}

/// Entry points that the backend declares but does not carry out.
#[derive(Clone, Copy, Debug, PartialEq, Eq, Structural)]
pub enum Missing {
    TryCloneNonContiguous,
    TryCloneSubByte,
    Powf,
    Elu,
    Compare,
    WhereCond,
    Conv1d,
    ConvTranspose1d,
    Conv2d,
    ConvTranspose2d,
    AvgPool2d,
    MaxPool2d,
    UpsampleNearest1d,
    UpsampleNearest2d,
    UpsampleBilinear2d,
    Gather,
    ScatterSet,
    ScatterAddSet,
    IndexAdd,
    ConstSet,
    RandUniform,
    RandNormal,
    GetCurrentSeed,
}

/// A refused request.
#[derive(Clone, Copy, Debug, PartialEq, Eq, Structural)]
pub enum Error {
    /// The entry point is declared and not carried out.
    NotImplemented { entry: Missing },
    /// A buffer of a dtype below one byte was to be allocated.
    AllocSubByte { dtype: DType },
    /// A buffer of a dtype below one byte was to be read back.
    ReadbackSubByte { dtype: DType },
    /// The bytes of this dtype have no host representation to read into.
    ReadbackUnsupported { dtype: DType },
    /// The operands' dtypes differ.
    DTypeMismatch { op: Op, lhs: DType, rhs: DType },
    /// The shader front end cannot compile half-precision code.
    F16Unsupported { op: Op },
    /// The adapter lacks the half-precision shader feature.
    NoShaderF16 { op: Op },
    /// No kernel is wired for the dtype.
    UnsupportedDType { op: Op, dtype: DType },
    /// No kernel is wired for the operation's name.
    UnknownOperator { op: Op },
    /// The kernels address at most four axes.
    RankTooLarge { op: Op, rank: usize },
    /// The rank is one that the operation has no meaning for.
    BadRank { op: Op, rank: usize },
    /// The operands' shapes do not agree.
    ShapeMismatch { op: Op },
    /// The operand must be contiguous.
    NotContiguous { op: Op },
    /// The operation has no elements to work on.
    Empty { op: Op },
    /// A reduced axis has no elements.
    EmptyReduction,
    /// A quantity exceeds `u32::MAX`.
    ExceedsU32 { op: Op, what: Quantity, value: usize },
    /// The axis is not one of the operand's.
    DimOutOfRange { op: Op, dim: usize, rank: usize },
    /// The batch axes cannot be walked with one stride.
    BatchLayout { op: Op },
    /// An operand of a matrix product is broadcast along the summed axis.
    BroadcastSum,
    /// Fused attention takes one query position.
    QueryLength { got: usize },
    /// The last axis must be even.
    OddHeadDim { dim: usize },
    /// The conversion is not wired.
    UnsupportedCast { from: DType, to: DType },
    /// Elements of the block type cannot be unpacked.
    DequantizeUnsupported { dtype: GgmlDType },
    /// The number of elements is no multiple of the block's.
    PartialBlock { elems: usize, block: usize },
    /// The packed bytes are not as many as the blocks of the elements have.
    PackedSize { elems: usize, got: usize },
    /// Elements of another type were expected.
    UnexpectedDType { expected: DType, got: DType },
    /// The rows of a table are no whole number of blocks.
    PartialRow { cols: usize, block: usize },
    /// The table's storage has another size than its shape asks for.
    StorageSize { expected: u64, got: u64 },
    /// The index is not one of the table's rows.
    IndexOutOfRange { index: u32, rows: usize },
    /// The row lies outside the table's bytes.
    RowOutOfBounds { start: usize, end: usize, len: usize },
    /// The layer's donor of keys and values did not run before it.
    NoDonor { layer: usize, donor: usize },
    /// The weights lack a tensor.
    MissingTensor { leaf: Leaf },
    /// A tensor of the weights has another shape than the configuration says.
    TensorShape { leaf: Leaf },
    /// The metadata lacks an entry.
    MissingMetadata { key: MetaKey },
    /// An entry of the metadata has another type than is needed.
    MetadataType { key: MetaKey },
    /// The positions of the step go beyond those that the model has angles
    /// for.
    PositionsOutOfRange { offset: usize, len: usize, max: usize },
    /// A layer's queries do not share its keys evenly, or the shared keys have
    /// another shape.
    HeadsMismatch { layer: usize },
    /// A layer's cache does not hold the positions that the mask speaks of.
    MaskLength { layer: usize, cached: usize, masked: usize },
    /// The cached keys and values are those of another number of sequences.
    CachedBatch { cached: usize, got: usize },
    /// The active stream is not one of the model's.
    ActiveStream { active: usize, n: usize },
    /// Arg-reductions produce indices, which no kernel here does.
    ArgReduction,
}

} // verus!
