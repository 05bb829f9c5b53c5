//! Products of f32 tensors with quantized weights.
//!
//! The weights are held transposed, `n` rows of `k` elements. One row of
//! activations against 4-bit weights goes through an integer kernel where the
//! device has packed dot products: the row is first packed into 8-bit blocks.

use crate::device::WgpuDevice;
use crate::dtype::{DType, GgmlDType};
use crate::error::{Error, Op};
use crate::layout::{Layout, LayoutView};
use crate::ops::dispatch::{ceil_div, div_ceil, is_wide, out_storage, output_storage, Groups};
use crate::ops::scalar::copy_dims;
use crate::quantized::command::{
    bind_three, QBuffer, QCommand, QCommandView, QFunction, QPipeline, Work,
};
use crate::quantized::q8k::{q8k_command, q8k_storage, quantize_row_to_q8k, row_fits, QK_K};
use crate::storage::{StorageView, WgpuStorage};
use vstd::prelude::*;

verus! {

/// What a tiled kernel may take for granted about an operand's strides.
#[derive(Clone, Copy, Debug, PartialEq, Eq, Structural)]
pub enum StrideOptimization {
    /// Nothing.
    Any,
    /// The stride along the summed axis is one; the flag says whether that is
    /// compiled in.
    StrideK(bool),
}

/// Tile of a tiled kernel and what it takes for granted.
#[derive(Clone, Copy, Debug, PartialEq, Eq, Structural)]
pub struct GenericMatmulSettings {
    pub m_tile: usize,
    pub n_tile: usize,
    pub k_tile: usize,
    pub input1: StrideOptimization,
    pub input2: StrideOptimization,
}

/// A tiled kernel.
#[derive(Clone, Copy, Debug, PartialEq, Eq, Structural)]
pub struct MatmulShaderSettings {
    pub settings: GenericMatmulSettings,
    /// Rows and columns of the tile that one thread computes.
    pub thread_m: usize,
    pub thread_n: usize,
    pub prefetch: bool,
    /// Whether the kernel is the one for tiles of few rows.
    pub tiled_small: bool,
}

/// Which kernel a product uses.
#[derive(Clone, Copy, Debug, PartialEq, Eq, Structural)]
pub enum QuantizedMatmulAlgorithm {
    /// Whichever fits the shape best.
    Auto,
    /// One thread or tile per output element, without shared tiles.
    Naive,
    /// The given tiled kernel.
    Tiled(MatmulShaderSettings),
}

/// Extents of a product: batch entries, rows, columns, and summed elements.
#[derive(Clone, Copy, Debug, PartialEq, Eq, Structural)]
pub struct QExtents {
    pub b: usize,
    pub m: usize,
    pub n: usize,
    pub k: usize,
}

/// The tiled kernel with the given tile, the weights' summed axis being the
/// adjacent one.
pub open spec fn tiled(m: usize, n: usize, thread_m: usize, thread_n: usize)
    -> MatmulShaderSettings {
    MatmulShaderSettings {
        settings: GenericMatmulSettings {
            m_tile: m,
            n_tile: n,
            k_tile: 32,
            input1: StrideOptimization::Any,
            input2: StrideOptimization::StrideK(true),
        },
        thread_m,
        thread_n,
        prefetch: false,
        tiled_small: false,
    }
}

/// The kernel for one row against weights whose columns come in 128s.
pub open spec fn tiled_row() -> MatmulShaderSettings {
    MatmulShaderSettings {
        settings: GenericMatmulSettings {
            m_tile: 1,
            n_tile: 32,
            k_tile: 128,
            input1: StrideOptimization::StrideK(true),
            input2: StrideOptimization::StrideK(true),
        },
        thread_m: 1,
        thread_n: 32,
        prefetch: false,
        tiled_small: true,
    }
}

/// Whether the block type has tiled kernels: its blocks have 32 elements.
pub open spec fn has_tiled_kernels(dtype: GgmlDType) -> bool {
    dtype.spec_block_size() == 32
}

/// The fastest kernel for a product of block type `dtype`, the activations'
/// stride along the summed axis being `stride_k`. Where all three extents are
/// multiples of 32, it is the one with the largest tile that divides them.
pub open spec fn best_algorithm(dtype: GgmlDType, e: QExtents, stride_k: usize)
    -> QuantizedMatmulAlgorithm {
    if !has_tiled_kernels(dtype) {
        QuantizedMatmulAlgorithm::Naive
    } else if e.k % 32 == 0 && e.m % 32 == 0 && e.n % 32 == 0 {
        QuantizedMatmulAlgorithm::Tiled(
            if e.m % 128 == 0 && e.n % 64 == 0 {
                tiled(128, 64, 16, 4)
            } else if e.m % 64 == 0 && e.n % 128 == 0 {
                tiled(64, 128, 16, 2)
            } else if e.m % 64 == 0 && e.n % 64 == 0 {
                tiled(64, 64, 8, 4)
            } else if e.n % 64 == 0 {
                tiled(32, 64, 4, 4)
            } else if e.m % 64 == 0 {
                tiled(64, 32, 8, 4)
            } else {
                tiled(32, 32, 8, 2)
            },
        )
    } else if e.m == 1 && e.k % 32 == 0 && stride_k == 1 && dtype is Q8_1 && e.n % 128 == 0 {
        QuantizedMatmulAlgorithm::Tiled(tiled_row())
    } else {
        QuantizedMatmulAlgorithm::Naive
    }
}

/// The tiled kernel with the given tile.
fn tiled_settings(m: usize, n: usize, thread_m: usize, thread_n: usize) -> (r: MatmulShaderSettings)
    ensures
        r == tiled(m, n, thread_m, thread_n),
{
    MatmulShaderSettings {
        settings: GenericMatmulSettings {
            m_tile: m,
            n_tile: n,
            k_tile: 32,
            input1: StrideOptimization::Any,
            input2: StrideOptimization::StrideK(true),
        },
        thread_m,
        thread_n,
        prefetch: false,
        tiled_small: false,
    }
}

/// The fastest kernel for a product.
pub fn get_best_algorithm(dtype: GgmlDType, e: QExtents, stride_k: usize) -> (r:
    QuantizedMatmulAlgorithm)
    ensures
        r == best_algorithm(dtype, e, stride_k),
{
    match dtype {
        GgmlDType::Q4_0
        | GgmlDType::Q4_1
        | GgmlDType::Q5_0
        | GgmlDType::Q5_1
        | GgmlDType::Q8_0
        | GgmlDType::Q8_1 => {
            if e.k % 32 == 0 && e.m % 32 == 0 && e.n % 32 == 0 {
                if e.m % 128 == 0 && e.n % 64 == 0 {
                    QuantizedMatmulAlgorithm::Tiled(tiled_settings(128, 64, 16, 4))
                } else if e.m % 64 == 0 && e.n % 128 == 0 {
                    QuantizedMatmulAlgorithm::Tiled(tiled_settings(64, 128, 16, 2))
                } else if e.m % 64 == 0 && e.n % 64 == 0 {
                    QuantizedMatmulAlgorithm::Tiled(tiled_settings(64, 64, 8, 4))
                } else if e.m % 32 == 0 && e.n % 64 == 0 {
                    QuantizedMatmulAlgorithm::Tiled(tiled_settings(32, 64, 4, 4))
                } else if e.m % 64 == 0 && e.n % 32 == 0 {
                    QuantizedMatmulAlgorithm::Tiled(tiled_settings(64, 32, 8, 4))
                } else {
                    QuantizedMatmulAlgorithm::Tiled(tiled_settings(32, 32, 8, 2))
                }
            } else if e.m == 1 && e.k % 32 == 0 && stride_k == 1 {
                match dtype {
                    GgmlDType::Q8_1 => {
                        if e.n % 128 == 0 {
                            QuantizedMatmulAlgorithm::Tiled(
                                MatmulShaderSettings {
                                    settings: GenericMatmulSettings {
                                        m_tile: 1,
                                        n_tile: 32,
                                        k_tile: 128,
                                        input1: StrideOptimization::StrideK(true),
                                        input2: StrideOptimization::StrideK(true),
                                    },
                                    thread_m: 1,
                                    thread_n: 32,
                                    prefetch: false,
                                    tiled_small: true,
                                },
                            )
                        } else {
                            QuantizedMatmulAlgorithm::Naive
                        }
                    },
                    _ => QuantizedMatmulAlgorithm::Naive,
                }
            } else {
                QuantizedMatmulAlgorithm::Naive
            }
        },
        _ => QuantizedMatmulAlgorithm::Naive,
    }
}

/// The tiles of the chosen kernel divide the rows and columns of the product,
/// so that no tile hangs over its edge, and, but for the one-row kernel, the
/// summed axis too. A choice is always made.
pub proof fn law_tiles_divide(dtype: GgmlDType, e: QExtents, stride_k: usize)
    ensures
        match best_algorithm(dtype, e, stride_k) {
            QuantizedMatmulAlgorithm::Tiled(s) => {
                &&& e.m % s.settings.m_tile == 0
                &&& e.n % s.settings.n_tile == 0
                &&& !s.tiled_small ==> e.k % s.settings.k_tile == 0
                &&& s.settings.m_tile > 0 && s.settings.n_tile > 0 && s.settings.k_tile > 0
            },
            QuantizedMatmulAlgorithm::Naive => true,
            QuantizedMatmulAlgorithm::Auto => false,
        },
{
}

/// A tiled product of a tensor with the weights.
#[derive(Clone, Debug)]
pub struct SgemmCommand {
    pub pipeline: QPipeline,
    /// In order; what the kernel writes comes first.
    pub bindings: Vec<QBuffer>,
    pub settings: MatmulShaderSettings,
    pub extents: QExtents,
    /// Layout of the activations.
    pub input1: Layout,
    /// Layout of the weights: rows adjacent, each `k` elements from the next.
    pub input2: Layout,
}

/// What a [`SgemmCommand`] stands for.
pub struct SgemmView {
    pub pipeline: QPipeline,
    pub bindings: Seq<QBuffer>,
    pub settings: MatmulShaderSettings,
    pub extents: QExtents,
    pub input1: LayoutView,
    pub input2: LayoutView,
}

/// Workgroups of a tiled product, one for each tile of every batch entry; there
/// are none where a tile is empty, or where 32 bits do not count them.
pub open spec fn tile_groups(t: GenericMatmulSettings, e: QExtents) -> Option<Groups> {
    if t.n_tile == 0 || t.m_tile == 0 || e.n > u32::MAX || e.m > u32::MAX || e.b > u32::MAX {
        None
    } else {
        Some(
            Groups {
                x: ceil_div(e.n as nat, t.n_tile as nat) as u32,
                y: ceil_div(e.m as nat, t.m_tile as nat) as u32,
                z: e.b as u32,
            },
        )
    }
}

/// Tiles that `n` entries take.
fn tiles(n: u32, tile: usize) -> (r: u32)
    requires
        tile > 0,
    ensures
        r == ceil_div(n as nat, tile as nat),
{
    if tile > 0xffff_ffff {
        proof {
            let (x, y) = (n as int, tile as int);
            assert((x + y - 1) / y == if x == 0 {
                0int
            } else {
                1
            }) by (nonlinear_arith)
                requires
                    0 <= x < y,
            ;
        }
        return if n == 0 {
            0
        } else {
            1
        };
    }
    div_ceil(n, tile as u32)
}

impl SgemmCommand {
    /// Workgroups of the product.
    pub fn groups(&self) -> (r: Option<Groups>)
        ensures
            r == tile_groups(self.settings.settings, self.extents),
    {
        let (t, e): (GenericMatmulSettings, QExtents) = (self.settings.settings, self.extents);
        if t.n_tile == 0 || t.m_tile == 0 || is_wide(e.n) || is_wide(e.m) || is_wide(e.b) {
            return None;
        }
        Some(
            Groups {
                x: tiles(e.n as u32, t.n_tile),
                y: tiles(e.m as u32, t.m_tile),
                z: e.b as u32,
            },
        )
    }
}

/// What a product asks of the GPU.
#[derive(Clone, Debug)]
pub enum FwdPlan {
    /// Pack the row, then multiply the packed row with the weights.
    PackedRow { blocks: WgpuStorage, pack: QCommand, multiply: QCommand },
    /// Multiply the tensor with the weights.
    Direct(QCommand),
    /// Multiply the tensor with the weights in tiles.
    Tiled(SgemmCommand),
}

/// What a [`FwdPlan`] stands for.
pub enum FwdPlanView {
    PackedRow { blocks: StorageView, pack: QCommandView, multiply: QCommandView },
    Direct(QCommandView),
    Tiled(SgemmView),
}

impl View for SgemmCommand {
    type V = SgemmView;

    open spec fn view(&self) -> SgemmView {
        SgemmView {
            pipeline: self.pipeline,
            bindings: self.bindings@,
            settings: self.settings,
            extents: self.extents,
            input1: self.input1@,
            input2: self.input2@,
        }
    }
}

impl View for FwdPlan {
    type V = FwdPlanView;

    open spec fn view(&self) -> FwdPlanView {
        match self {
            FwdPlan::PackedRow { blocks, pack, multiply } => FwdPlanView::PackedRow {
                blocks: blocks@,
                pack: pack@,
                multiply: multiply@,
            },
            FwdPlan::Direct(c) => FwdPlanView::Direct(c@),
            FwdPlan::Tiled(c) => FwdPlanView::Tiled(c@),
        }
    }
}

/// One command of a product.
#[derive(Clone, Debug)]
pub enum FwdStep {
    Run(QCommand),
    Tiled(SgemmCommand),
}

/// What a [`FwdStep`] stands for.
pub enum FwdStepView {
    Run(QCommandView),
    Tiled(SgemmView),
}

impl View for FwdStep {
    type V = FwdStepView;

    open spec fn view(&self) -> FwdStepView {
        match self {
            FwdStep::Run(c) => FwdStepView::Run(c@),
            FwdStep::Tiled(c) => FwdStepView::Tiled(c@),
        }
    }
}

/// The commands of a product, in the order in which they are queued: a row is
/// packed before the packed row is multiplied.
pub open spec fn steps_of(p: FwdPlanView) -> Seq<FwdStepView> {
    match p {
        FwdPlanView::PackedRow { pack, multiply, .. } => seq![
            FwdStepView::Run(pack),
            FwdStepView::Run(multiply),
        ],
        FwdPlanView::Direct(c) => seq![FwdStepView::Run(c)],
        FwdPlanView::Tiled(c) => seq![FwdStepView::Tiled(c)],
    }
}

impl FwdPlan {
    /// The commands of the product, in the order in which they are queued.
    pub fn steps(self) -> (r: Vec<FwdStep>)
        ensures
            r@.map_values(|s: FwdStep| s@) == steps_of(self@),
    {
        let mut r: Vec<FwdStep> = Vec::new();
        match self {
            FwdPlan::PackedRow { blocks: _, pack, multiply } => {
                r.push(FwdStep::Run(pack));
                r.push(FwdStep::Run(multiply));
            },
            FwdPlan::Direct(c) => {
                r.push(FwdStep::Run(c));
            },
            FwdPlan::Tiled(c) => {
                r.push(FwdStep::Tiled(c));
            },
        }
        proof {
            assert(r@.map_values(|s: FwdStep| s@) =~= steps_of(self@));
        }
        r
    }
}

/// A product: the storage and shape of its result, and how it is computed.
#[derive(Clone, Debug)]
pub struct Fwd {
    pub output: WgpuStorage,
    pub shape: Vec<usize>,
    pub plan: FwdPlan,
}

/// The extents of the product of a tensor of shape `dims` with weights of
/// shape `weights`.
pub open spec fn extents(weights: Seq<usize>, dims: Seq<usize>) -> QExtents {
    QExtents {
        b: if dims.len() == 3 {
            dims[0]
        } else {
            1
        },
        m: dims[dims.len() - 2],
        n: weights[0],
        k: weights[1],
    }
}

/// Why the shapes do not describe a product, if they do not; the first of
/// several reasons counts.
pub open spec fn fwd_refusal(weights: Seq<usize>, dims: Seq<usize>) -> Option<Error> {
    let op = Op::QMatmul;
    if dims.len() < 2 {
        Some(Error::BadRank { op, rank: dims.len() as usize })
    } else if weights.len() != 2 {
        Some(Error::BadRank { op, rank: weights.len() as usize })
    } else if dims.len() > 3 {
        Some(Error::BadRank { op, rank: dims.len() as usize })
    } else if dims.last() != weights[1] {
        Some(Error::ShapeMismatch { op })
    } else {
        None
    }
}

/// The stride that the product of the strides `stride` has `back` axes from
/// the last; one where there is no such axis.
pub open spec fn stride_from_end(stride: Seq<usize>, back: int) -> usize {
    if back < stride.len() {
        stride[stride.len() - 1 - back]
    } else {
        1
    }
}

/// The algorithm that runs: the configured one, or else the best.
pub open spec fn chosen(
    configured: QuantizedMatmulAlgorithm,
    dtype: GgmlDType,
    e: QExtents,
    stride_k: usize,
) -> QuantizedMatmulAlgorithm {
    match configured {
        QuantizedMatmulAlgorithm::Auto => best_algorithm(dtype, e, stride_k),
        _ => configured,
    }
}

/// Whether the product runs on packed rows: 4-bit weights, one adjacent row
/// that starts the storage and fills its blocks, and a device that has packed
/// dot products.
pub open spec fn runs_packed(
    alg: QuantizedMatmulAlgorithm,
    dtype: GgmlDType,
    device: WgpuDevice,
    e: QExtents,
    stride_k: usize,
    offset: usize,
) -> bool {
    &&& alg is Naive
    &&& e.m == 1 && e.b == 1
    &&& dtype is Q4K
    &&& device.features.dp4a
    &&& e.k % 256 == 0
    &&& stride_k == 1
    &&& offset == 0
}

/// Parameters of the direct kernels.
pub open spec fn direct_params(e: QExtents, l: LayoutView) -> Seq<usize> {
    seq![
        e.m,
        e.k,
        e.n,
        stride_from_end(l.stride, 2),
        l.start_offset,
        stride_from_end(l.stride, 0),
        stride_from_end(l.stride, 1),
    ]
}

/// A flag as a compile-time constant.
pub open spec fn flag(b: bool) -> usize {
    if b {
        1
    } else {
        0
    }
}

/// How the product of a tensor of layout `l` with the weights is computed.
pub open spec fn fwd_plan(
    configured: QuantizedMatmulAlgorithm,
    dtype: GgmlDType,
    device: WgpuDevice,
    weights: Seq<usize>,
    l: LayoutView,
) -> FwdPlanView {
    let e = extents(weights, l.dims);
    let stride_k = stride_from_end(l.stride, 0);
    let stride_m = stride_from_end(l.stride, 1);
    let alg = chosen(configured, dtype, e, stride_k);
    let workload = (e.k * e.m * e.n * e.b) as nat;
    if runs_packed(alg, dtype, device, e, stride_k, l.start_offset) {
        FwdPlanView::PackedRow {
            blocks: q8k_storage(device, (e.k / 256) as nat),
            pack: q8k_command(e.k),
            multiply: QCommandView {
                pipeline: QPipeline { dtype, function: QFunction::MatmulQ4kQ8kM1 },
                bindings: seq![QBuffer::Output, QBuffer::Packed, QBuffer::Weights],
                consts: Seq::empty(),
                params: direct_params(e, l),
                work: Work::Groups(Groups { x: e.n as u32, y: 1, z: 1 }),
                workload,
            },
        }
    } else {
        match alg {
            QuantizedMatmulAlgorithm::Tiled(settings) => FwdPlanView::Tiled(
                SgemmView {
                    pipeline: QPipeline { dtype, function: QFunction::MatmulSgemm },
                    bindings: seq![QBuffer::Output, QBuffer::Source, QBuffer::Weights],
                    settings,
                    extents: e,
                    input1: l,
                    input2: LayoutView {
                        dims: weights,
                        stride: seq![1usize, e.k],
                        start_offset: 0,
                    },
                },
            ),
            _ => FwdPlanView::Direct(
                QCommandView {
                    pipeline: QPipeline {
                        dtype,
                        function: if e.m == 1 {
                            QFunction::MatmulNaiveBlockM1
                        } else {
                            QFunction::MatmulNaiveBlock
                        },
                    },
                    bindings: seq![QBuffer::Output, QBuffer::Source, QBuffer::Weights],
                    consts: seq![flag(stride_k == 1), flag(stride_m == 1), flag(e.b != 1)],
                    params: direct_params(e, l),
                    work: Work::Groups(
                        if e.m == 1 {
                            Groups {
                                x: ceil_div((e.n as u32) as nat, 32) as u32,
                                y: 1,
                                z: e.b as u32,
                            }
                        } else {
                            Groups {
                                x: ceil_div((e.n as u32) as nat, 16) as u32,
                                y: ceil_div((e.m as u32) as nat, 16) as u32,
                                z: e.b as u32,
                            }
                        },
                    ),
                    workload,
                },
            ),
        }
    }
}

/// The result and the estimate of its cost can be counted.
pub open spec fn fwd_fits(weights: Seq<usize>, dims: Seq<usize>) -> bool {
    let e = extents(weights, dims);
    &&& e.k * e.m <= usize::MAX
    &&& e.k * e.m * e.n <= usize::MAX
    &&& e.k * e.m * e.n * e.b <= usize::MAX
    &&& e.b * e.m <= usize::MAX
    &&& e.b * e.m * e.n <= usize::MAX
    &&& e.b * e.m * e.n * 4 <= u64::MAX - 3
    &&& row_fits(e.k)
}

/// Shape of the result: the tensor's, the last axis having one entry per row
/// of the weights.
pub open spec fn fwd_shape(weights: Seq<usize>, dims: Seq<usize>) -> Seq<usize> {
    dims.drop_last().push(weights[0])
}

fn flag_of(b: bool) -> (r: usize)
    ensures
        r == flag(b),
{
    if b {
        1
    } else {
        0
    }
}

/// Parameters of the direct kernels.
fn push_params(e: QExtents, stride_b: usize, offset: usize, stride_k: usize, stride_m: usize) -> (r:
    Vec<usize>)
    ensures
        r@ == seq![e.m, e.k, e.n, stride_b, offset, stride_k, stride_m],
{
    let mut params: Vec<usize> = Vec::new();
    params.push(e.m);
    params.push(e.k);
    params.push(e.n);
    params.push(stride_b);
    params.push(offset);
    params.push(stride_k);
    params.push(stride_m);
    proof {
        assert(params@ =~= seq![e.m, e.k, e.n, stride_b, offset, stride_k, stride_m]);
    }
    params
}

/// The direct product.
fn direct_command(
    dtype: GgmlDType,
    e: QExtents,
    stride_b: usize,
    offset: usize,
    stride_k: usize,
    stride_m: usize,
    workload: usize,
) -> (r: QCommand)
    ensures
        r@.pipeline == (QPipeline {
            dtype,
            function: if e.m == 1 {
                QFunction::MatmulNaiveBlockM1
            } else {
                QFunction::MatmulNaiveBlock
            },
        }),
        r@.bindings == seq![QBuffer::Output, QBuffer::Source, QBuffer::Weights],
        r@.consts == seq![flag(stride_k == 1), flag(stride_m == 1), flag(e.b != 1)],
        r@.params == seq![e.m, e.k, e.n, stride_b, offset, stride_k, stride_m],
        r@.work == Work::Groups(
            if e.m == 1 {
                Groups { x: ceil_div((e.n as u32) as nat, 32) as u32, y: 1, z: e.b as u32 }
            } else {
                Groups {
                    x: ceil_div((e.n as u32) as nat, 16) as u32,
                    y: ceil_div((e.m as u32) as nat, 16) as u32,
                    z: e.b as u32,
                }
            },
        ),
        r@.workload == workload,
{
    let mut consts: Vec<usize> = Vec::new();
    consts.push(flag_of(stride_k == 1));
    consts.push(flag_of(stride_m == 1));
    consts.push(flag_of(e.b != 1));
    let n_word: u32 = #[verifier::truncate]
    (e.n as u32);
    let m_word: u32 = #[verifier::truncate]
    (e.m as u32);
    let b_word: u32 = #[verifier::truncate]
    (e.b as u32);
    let (function, groups): (QFunction, Groups) = if e.m == 1 {
        (QFunction::MatmulNaiveBlockM1, Groups { x: div_ceil(n_word, 32), y: 1, z: b_word })
    } else {
        (
            QFunction::MatmulNaiveBlock,
            Groups { x: div_ceil(n_word, 16), y: div_ceil(m_word, 16), z: b_word },
        )
    };
    let r = QCommand {
        pipeline: QPipeline { dtype, function },
        bindings: bind_three(QBuffer::Output, QBuffer::Source, QBuffer::Weights),
        consts,
        params: push_params(e, stride_b, offset, stride_k, stride_m),
        work: Work::Groups(groups),
        workload,
    };
    proof {
        assert(r@.consts =~= seq![flag(stride_k == 1), flag(stride_m == 1), flag(e.b != 1)]);
    }
    r
}

/// The product of the tensor that `layout` describes in a storage of `device`
/// with weights of shape `weights` and block type `dtype`. `configured` is
/// the algorithm that the device was set up with.
pub fn plan_fwd(
    configured: QuantizedMatmulAlgorithm,
    dtype: GgmlDType,
    device: WgpuDevice,
    weights: &Vec<usize>,
    layout: &Layout,
) -> (r: Result<Fwd, Error>)
    requires
        layout@.dims.len() == layout@.stride.len(),
        fwd_refusal(weights@, layout@.dims) is None ==> dtype.is_block_quantized() && fwd_fits(
            weights@,
            layout@.dims,
        ),
    ensures
        match r {
            Ok(f) => {
                let e = extents(weights@, layout@.dims);
                &&& fwd_refusal(weights@, layout@.dims) is None
                &&& f.output@ == out_storage(
                    "wgpu-quantized-out"@,
                    (e.b * e.m * e.n) as nat,
                    DType::F32,
                    device,
                )
                &&& f.shape@ == fwd_shape(weights@, layout@.dims)
                &&& f.plan@ == fwd_plan(configured, dtype, device, weights@, layout@)
            },
            Err(err) => fwd_refusal(weights@, layout@.dims) == Some(err),
        },
{
    let op: Op = Op::QMatmul;
    let rank: usize = layout.dims.len();
    if rank < 2 {
        return Err(Error::BadRank { op, rank });
    }
    if weights.len() != 2 {
        return Err(Error::BadRank { op, rank: weights.len() });
    }
    let (n, k): (usize, usize) = (weights[0], weights[1]);
    let (b, m): (usize, usize) = if rank == 3 {
        (layout.dims[0], layout.dims[1])
    } else if rank == 2 {
        (1, layout.dims[0])
    } else {
        return Err(Error::BadRank { op, rank });
    };
    if layout.dims[rank - 1] != k {
        return Err(Error::ShapeMismatch { op });
    }
    let e = QExtents { b, m, n, k };
    let mut shape: Vec<usize> = copy_dims(&layout.dims);
    shape.set(rank - 1, n);
    proof {
        assert(shape@ =~= fwd_shape(weights@, layout@.dims));
        assert(e == extents(weights@, layout@.dims));
        assert(1 * m == m) by (nonlinear_arith);
    }
    let stride_k: usize = layout.stride[rank - 1];
    let stride_m: usize = layout.stride[rank - 2];
    let stride_b: usize = if rank == 3 {
        layout.stride[0]
    } else {
        1
    };
    let output: WgpuStorage = output_storage("wgpu-quantized-out", b * m * n, DType::F32, device);
    let alg: QuantizedMatmulAlgorithm = match configured {
        QuantizedMatmulAlgorithm::Auto => get_best_algorithm(dtype, e, stride_k),
        QuantizedMatmulAlgorithm::Naive => QuantizedMatmulAlgorithm::Naive,
        QuantizedMatmulAlgorithm::Tiled(s) => QuantizedMatmulAlgorithm::Tiled(s),
    };
    let workload: usize = k * m * n * b;
    let naive: bool = match alg {
        QuantizedMatmulAlgorithm::Naive => true,
        _ => false,
    };
    if naive && m == 1 && b == 1 && dtype == GgmlDType::Q4K && device.supports_dp4a() && k % QK_K
        == 0 && stride_k == 1 && layout.start_offset == 0 {
        let (blocks, pack): (WgpuStorage, QCommand) = match quantize_row_to_q8k(&device, k) {
            Ok(p) => p,
            Err(err) => {
                return Err(err);
            },
        };
        let columns: u32 = #[verifier::truncate]
        (n as u32);
        let multiply = QCommand {
            pipeline: QPipeline { dtype, function: QFunction::MatmulQ4kQ8kM1 },
            bindings: bind_three(QBuffer::Output, QBuffer::Packed, QBuffer::Weights),
            consts: Vec::new(),
            params: push_params(e, stride_b, layout.start_offset, stride_k, stride_m),
            work: Work::Groups(Groups { x: columns, y: 1, z: 1 }),
            workload,
        };
        proof {
            let want = fwd_plan(configured, dtype, device, weights@, layout@);
            assert(multiply@ =~= want->multiply);
        }
        return Ok(Fwd { output, shape, plan: FwdPlan::PackedRow { blocks, pack, multiply } });
    }
    let plan: FwdPlan = match alg {
        QuantizedMatmulAlgorithm::Tiled(settings) => {
            let mut stride: Vec<usize> = Vec::new();
            stride.push(1);
            stride.push(k);
            let c = SgemmCommand {
                pipeline: QPipeline { dtype, function: QFunction::MatmulSgemm },
                bindings: bind_three(QBuffer::Output, QBuffer::Source, QBuffer::Weights),
                settings,
                extents: e,
                input1: Layout {
                    dims: copy_dims(&layout.dims),
                    stride: copy_dims(&layout.stride),
                    start_offset: layout.start_offset,
                },
                input2: Layout { dims: copy_dims(weights), stride, start_offset: 0 },
            };
            proof {
                assert(c@.input2.stride =~= seq![1usize, k]);
            }
            FwdPlan::Tiled(c)
        },
        _ => {
            let c: QCommand = direct_command(
                dtype,
                e,
                stride_b,
                layout.start_offset,
                stride_k,
                stride_m,
                workload,
            );
            proof {
                let want = fwd_plan(configured, dtype, device, weights@, layout@)->Direct_0;
                assert(c@ =~= want);
            }
            FwdPlan::Direct(c)
        },
    };
    Ok(Fwd { output, shape, plan })
}

/// The direct kernels cover the output: with extents below 32 bits, the tiles
/// of the workgroups reach every row and column.
pub proof fn law_direct_covers_output(e: QExtents, row: nat, col: nat)
    requires
        e.m <= u32::MAX,
        e.n <= u32::MAX,
        row < e.m,
        col < e.n,
    ensures
        e.m == 1 ==> row == 0 && col / 32 < ceil_div((e.n as u32) as nat, 32),
        e.m != 1 ==> row / 16 < ceil_div((e.m as u32) as nat, 16) && col / 16 < ceil_div(
            (e.n as u32) as nat,
            16,
        ),
{
}

} // verus!
