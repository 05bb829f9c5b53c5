//! Batched matrix products.
//!
//! The kernel follows row, column and batch strides of both operands, so
//! that transposed and broadcast operands need no repacking; the output is
//! always contiguous. A workgroup computes one tile of one batch entry.

use crate::dtype::DType;
use crate::error::{Error, Op, Quantity};
use crate::layout::{product, strided_offset, Layout, LayoutView};
use crate::ops::dispatch::{
    ceil_div, div_ceil, is_wide, out_storage, output_storage, Dispatch, DispatchView, Groups,
    Kernel, KernelView, Lift, Template,
};
use crate::storage::{StorageView, WgpuStorage};
use vstd::arithmetic::div_mod::lemma_fundamental_div_mod;
use vstd::prelude::*;

verus! {

/// Rows and columns of a tile.
pub const TILE: u32 = 16;

/// Extents of a batched product: batch entries, rows and columns of the
/// output, and the length of the sums.
#[derive(Clone, Copy, Debug, PartialEq, Eq, Structural)]
pub struct Bmnk {
    pub b: usize,
    pub m: usize,
    pub n: usize,
    pub k: usize,
}

/// The numbers that the kernel runs on.
#[derive(Clone, Copy, Debug, PartialEq, Eq, Structural)]
pub struct MatmulPlan {
    pub b: u32,
    pub m: u32,
    pub n: u32,
    pub k: u32,
    pub a_stride_row: u32,
    pub a_stride_col: u32,
    pub b_stride_row: u32,
    pub b_stride_col: u32,
    pub c_stride_row: u32,
    pub c_stride_col: u32,
    pub a_batch_stride: u32,
    pub b_batch_stride: u32,
    pub c_batch_stride: u32,
    pub a_offset: u32,
    pub b_offset: u32,
}

/// The kernels that there are.
#[derive(Clone, Copy, Debug, PartialEq, Eq, Structural)]
pub enum MatmulVariant {
    F32,
    F16,
    BF16,
}

impl MatmulVariant {
    /// Key of the kernel's pipeline.
    pub open spec fn spec_cache_key(self) -> Seq<char> {
        match self {
            MatmulVariant::F32 => "matmul:f32"@,
            MatmulVariant::F16 => "matmul:f16"@,
            MatmulVariant::BF16 => "matmul:bf16"@,
        }
    }

    /// The kernel's shader.
    pub open spec fn spec_template(self) -> Template {
        match self {
            MatmulVariant::F32 => Template::Matmul,
            MatmulVariant::F16 => Template::MatmulF16,
            MatmulVariant::BF16 => Template::MatmulBf16,
        }
    }

    /// Dtype of the operands and the output.
    pub open spec fn spec_dtype(self) -> DType {
        match self {
            MatmulVariant::F32 => DType::F32,
            MatmulVariant::F16 => DType::F16,
            MatmulVariant::BF16 => DType::BF16,
        }
    }

    /// Key of the kernel's pipeline.
    pub fn cache_key(self) -> (r: &'static str)
        ensures
            r@ == self.spec_cache_key(),
    {
        match self {
            MatmulVariant::F32 => "matmul:f32",
            MatmulVariant::F16 => "matmul:f16",
            MatmulVariant::BF16 => "matmul:bf16",
        }
    }

    /// The kernel's shader.
    pub fn wgsl(self) -> (r: Template)
        ensures
            r == self.spec_template(),
    {
        match self {
            MatmulVariant::F32 => Template::Matmul,
            MatmulVariant::F16 => Template::MatmulF16,
            MatmulVariant::BF16 => Template::MatmulBf16,
        }
    }

    /// Bytes of one element.
    pub fn elem_bytes(self) -> (r: u64)
        ensures
            r == self.spec_dtype().spec_size_in_bytes(),
    {
        self.dtype().size_in_bytes() as u64
    }

    /// Dtype of the operands and the output.
    pub fn dtype(self) -> (r: DType)
        ensures
            r == self.spec_dtype(),
    {
        match self {
            MatmulVariant::F32 => DType::F32,
            MatmulVariant::F16 => DType::F16,
            MatmulVariant::BF16 => DType::BF16,
        }
    }
}

/// Whether the shader compiler accepts half-precision shaders. An adapter
/// that offers the feature is not enough.
pub fn wgsl_frontend_supports_f16() -> (r: bool)
    ensures
        !r,
{
    false
}

/// Whether the layout, of up to two batch axes, has one matrix only.
pub open spec fn is_single_matrix(l: LayoutView) -> bool {
    ||| l.stride.len() == 2
    ||| l.stride.len() == 3 && l.dims[0] == 1
    ||| l.stride.len() == 4 && l.dims[0] == 1 && l.dims[1] == 1
}

/// The one stride that walks the matrices of a batch, where there is one: zero
/// for a single matrix, which every entry of the batch reads anew, and for two
/// batch axes only if they can be walked as one.
pub open spec fn batch_stride(l: LayoutView) -> Option<usize> {
    if is_single_matrix(l) {
        Some(0)
    } else if l.stride.len() == 3 {
        Some(l.stride[0])
    } else if l.stride.len() == 4 {
        if l.stride[0] == l.stride[1] * l.dims[1] || l.dims[0] == 1 {
            Some(l.stride[1])
        } else if l.dims[1] == 1 {
            Some(l.stride[0])
        } else {
            None
        }
    } else {
        None
    }
}

/// Walking the batch with its one stride visits the matrices where the
/// layout has them.
pub proof fn law_batch_stride_walks_batches(l: LayoutView, i: nat)
    requires
        l.wf(),
        l.stride.len() >= 2,
        batch_stride(l) is Some,
        i < product(l.dims.take(l.dims.len() - 2)),
    ensures
        strided_offset(
            l.dims.take(l.dims.len() - 2),
            l.stride.take(l.dims.len() - 2),
            i,
        ) == i * batch_stride(l)->0,
{
    let r = l.dims.len() - 2;
    let (d, s) = (l.dims.take(r), l.stride.take(r));
    let w = batch_stride(l)->0 as nat;
    reveal_with_fuel(product, 3);
    reveal_with_fuel(strided_offset, 3);
    if r == 1 {
        let d0 = d[0] as nat;
        assert(d.last() == d[0]);
        assert(product(d.drop_last()) == 1);
        assert(product(d) == product(d.drop_last()) * d0);
        assert(i < d0 && i % d0 == i && i / d0 == 0) by (nonlinear_arith)
            requires
                i < 1 * d0,
        ;
        assert(d.drop_last() =~= Seq::<usize>::empty());
        assert(strided_offset(d, s, i) == i * (s.last() as nat));
        if d0 == 1 {
            assert(i * (s.last() as nat) == 0 && i * w == 0) by (nonlinear_arith)
                requires
                    i == 0,
            ;
        }
    } else if r == 2 {
        let (d0, d1, s0, s1) = (d[0] as nat, d[1] as nat, s[0] as nat, s[1] as nat);
        let head = d.drop_last();
        assert(head.last() == d[0]);
        assert(s.drop_last().last() == s[0]);
        assert(product(head.drop_last()) == 1);
        assert(product(head) == product(head.drop_last()) * d0);
        assert(product(d) == product(head) * d1);
        assert(i < d0 * d1) by (nonlinear_arith)
            requires
                i < (1 * d0) * d1,
        ;
        assert(d1 > 0 && d0 > 0) by (nonlinear_arith)
            requires
                i < d0 * d1,
        ;
        assert(i / d1 < d0) by (nonlinear_arith)
            requires
                i < d0 * d1,
                d1 > 0,
        ;
        let (q, t) = (i / d1, i % d1);
        assert(q % d0 == q) by (nonlinear_arith)
            requires
                q < d0,
        ;
        lemma_fundamental_div_mod(i as int, d1 as int);
        assert(strided_offset(d, s, i) == q * s0 + t * s1);
        if d0 == 1 && d1 == 1 {
            assert(q == 0 && t == 0);
            assert(q * s0 == 0 && t * s1 == 0 && i * w == 0) by (nonlinear_arith)
                requires
                    q == 0,
                    t == 0,
                    i == 0,
            ;
        } else if s0 == s1 * d1 {
            assert(q * (s1 * d1) + t * s1 == i * s1) by (nonlinear_arith)
                requires
                    i == d1 * q + t,
            ;
        } else if d0 == 1 {
            assert(q == 0);
            assert(q * s0 == 0) by (nonlinear_arith)
                requires
                    q == 0,
            ;
            assert(d1 * q == 0) by (nonlinear_arith)
                requires
                    q == 0,
            ;
            assert(i == t);
        } else {
            assert(d1 == 1);
            assert(t == 0);
            assert(d1 * q == q) by (nonlinear_arith)
                requires
                    d1 == 1,
            ;
            assert(i == q);
            assert(t * s1 == 0) by (nonlinear_arith)
                requires
                    t == 0,
            ;
        }
    } else {
        assert(product(d) == 1);
        assert(i == 0);
        assert(i * w == 0) by (nonlinear_arith)
            requires
                i == 0,
        ;
    }
}

/// An operand with a single matrix is broadcast over the batch: whatever its
/// strides, every entry of the batch reads that matrix.
pub proof fn law_single_matrix_is_broadcast(e: Bmnk, a: LayoutView, b: LayoutView)
    requires
        a.wf(),
        b.wf(),
        2 <= a.stride.len() <= 4,
        2 <= b.stride.len() <= 4,
    ensures
        product(a.dims.take(a.dims.len() - 2)) == 1 ==> planned(e, a, b).a_batch_stride == 0,
        product(b.dims.take(b.dims.len() - 2)) == 1 ==> planned(e, a, b).b_batch_stride == 0,
{
    lemma_one_matrix(a);
    lemma_one_matrix(b);
}

proof fn lemma_one_matrix(l: LayoutView)
    requires
        l.wf(),
        2 <= l.stride.len() <= 4,
    ensures
        product(l.dims.take(l.dims.len() - 2)) == 1 <==> is_single_matrix(l),
{
    let d = l.dims.take(l.dims.len() - 2);
    reveal_with_fuel(product, 3);
    if d.len() == 1 {
        assert(d.drop_last() =~= Seq::<usize>::empty());
        assert(product(d) == 1 * (d[0] as nat));
    } else if d.len() == 2 {
        let head = d.drop_last();
        assert(head.drop_last() =~= Seq::<usize>::empty());
        assert(product(head) == 1 * (d[0] as nat));
        assert(product(d) == (d[0] as nat) * (d[1] as nat));
        let (x, y) = (d[0] as nat, d[1] as nat);
        assert(x * y == 1 <==> x == 1 && y == 1) by (nonlinear_arith);
    }
}

/// The layouts describe a product of these extents whose numbers a machine
/// word can hold.
pub open spec fn extents_fit(e: Bmnk, a: LayoutView, b: LayoutView) -> bool {
    &&& a.wf() && b.wf()
    &&& e.m * e.n <= usize::MAX
    &&& e.b * (e.m * e.n) <= usize::MAX
    &&& e.b * (e.m * e.n) * 4 <= u64::MAX - 3
    &&& a.stride.len() == 4 ==> a.stride[1] * a.dims[1] <= usize::MAX
    &&& b.stride.len() == 4 ==> b.stride[1] * b.dims[1] <= usize::MAX
}

/// The numbers that must fit 32 bits, with what they are, in the order in
/// which they are looked at.
pub open spec fn checked_numbers(e: Bmnk, a: LayoutView, b: LayoutView) -> Seq<(Quantity, usize)> {
    let (p, q) = (a.stride.len(), b.stride.len());
    seq![
        (Quantity::Batch, e.b),
        (Quantity::M, e.m),
        (Quantity::N, e.n),
        (Quantity::K, e.k),
        (Quantity::LhsRowStride, a.stride[p - 2]),
        (Quantity::LhsColStride, a.stride[p - 1]),
        (Quantity::RhsRowStride, b.stride[q - 2]),
        (Quantity::RhsColStride, b.stride[q - 1]),
        (Quantity::OutRowStride, e.n),
        (Quantity::OutColStride, 1),
        (Quantity::LhsBatchStride, batch_stride(a)->0),
        (Quantity::RhsBatchStride, batch_stride(b)->0),
        (Quantity::OutBatchStride, (e.m * e.n) as usize),
        (Quantity::LhsOffset, a.start_offset),
        (Quantity::RhsOffset, b.start_offset),
    ]
}

/// The first of the numbers from `from` on that exceeds 32 bits.
pub open spec fn first_wide_number(numbers: Seq<(Quantity, usize)>, from: nat) -> Option<
    (Quantity, usize),
>
    decreases numbers.len() - from,
{
    if from >= numbers.len() {
        None
    } else if numbers[from as int].1 > u32::MAX {
        Some(numbers[from as int])
    } else {
        first_wide_number(numbers, from + 1)
    }
}

/// Whether an operand is broadcast along the summed axis.
pub open spec fn broadcast_sum(e: Bmnk, a: LayoutView, b: LayoutView) -> bool {
    e.k > 1 && (a.stride.last() == 0 || b.stride[b.stride.len() - 2] == 0)
}

/// Why the layouts do not describe a product, if they do not; the first of
/// several reasons counts.
pub open spec fn plan_refusal(e: Bmnk, a: LayoutView, b: LayoutView) -> Option<Error> {
    let op = Op::Matmul;
    if a.stride.len() < 2 {
        Some(Error::BadRank { op, rank: a.stride.len() as usize })
    } else if b.stride.len() < 2 {
        Some(Error::BadRank { op, rank: b.stride.len() as usize })
    } else if batch_stride(a) is None || batch_stride(b) is None {
        Some(Error::BatchLayout { op })
    } else if broadcast_sum(e, a, b) {
        Some(Error::BroadcastSum)
    } else {
        match first_wide_number(checked_numbers(e, a, b), 0) {
            Some((what, value)) => Some(Error::ExceedsU32 { op, what, value }),
            None => None,
        }
    }
}

/// The numbers of the product that the layouts describe.
pub open spec fn planned(e: Bmnk, a: LayoutView, b: LayoutView) -> MatmulPlan {
    let (p, q) = (a.stride.len(), b.stride.len());
    MatmulPlan {
        b: e.b as u32,
        m: e.m as u32,
        n: e.n as u32,
        k: e.k as u32,
        a_stride_row: a.stride[p - 2] as u32,
        a_stride_col: a.stride[p - 1] as u32,
        b_stride_row: b.stride[q - 2] as u32,
        b_stride_col: b.stride[q - 1] as u32,
        c_stride_row: e.n as u32,
        c_stride_col: 1,
        a_batch_stride: batch_stride(a)->0 as u32,
        b_batch_stride: batch_stride(b)->0 as u32,
        c_batch_stride: (e.m * e.n) as u32,
        a_offset: a.start_offset as u32,
        b_offset: b.start_offset as u32,
    }
}

/// The stride that walks the matrices of a batch.
fn find_batch_stride(l: &Layout) -> (r: Option<usize>)
    requires
        l@.wf(),
        l@.stride.len() >= 2,
        l@.stride.len() == 4 ==> l@.stride[1] * l@.dims[1] <= usize::MAX,
    ensures
        r == batch_stride(l@),
{
    let rank: usize = l.stride.len();
    if rank == 2 || (rank == 3 && l.dims[0] == 1) || (rank == 4 && l.dims[0] == 1 && l.dims[1]
        == 1) {
        Some(0)
    } else if rank == 3 {
        Some(l.stride[0])
    } else if rank == 4 {
        if l.stride[0] == l.stride[1] * l.dims[1] {
            Some(l.stride[1])
        } else if l.dims[0] == 1 {
            Some(l.stride[1])
        } else if l.dims[1] == 1 {
            Some(l.stride[0])
        } else {
            None
        }
    } else {
        None
    }
}

/// Checks that the layouts describe a product of the given extents, and
/// picks out the numbers that the kernel runs on.
pub fn plan(e: Bmnk, lhs_layout: &Layout, rhs_layout: &Layout) -> (r: Result<MatmulPlan, Error>)
    requires
        extents_fit(e, lhs_layout@, rhs_layout@),
    ensures
        match r {
            Ok(p) => plan_refusal(e, lhs_layout@, rhs_layout@) is None && p == planned(
                e,
                lhs_layout@,
                rhs_layout@,
            ),
            Err(err) => plan_refusal(e, lhs_layout@, rhs_layout@) == Some(err),
        },
{
    let op: Op = Op::Matmul;
    let lhs_rank: usize = lhs_layout.stride.len();
    let rhs_rank: usize = rhs_layout.stride.len();
    if lhs_rank < 2 {
        return Err(Error::BadRank { op, rank: lhs_rank });
    }
    if rhs_rank < 2 {
        return Err(Error::BadRank { op, rank: rhs_rank });
    }
    let (a_batch, b_batch): (usize, usize) = match (
        find_batch_stride(lhs_layout),
        find_batch_stride(rhs_layout),
    ) {
        (Some(x), Some(y)) => (x, y),
        _ => {
            return Err(Error::BatchLayout { op });
        },
    };
    let a_row: usize = lhs_layout.stride[lhs_rank - 2];
    let a_col: usize = lhs_layout.stride[lhs_rank - 1];
    let b_row: usize = rhs_layout.stride[rhs_rank - 2];
    let b_col: usize = rhs_layout.stride[rhs_rank - 1];
    if e.k > 1 && (a_col == 0 || b_row == 0) {
        return Err(Error::BroadcastSum);
    }
    let c_batch: usize = e.m * e.n;
    let mut numbers: Vec<(Quantity, usize)> = Vec::new();
    numbers.push((Quantity::Batch, e.b));
    numbers.push((Quantity::M, e.m));
    numbers.push((Quantity::N, e.n));
    numbers.push((Quantity::K, e.k));
    numbers.push((Quantity::LhsRowStride, a_row));
    numbers.push((Quantity::LhsColStride, a_col));
    numbers.push((Quantity::RhsRowStride, b_row));
    numbers.push((Quantity::RhsColStride, b_col));
    numbers.push((Quantity::OutRowStride, e.n));
    numbers.push((Quantity::OutColStride, 1));
    numbers.push((Quantity::LhsBatchStride, a_batch));
    numbers.push((Quantity::RhsBatchStride, b_batch));
    numbers.push((Quantity::OutBatchStride, c_batch));
    numbers.push((Quantity::LhsOffset, lhs_layout.start_offset));
    numbers.push((Quantity::RhsOffset, rhs_layout.start_offset));
    proof {
        assert(numbers@ =~= checked_numbers(e, lhs_layout@, rhs_layout@));
    }
    if let Some((what, value)) = find_wide_number(&numbers) {
        return Err(Error::ExceedsU32 { op, what, value });
    }
    proof {
        let c = checked_numbers(e, lhs_layout@, rhs_layout@);
        assert(c[0].1 <= u32::MAX && c[1].1 <= u32::MAX && c[2].1 <= u32::MAX && c[3].1 <= u32::MAX
            && c[4].1 <= u32::MAX && c[5].1 <= u32::MAX && c[6].1 <= u32::MAX && c[7].1 <= u32::MAX
            && c[10].1 <= u32::MAX && c[11].1 <= u32::MAX && c[12].1 <= u32::MAX && c[13].1
            <= u32::MAX && c[14].1 <= u32::MAX);
    }
    Ok(
        MatmulPlan {
            b: e.b as u32,
            m: e.m as u32,
            n: e.n as u32,
            k: e.k as u32,
            a_stride_row: a_row as u32,
            a_stride_col: a_col as u32,
            b_stride_row: b_row as u32,
            b_stride_col: b_col as u32,
            c_stride_row: e.n as u32,
            c_stride_col: 1,
            a_batch_stride: a_batch as u32,
            b_batch_stride: b_batch as u32,
            c_batch_stride: c_batch as u32,
            a_offset: lhs_layout.start_offset as u32,
            b_offset: rhs_layout.start_offset as u32,
        },
    )
}

/// None of the numbers exceeds 32 bits.
pub open spec fn all_narrow(numbers: Seq<(Quantity, usize)>) -> bool {
    forall|i: int| 0 <= i < numbers.len() ==> (#[trigger] numbers[i]).1 <= u32::MAX
}

pub proof fn lemma_no_wide_number(numbers: Seq<(Quantity, usize)>, from: nat)
    requires
        first_wide_number(numbers, from) is None,
    ensures
        forall|i: int| from <= i < numbers.len() ==> (#[trigger] numbers[i]).1 <= u32::MAX,
    decreases numbers.len() - from,
{
    if from < numbers.len() {
        lemma_no_wide_number(numbers, from + 1);
    }
}

fn find_wide_number(numbers: &Vec<(Quantity, usize)>) -> (r: Option<(Quantity, usize)>)
    ensures
        r == first_wide_number(numbers@, 0),
        r is None ==> all_narrow(numbers@),
{
    let mut i: usize = 0;
    while i < numbers.len()
        invariant
            0 <= i <= numbers@.len(),
            first_wide_number(numbers@, 0) == first_wide_number(numbers@, i as nat),
            forall|j: int| 0 <= j < i ==> (#[trigger] numbers@[j]).1 <= u32::MAX,
        decreases numbers.len() - i,
    {
        if is_wide(numbers[i].1) {
            return Some((numbers[i].0, numbers[i].1));
        }
        i = i + 1;
    }
    None
}

/// The dispatch of a product with the given numbers.
pub open spec fn matmul_dispatch(lhs: StorageView, p: MatmulPlan, variant: MatmulVariant)
    -> DispatchView {
    DispatchView {
        kernel: KernelView {
            key: variant.spec_cache_key(),
            template: variant.spec_template(),
            substitutions: Seq::empty(),
            meta: seq![
                p.m,
                p.n,
                p.k,
                p.a_stride_row,
                p.a_stride_col,
                p.b_stride_row,
                p.b_stride_col,
                p.c_stride_row,
                p.c_stride_col,
                p.b,
                p.a_batch_stride,
                p.b_batch_stride,
                p.c_batch_stride,
                p.a_offset,
                p.b_offset,
                0u32,
            ],
            groups: Groups {
                x: ceil_div(p.n as nat, TILE as nat) as u32,
                y: ceil_div(p.m as nat, TILE as nat) as u32,
                z: p.b,
            },
        },
        lifts: seq![Lift::AsIs, Lift::AsIs],
        output: out_storage(
            "wgpu-matmul-out"@,
            (p.b * (p.m * p.n)) as nat,
            variant.spec_dtype(),
            lhs.device,
        ),
        result_dtype: variant.spec_dtype(),
    }
}

/// The dispatch of a product with the given numbers; an empty output is
/// refused.
pub fn dispatch(lhs: &WgpuStorage, p: &MatmulPlan, variant: MatmulVariant) -> (r: Result<
    Dispatch,
    Error,
>)
    requires
        p.b * (p.m * p.n) <= usize::MAX,
        p.b * (p.m * p.n) * 4 <= u64::MAX - 3,
    ensures
        match r {
            Ok(d) => p.b * (p.m * p.n) > 0 && d@ == matmul_dispatch(lhs@, *p, variant),
            Err(e) => p.b * (p.m * p.n) == 0 && e == (Error::Empty { op: Op::Matmul }),
        },
{
    proof {
        let (b, mn) = (p.b as int, p.m * p.n);
        assert(mn <= u32::MAX * u32::MAX) by (nonlinear_arith)
            requires
                mn == p.m * p.n,
                0 <= p.m <= u32::MAX,
                0 <= p.n <= u32::MAX,
        ;
        assert(0 <= mn) by (nonlinear_arith)
            requires
                mn == p.m * p.n,
                0 <= p.m,
                0 <= p.n,
        ;
    }
    let mn: u64 = p.m as u64 * p.n as u64;
    let out_len: u64 = p.b as u64 * mn;
    if out_len == 0 {
        return Err(Error::Empty { op: Op::Matmul });
    }
    proof {
        let width = variant.spec_dtype().spec_size_in_bytes();
        assert(out_len * width <= out_len * 4) by (nonlinear_arith)
            requires
                width <= 4,
        ;
    }
    let mut meta: Vec<u32> = Vec::new();
    meta.push(p.m);
    meta.push(p.n);
    meta.push(p.k);
    meta.push(p.a_stride_row);
    meta.push(p.a_stride_col);
    meta.push(p.b_stride_row);
    meta.push(p.b_stride_col);
    meta.push(p.c_stride_row);
    meta.push(p.c_stride_col);
    meta.push(p.b);
    meta.push(p.a_batch_stride);
    meta.push(p.b_batch_stride);
    meta.push(p.c_batch_stride);
    meta.push(p.a_offset);
    meta.push(p.b_offset);
    meta.push(0);
    let mut lifts: Vec<Lift> = Vec::new();
    lifts.push(Lift::AsIs);
    lifts.push(Lift::AsIs);
    let d = Dispatch {
        kernel: Kernel {
            key: variant.cache_key().to_owned(),
            template: variant.wgsl(),
            substitutions: Vec::new(),
            meta,
            groups: Groups { x: div_ceil(p.n, TILE), y: div_ceil(p.m, TILE), z: p.b },
        },
        lifts,
        output: output_storage(
            "wgpu-matmul-out",
            out_len as usize,
            variant.dtype(),
            lhs.device,
        ),
        result_dtype: variant.dtype(),
    };
    proof {
        let want = matmul_dispatch(lhs@, *p, variant);
        assert(d@.kernel.meta =~= want.kernel.meta);
        assert(d@ =~= want);
    }
    Ok(d)
}

/// Why the product cannot be dispatched, if it cannot; the first of several
/// reasons counts.
pub open spec fn matmul_refusal(
    lhs: StorageView,
    rhs: DType,
    e: Bmnk,
    a: LayoutView,
    b: LayoutView,
) -> Option<Error> {
    let op = Op::Matmul;
    if lhs.dtype != rhs {
        Some(Error::DTypeMismatch { op, lhs: lhs.dtype, rhs })
    } else if plan_refusal(e, a, b) is Some {
        plan_refusal(e, a, b)
    } else if lhs.dtype is F16 {
        Some(
            if lhs.device.features.shader_f16 {
                Error::F16Unsupported { op }
            } else {
                Error::NoShaderF16 { op }
            },
        )
    } else if !(lhs.dtype is F32 || lhs.dtype is BF16) {
        Some(Error::UnsupportedDType { op, dtype: lhs.dtype })
    } else if e.b * (e.m * e.n) == 0 {
        Some(Error::Empty { op })
    } else {
        None
    }
}

/// The kernel for a dtype that has one.
pub open spec fn variant_of(dtype: DType) -> MatmulVariant {
    if dtype is BF16 {
        MatmulVariant::BF16
    } else {
        MatmulVariant::F32
    }
}

/// The dispatch of the product of the tensors that the layouts describe in
/// `lhs` and `rhs`.
pub fn matmul(
    lhs: &WgpuStorage,
    rhs: &WgpuStorage,
    e: Bmnk,
    lhs_layout: &Layout,
    rhs_layout: &Layout,
) -> (r: Result<Dispatch, Error>)
    requires
        extents_fit(e, lhs_layout@, rhs_layout@),
    ensures
        match r {
            Ok(d) => matmul_refusal(lhs@, rhs.dtype, e, lhs_layout@, rhs_layout@) is None && d@
                == matmul_dispatch(
                lhs@,
                planned(e, lhs_layout@, rhs_layout@),
                variant_of(lhs.dtype),
            ),
            Err(err) => matmul_refusal(lhs@, rhs.dtype, e, lhs_layout@, rhs_layout@) == Some(err),
        },
{
    let op: Op = Op::Matmul;
    if lhs.dtype != rhs.dtype {
        return Err(Error::DTypeMismatch { op, lhs: lhs.dtype, rhs: rhs.dtype });
    }
    let p: MatmulPlan = match plan(e, lhs_layout, rhs_layout) {
        Ok(p) => p,
        Err(err) => {
            return Err(err);
        },
    };
    proof {
        let c = checked_numbers(e, lhs_layout@, rhs_layout@);
        lemma_no_wide_number(c, 0);
        assert(c[0].1 <= u32::MAX && c[1].1 <= u32::MAX && c[2].1 <= u32::MAX);
        assert(p.b == e.b && p.m == e.m && p.n == e.n);
    }
    match lhs.dtype {
        DType::F32 => dispatch(lhs, &p, MatmulVariant::F32),
        DType::BF16 => dispatch(lhs, &p, MatmulVariant::BF16),
        DType::F16 => {
            if !lhs.device.supports_shader_f16() {
                return Err(Error::NoShaderF16 { op });
            }
            if !wgsl_frontend_supports_f16() {
                return Err(Error::F16Unsupported { op });
            }
            dispatch(lhs, &p, MatmulVariant::F16)
        },
        other => Err(Error::UnsupportedDType { op, dtype: other }),
    }
}

/// The tiles of a product cover its output: every row and column of every
/// batch entry is in exactly one workgroup's tile.
pub proof fn law_tiles_cover_output(m: u32, n: u32, row: nat, col: nat)
    requires
        row < m,
        col < n,
    ensures
        row / (TILE as nat) < ceil_div(m as nat, TILE as nat),
        col / (TILE as nat) < ceil_div(n as nat, TILE as nat),
        ceil_div(m as nat, TILE as nat) <= u32::MAX,
        ceil_div(n as nat, TILE as nat) <= u32::MAX,
{
}

/// The output of a product is contiguous: its strides are the row-major ones
/// of a (b, m, n) tensor.
pub proof fn law_output_contiguous(
    e: Bmnk,
    a: LayoutView,
    b: LayoutView,
    i: nat,
    row: nat,
    col: nat,
)
    requires
        extents_fit(e, a, b),
        plan_refusal(e, a, b) is None,
        i < e.b,
        row < e.m,
        col < e.n,
    ensures
        ({
            let p = planned(e, a, b);
            i * p.c_batch_stride + row * p.c_stride_row + col * p.c_stride_col == (i * e.m + row)
                * e.n + col
        }),
{
    let c = checked_numbers(e, a, b);
    lemma_no_wide_number(c, 0);
    assert(c[2].1 <= u32::MAX && c[12].1 <= u32::MAX);
    assert(i * (e.m * e.n) + row * e.n + col * 1 == (i * e.m + row) * e.n + col)
        by (nonlinear_arith);
}

} // verus!
