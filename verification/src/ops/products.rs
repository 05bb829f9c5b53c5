//! Which elements the kernels of products, rows and selections work on.

use crate::layout::{product, strided_offset, LayoutView};
use crate::ops::dispatch::OutcomeView;
use crate::ops::matmul::{
    batch_stride, checked_numbers, law_batch_stride_walks_batches, lemma_no_wide_number,
    matmul_dispatch, plan_refusal, planned, Bmnk, MatmulVariant,
};
use crate::ops::softmax::{softmax_outcome, softmax_refusal};
use crate::storage::StorageView;
use vstd::arithmetic::div_mod::lemma_fundamental_div_mod_converse;
use vstd::prelude::*;

verus! {

/// Element (`r`, `k`) of matrix `i` of a stack of matrices.
pub proof fn lemma_matrix_element(l: LayoutView, i: nat, r: nat, k: nat)
    requires
        l.wf(),
        l.dims.len() >= 2,
        r < l.dims[l.dims.len() - 2],
        k < l.dims[l.dims.len() - 1],
    ensures
        ({
            let n = l.dims.len();
            let (rows, cols) = (l.dims[n - 2] as nat, l.dims[n - 1] as nat);
            strided_offset(l.dims, l.stride, (i * rows + r) * cols + k) == strided_offset(
                l.dims.take(n - 2),
                l.stride.take(n - 2),
                i,
            ) + r * l.stride[n - 2] + k * l.stride[n - 1]
        }),
{
    let n = l.dims.len();
    let (rows, cols) = (l.dims[n - 2] as nat, l.dims[n - 1] as nat);
    let x = (i * rows + r) * cols + k;
    lemma_fundamental_div_mod_converse(
        x as int,
        cols as int,
        (i * rows + r) as int,
        k as int,
    );
    lemma_fundamental_div_mod_converse(
        (i * rows + r) as int,
        rows as int,
        i as int,
        r as int,
    );
    let (d, s) = (l.dims.drop_last(), l.stride.drop_last());
    assert(d.last() == l.dims[n - 2] && s.last() == l.stride[n - 2]);
    assert(d.drop_last() =~= l.dims.take(n - 2));
    assert(s.drop_last() =~= l.stride.take(n - 2));
    reveal_with_fuel(strided_offset, 3);
}

/// The kernel of a product multiplies, for row `r` and column `c` of matrix `i`
/// of the result, the elements (`r`, `k`) of the left factor's matrix with the
/// elements (`k`, `c`) of the right one's, for each `k`, and puts the sum at
/// (`r`, `c`) of a contiguous result. A factor of one matrix counts for all.
pub proof fn law_matmul_elements(
    lhs: StorageView,
    e: Bmnk,
    a: LayoutView,
    b: LayoutView,
    variant: MatmulVariant,
    i: nat,
    r: nat,
    k: nat,
    c: nat,
)
    requires
        a.wf(),
        b.wf(),
        plan_refusal(e, a, b) is None,
        a.dims[a.dims.len() - 2] == e.m && a.dims[a.dims.len() - 1] == e.k,
        b.dims[b.dims.len() - 2] == e.k && b.dims[b.dims.len() - 1] == e.n,
        e.m * e.n <= usize::MAX,
        r < e.m && k < e.k && c < e.n,
    ensures
        ({
            let w = matmul_dispatch(lhs, planned(e, a, b), variant).kernel.meta;
            &&& w[0] == e.m && w[1] == e.n && w[2] == e.k && w[9] == e.b
            &&& i < product(a.dims.take(a.dims.len() - 2)) ==> w[13] + i * w[10] + r * w[3] + k
                * w[4] == a.address(((i * e.m + r) * e.k + k) as nat)
            &&& i < product(b.dims.take(b.dims.len() - 2)) ==> w[14] + i * w[11] + k * w[5] + c
                * w[6] == b.address(((i * e.k + k) * e.n + c) as nat)
            &&& i * w[12] + r * w[7] + c * w[8] == (i * e.m + r) * e.n + c
        }),
{
    let numbers = checked_numbers(e, a, b);
    lemma_no_wide_number(numbers, 0);
    assert(forall|j: int| 0 <= j < 15 ==> (#[trigger] numbers[j]).1 <= u32::MAX);
    assert(numbers[0].1 == e.b && numbers[1].1 == e.m && numbers[2].1 == e.n && numbers[3].1
        == e.k);
    assert(numbers[4].1 == a.stride[a.stride.len() - 2] && numbers[5].1 == a.stride[a.stride.len()
        - 1]);
    assert(numbers[6].1 == b.stride[b.stride.len() - 2] && numbers[7].1 == b.stride[b.stride.len()
        - 1]);
    assert(numbers[10].1 == batch_stride(a)->0 && numbers[11].1 == batch_stride(b)->0);
    assert(numbers[12].1 == (e.m * e.n) as usize);
    assert(numbers[13].1 == a.start_offset && numbers[14].1 == b.start_offset);
    lemma_matrix_element(a, i, r, k);
    lemma_matrix_element(b, i, k, c);
    if i < product(a.dims.take(a.dims.len() - 2)) {
        law_batch_stride_walks_batches(a, i);
    }
    if i < product(b.dims.take(b.dims.len() - 2)) {
        law_batch_stride_walks_batches(b, i);
    }
    assert((i * e.m + r) * e.k + k >= 0 && (i * e.k + k) * e.n + c >= 0) by (nonlinear_arith);
    let (m, n) = (e.m as int, e.n as int);
    assert(i * (m * n) + r * n + c == (i * m + r) * n + c) by (nonlinear_arith);
}

/// A softmax that runs has a workgroup for every row, as long as the last axis;
/// the rows make up the tensor.
pub proof fn law_softmax_rows(src: StorageView, l: LayoutView)
    requires
        softmax_refusal(src.dtype, l) is None,
        0 < product(l.dims) <= u32::MAX,
    ensures
        softmax_outcome(src, l) matches OutcomeView::Run(d) && {
            &&& d.kernel.meta[1] == l.dims.last()
            &&& d.kernel.meta[0] * d.kernel.meta[1] == product(l.dims)
            &&& d.kernel.groups.x == d.kernel.meta[0] && d.kernel.groups.y == 1
                && d.kernel.groups.z == 1
            &&& d.output.len == product(l.dims) && d.result_dtype == src.dtype
        },
{
    let (a, b) = (product(l.dims.drop_last()), l.dims.last() as nat);
    assert(a <= a * b && b <= a * b) by (nonlinear_arith)
        requires
            a * b > 0,
    ;
}

} // verus!
