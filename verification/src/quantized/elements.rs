//! Which elements the products with quantized weights work on.

use crate::layout::{product, strided_offset, LayoutView};
use crate::ops::products::lemma_matrix_element;
use crate::quantized::matmul::{direct_params, extents, fwd_refusal, fwd_shape, stride_from_end};
use vstd::prelude::*;

verus! {

/// A product with weights of `n` rows of `k` elements takes in rows of `k`
/// elements and gives rows of `n`, one for each row of the tensor.
pub proof fn law_fwd_shapes(weights: Seq<usize>, dims: Seq<usize>)
    requires
        fwd_refusal(weights, dims) is None,
    ensures
        ({
            let (e, out) = (extents(weights, dims), fwd_shape(weights, dims));
            &&& out.len() == dims.len()
            &&& forall|i: int| 0 <= i < dims.len() - 1 ==> #[trigger] out[i] == dims[i]
            &&& out.last() == weights[0] && dims.last() == weights[1]
            &&& e.n == out.last() && e.k == dims.last()
            &&& e.b * e.m == product(dims.drop_last())
        }),
{
    let d = dims.drop_last();
    reveal_with_fuel(product, 3);
    if d.len() == 1 {
        assert(d.drop_last() =~= Seq::<usize>::empty());
        assert(product(d) == 1 * (d.last() as nat));
    } else {
        let f = d.drop_last();
        assert(f.drop_last() =~= Seq::<usize>::empty());
        assert(f.last() == dims[0] && d.last() == dims[1]);
        assert(product(f) == 1 * (f.last() as nat));
        assert(product(d) == product(f) * (d.last() as nat));
    }
}

/// The direct kernels read, for element `k` of row `r` of batch entry `i`, that
/// element of the tensor.
pub proof fn law_fwd_elements(weights: Seq<usize>, l: LayoutView, i: nat, r: nat, k: nat)
    requires
        l.wf(),
        fwd_refusal(weights, l.dims) is None,
        i < extents(weights, l.dims).b,
        r < extents(weights, l.dims).m,
        k < extents(weights, l.dims).k,
    ensures
        ({
            let e = extents(weights, l.dims);
            let p = direct_params(e, l);
            &&& p[0] == e.m && p[1] == e.k && p[2] == e.n
            &&& p[4] + i * p[3] + r * p[6] + k * p[5] == l.address(
                ((i * e.m + r) * e.k + k) as nat,
            )
        }),
{
    let e = extents(weights, l.dims);
    let n = l.dims.len();
    lemma_matrix_element(l, i, r, k);
    let (d, s) = (l.dims.take(n - 2), l.stride.take(n - 2));
    reveal_with_fuel(strided_offset, 2);
    assert((i * e.m + r) * e.k + k >= 0) by (nonlinear_arith);
    if n == 3 {
        assert(d.drop_last() =~= Seq::<usize>::empty());
        assert(d.last() == l.dims[0] && s.last() == l.stride[0]);
        assert(i % (l.dims[0] as nat) == i) by (nonlinear_arith)
            requires
                i < l.dims[0],
        ;
        assert(strided_offset(d, s, i) == i * l.stride[0]);
        assert(stride_from_end(l.stride, 2) == l.stride[0]);
    } else {
        assert(d =~= Seq::<usize>::empty());
        assert(i == 0);
        assert(i * stride_from_end(l.stride, 2) == 0);
    }
}

} // verus!
