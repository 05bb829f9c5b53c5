//! Gathering entries along one axis.

use crate::dtype::DType;
use crate::error::{Error, Op, Quantity};
use crate::layout::{
    countable, elem_count, lemma_product_first, lemma_product_split, product, Layout, LayoutView,
};
use crate::ops::dispatch::{
    is_wide, linear_dispatch, linear_groups, out_storage, output_storage, Dispatch, DispatchView,
    Kernel, KernelView, Lift, Outcome, OutcomeView, Substitution, Template,
};
use crate::ops::scalar::{copy_dims, lift_of, scalar_for, widened};
use crate::storage::{zeroed, StorageView, WgpuStorage};
use vstd::arithmetic::div_mod::lemma_fundamental_div_mod;
use vstd::prelude::*;

verus! {

/// Shape of the result: the selected axis has one entry per index.
pub open spec fn selected_dims(dims: Seq<usize>, dim: int, n_ids: usize) -> Seq<usize> {
    dims.update(dim, n_ids)
}

/// What a selection asks of the GPU.
pub open spec fn select_outcome(src: StorageView, l: LayoutView, ids: LayoutView, dim: int)
    -> OutcomeView {
    let out = selected_dims(l.dims, dim, ids.dims[0]);
    let n = product(out);
    let view = widened(src.dtype, l);
    if n == 0 {
        OutcomeView::Ready(zeroed(src.device, src.dtype, out))
    } else {
        OutcomeView::Run(
            DispatchView {
                kernel: KernelView {
                    key: "index_select:f32"@,
                    template: Template::IndexSelect,
                    substitutions: seq![("__SCALAR_T__"@, "f32"@)],
                    meta: seq![
                        n as u32,
                        product(l.dims.take(dim)) as usize as u32,
                        l.dims[dim] as u32,
                        ids.dims[0] as u32,
                        product(l.dims.skip(dim + 1)) as usize as u32,
                        ids.start_offset as u32,
                        ids.stride[0] as u32,
                        view.start_offset as u32,
                    ],
                    groups: linear_groups(n),
                },
                lifts: seq![lift_of(src.dtype), Lift::AsIs],
                output: out_storage("wgpu-index-select-out"@, n, DType::F32, src.device),
                result_dtype: src.dtype,
            },
        )
    }
}

/// Why a selection is refused, if it is; the first of several reasons counts.
pub open spec fn select_refusal(
    dtype: DType,
    ids_dtype: DType,
    l: LayoutView,
    ids: LayoutView,
    dim: usize,
) -> Option<Error> {
    let op = Op::IndexSelect;
    let n = product(selected_dims(l.dims, dim as int, ids.dims[0]));
    if dtype is F16 {
        Some(Error::F16Unsupported { op })
    } else if !(dtype is F32 || dtype is BF16) {
        Some(Error::UnsupportedDType { op, dtype })
    } else if !(ids_dtype is U32) {
        Some(Error::UnsupportedDType { op, dtype: ids_dtype })
    } else if !l.is_contiguous() {
        Some(Error::NotContiguous { op })
    } else if ids.dims.len() != 1 {
        Some(Error::BadRank { op, rank: ids.dims.len() as usize })
    } else if dim >= l.dims.len() {
        Some(Error::DimOutOfRange { op, dim, rank: l.dims.len() as usize })
    } else if n > u32::MAX {
        Some(Error::ExceedsU32 { op, what: Quantity::ElementCount, value: n as usize })
    } else {
        None
    }
}

/// The selection, along axis `dim` of the contiguous tensor that `src_layout`
/// describes in `src`, of the entries that the index tensor lists. A bf16
/// tensor is widened, and the result narrowed.
pub fn index_select(
    src: &WgpuStorage,
    ids: &WgpuStorage,
    src_layout: &Layout,
    ids_layout: &Layout,
    dim: usize,
) -> (r: Result<Outcome, Error>)
    requires
        src_layout@.wf(),
        ids_layout@.wf(),
        ids_layout@.dims.len() == 1 && dim < src_layout@.dims.len() ==> countable(
            selected_dims(src_layout@.dims, dim as int, ids_layout@.dims[0]),
        ),
    ensures
        match r {
            Ok(o) => select_refusal(src.dtype, ids.dtype, src_layout@, ids_layout@, dim) is None
                && o@ == select_outcome(src@, src_layout@, ids_layout@, dim as int),
            Err(e) => select_refusal(src.dtype, ids.dtype, src_layout@, ids_layout@, dim) == Some(
                e,
            ),
        },
{
    let op: Op = Op::IndexSelect;
    match src.dtype {
        DType::F32 | DType::BF16 => {},
        DType::F16 => {
            return Err(Error::F16Unsupported { op });
        },
        other => {
            return Err(Error::UnsupportedDType { op, dtype: other });
        },
    }
    if ids.dtype != DType::U32 {
        return Err(Error::UnsupportedDType { op, dtype: ids.dtype });
    }
    let (view, lift): (Layout, Lift) = scalar_for(src.dtype, src_layout);
    if !src_layout.is_contiguous() {
        return Err(Error::NotContiguous { op });
    }
    if ids_layout.dims.len() != 1 {
        return Err(Error::BadRank { op, rank: ids_layout.dims.len() });
    }
    let n_ids: usize = ids_layout.dims[0];
    let rank: usize = src_layout.dims.len();
    if dim >= rank {
        return Err(Error::DimOutOfRange { op, dim, rank });
    }
    let ghost dims = src_layout@.dims;
    let mut out_dims: Vec<usize> = copy_dims(&src_layout.dims);
    out_dims.set(dim, n_ids);
    proof {
        assert(out_dims@ =~= selected_dims(dims, dim as int, n_ids));
    }
    let n: usize = elem_count(out_dims.as_slice());
    if n == 0 {
        proof {
            assert(product(out_dims@) * src.dtype.spec_size_in_bytes() == 0) by (nonlinear_arith)
                requires
                    product(out_dims@) == 0,
            ;
        }
        return match WgpuStorage::alloc_zeros(src.device, src.dtype, out_dims.as_slice()) {
            Ok(s) => Ok(Outcome::Ready(s)),
            Err(e) => Err(e),
        };
    }
    if is_wide(n) {
        return Err(Error::ExceedsU32 { op, what: Quantity::ElementCount, value: n });
    }
    let left: usize = prefix_count(&src_layout.dims, dim);
    let right: usize = suffix_count(&src_layout.dims, dim + 1);
    let mut meta: Vec<u32> = Vec::new();
    meta.push(n as u32);
    meta.push(
        #[verifier::truncate]
        (left as u32),
    );
    meta.push(
        #[verifier::truncate]
        (src_layout.dims[dim] as u32),
    );
    meta.push(
        #[verifier::truncate]
        (n_ids as u32),
    );
    meta.push(
        #[verifier::truncate]
        (right as u32),
    );
    meta.push(
        #[verifier::truncate]
        (ids_layout.start_offset as u32),
    );
    meta.push(
        #[verifier::truncate]
        (ids_layout.stride[0] as u32),
    );
    meta.push(
        #[verifier::truncate]
        (view.start_offset as u32),
    );
    let mut substitutions: Vec<Substitution> = Vec::new();
    substitutions.push(Substitution { marker: "__SCALAR_T__", text: "f32" });
    let mut lifts: Vec<Lift> = Vec::new();
    lifts.push(lift);
    lifts.push(Lift::AsIs);
    let d = Dispatch {
        kernel: Kernel {
            key: "index_select:f32".to_owned(),
            template: Template::IndexSelect,
            substitutions,
            meta,
            groups: linear_dispatch(n as u32),
        },
        lifts,
        output: output_storage("wgpu-index-select-out", n, DType::F32, src.device),
        result_dtype: src.dtype,
    };
    proof {
        let want = select_outcome(src@, src_layout@, ids_layout@, dim as int)->Run_0;
        assert(d@.kernel.meta =~= want.kernel.meta);
        assert(d@.kernel.substitutions =~= want.kernel.substitutions);
        assert(d@ =~= want);
    }
    Ok(Outcome::Run(d))
}

/// Product of the first `end` axes.
fn prefix_count(dims: &Vec<usize>, end: usize) -> (r: usize)
    requires
        countable(dims@),
        end <= dims@.len(),
    ensures
        r == product(dims@.take(end as int)),
{
    let mut acc: usize = 1;
    let mut i: usize = 0;
    while i < end
        invariant
            0 <= i <= end <= dims@.len(),
            countable(dims@),
            acc == product(dims@.take(i as int)),
        decreases end - i,
    {
        proof {
            assert(dims@.take(i + 1).drop_last() =~= dims@.take(i as int));
            assert(product(dims@.take(i + 1)) == acc * dims@[i as int]);
        }
        acc = acc * dims[i];
        i = i + 1;
    }
    acc
}

/// Product of the axes from `start` on.
fn suffix_count(dims: &Vec<usize>, start: usize) -> (r: usize)
    requires
        countable(dims@),
        start <= dims@.len(),
    ensures
        r == product(dims@.skip(start as int)),
{
    let mut acc: usize = 1;
    let mut i: usize = dims.len();
    proof {
        assert(dims@.skip(i as int) =~= Seq::<usize>::empty());
    }
    while i > start
        invariant
            start <= i <= dims@.len(),
            countable(dims@),
            acc == product(dims@.skip(i as int)),
        decreases i,
    {
        i = i - 1;
        proof {
            lemma_product_first(dims@.skip(i as int));
            assert(dims@.skip(i as int).skip(1) =~= dims@.skip(i + 1));
        }
        acc = dims[i] * acc;
    }
    acc
}

/// Place in the result of entry `j` of the selected axis.
pub open spec fn result_place(left: nat, j: nat, right_at: nat, n_ids: nat, right: nat) -> nat {
    (left * n_ids + j) * right + right_at
}

/// Every element of the result is read from one element of the source, which
/// lies inside the source if its index does: with an index `id` below the
/// axis's length, entry `(l, j, r)` of the result comes from `(l, id, r)`.
pub proof fn law_selected_in_source(dims: Seq<usize>, dim: int, n_ids: usize, i: nat, id: nat)
    requires
        0 <= dim < dims.len(),
        i < product(selected_dims(dims, dim, n_ids)),
        id < dims[dim],
    ensures
        ({
            let right = product(dims.skip(dim + 1));
            let (l, j, r) = (i / right / (n_ids as nat), i / right % (n_ids as nat), i % right);
            &&& right > 0 && n_ids > 0
            &&& l < product(dims.take(dim)) && j < n_ids && r < right
            &&& result_place(l, j, r, n_ids as nat, right) == i
            &&& result_place(l, id, r, dims[dim] as nat, right) < product(dims)
        }),
{
    let out = selected_dims(dims, dim, n_ids);
    let left = product(dims.take(dim));
    let right = product(dims.skip(dim + 1));
    let d = dims[dim] as nat;
    let k = n_ids as nat;
    lemma_product_split(dims, dim);
    lemma_product_split(out, dim);
    lemma_product_first(dims.skip(dim));
    lemma_product_first(out.skip(dim));
    assert(out.take(dim) =~= dims.take(dim));
    assert(out.skip(dim).skip(1) =~= dims.skip(dim + 1));
    assert(dims.skip(dim).skip(1) =~= dims.skip(dim + 1));
    assert(product(dims) == left * (d * right));
    assert(i < left * (k * right));
    assert(right > 0 && k > 0) by (nonlinear_arith)
        requires
            i < left * (k * right),
    ;
    let q = i / right;
    let r = i % right;
    lemma_fundamental_div_mod(i as int, right as int);
    assert(q < left * k) by (nonlinear_arith)
        requires
            i < left * (k * right),
            i == right * q + r,
            0 <= r,
            right > 0,
    ;
    let (l, j) = (q / k, q % k);
    lemma_fundamental_div_mod(q as int, k as int);
    assert(l < left) by (nonlinear_arith)
        requires
            q < left * k,
            q == k * l + j,
            0 <= j,
            k > 0,
    ;
    assert((l * k + j) * right + r == i) by (nonlinear_arith)
        requires
            i == right * q + r,
            q == k * l + j,
    ;
    assert((l * d + id) * right + r < left * (d * right)) by (nonlinear_arith)
        requires
            l < left,
            id < d,
            r < right,
    ;
}

} // verus!
