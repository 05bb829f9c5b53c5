//! Shapes, strides, and the addresses that they give to tensor elements.

use vstd::arithmetic::div_mod::lemma_fundamental_div_mod;
use vstd::arithmetic::mul::lemma_mul_inequality;
use vstd::arithmetic::mul::lemma_mul_is_associative;
use vstd::arithmetic::mul::lemma_mul_is_commutative;
use vstd::prelude::*;

verus! {

/// Product of the entries of `s`; one for the empty sequence.
pub open spec fn product(s: Seq<usize>) -> nat
    decreases s.len(),
{
    if s.len() == 0 {
        1
    } else {
        product(s.drop_last()) * (s.last() as nat)
    }
}

/// Multiplying the entries of `s`, from the front or from the back, never
/// leaves `usize`.
pub open spec fn countable(s: Seq<usize>) -> bool {
    &&& forall|i: int| 0 <= i <= s.len() ==> product(#[trigger] s.take(i)) <= usize::MAX
    &&& forall|i: int| 0 <= i <= s.len() ==> product(#[trigger] s.skip(i)) <= usize::MAX
}

/// Row-major strides of a tensor of shape `dims`: axis `i` steps over the
/// product of the axes behind it.
pub open spec fn contiguous_strides(dims: Seq<usize>) -> Seq<nat> {
    Seq::new(dims.len(), |i: int| product(dims.skip(i + 1)))
}

/// Element number `linear` of a tensor of shape `dims`, taken in row-major
/// order, lies this many elements behind the start of a tensor with the
/// given strides.
pub open spec fn strided_offset(dims: Seq<usize>, stride: Seq<usize>, linear: nat) -> nat
    decreases dims.len(),
{
    if dims.len() == 0 {
        0
    } else {
        strided_offset(dims.drop_last(), stride.drop_last(), linear / (dims.last() as nat))
            + (linear % (dims.last() as nat)) * (stride.last() as nat)
    }
}

/// The farthest element of a non-empty tensor, counted from its start.
pub open spec fn span(dims: Seq<usize>, stride: Seq<usize>) -> nat
    decreases dims.len(),
{
    if dims.len() == 0 {
        0
    } else {
        span(dims.drop_last(), stride.drop_last()) + ((dims.last() - 1) as nat) * (
        stride.last() as nat)
    }
}

pub proof fn lemma_product_positive(s: Seq<usize>)
    ensures
        product(s) > 0 <==> forall|i: int| 0 <= i < s.len() ==> s[i] > 0,
    decreases s.len(),
{
    if s.len() > 0 {
        let init = s.drop_last();
        lemma_product_positive(init);
        let a = product(init);
        let b = s.last() as nat;
        assert(a * b > 0 <==> a > 0 && b > 0) by (nonlinear_arith);
        if product(s) > 0 {
            assert forall|i: int| 0 <= i < s.len() implies s[i] > 0 by {
                if i < init.len() {
                    assert(s[i] == init[i]);
                }
            }
        }
        if forall|i: int| 0 <= i < s.len() ==> s[i] > 0 {
            assert forall|i: int| 0 <= i < init.len() implies init[i] > 0 by {
                assert(init[i] == s[i]);
            }
        }
    }
}

/// No axis of a non-empty tensor is longer than the tensor has elements.
pub proof fn lemma_axis_at_most_product(s: Seq<usize>, i: int)
    requires
        0 <= i < s.len(),
        product(s) > 0,
    ensures
        s[i] <= product(s),
    decreases s.len(),
{
    let init = s.drop_last();
    let a = product(init);
    let b = s.last() as nat;
    assert(a > 0 && b > 0) by (nonlinear_arith)
        requires
            a * b > 0,
    ;
    if i == s.len() - 1 {
        assert(b <= a * b) by (nonlinear_arith)
            requires
                a > 0,
        ;
    } else {
        lemma_axis_at_most_product(init, i);
        assert(a <= a * b) by (nonlinear_arith)
            requires
                b > 0,
        ;
    }
}

/// A shape and its tail: the product splits at every axis.
pub proof fn lemma_product_split(s: Seq<usize>, i: int)
    requires
        0 <= i <= s.len(),
    ensures
        product(s) == product(s.take(i)) * product(s.skip(i)),
    decreases s.len(),
{
    if i == s.len() {
        assert(s.take(i) =~= s);
        assert(s.skip(i) =~= Seq::<usize>::empty());
    } else {
        let init = s.drop_last();
        lemma_product_split(init, i);
        assert(init.take(i) =~= s.take(i));
        assert(s.skip(i).drop_last() =~= init.skip(i));
        assert(s.skip(i).last() == s.last());
        lemma_mul_is_associative(
            product(s.take(i)) as int,
            product(init.skip(i)) as int,
            s.last() as int,
        );
    }
}

/// Peeling the first axis off a shape.
pub proof fn lemma_product_first(s: Seq<usize>)
    requires
        s.len() > 0,
    ensures
        product(s) == s[0] * product(s.skip(1)),
{
    lemma_product_split(s, 1);
    assert(s.take(1).drop_last() =~= Seq::<usize>::empty());
    assert(product(s.take(1)) == s[0]) by {
        assert(s.take(1).last() == s[0]);
        reveal_with_fuel(product, 2);
    }
}

/// Every element of a tensor lies within the tensor's span.
pub proof fn lemma_offset_within_span(dims: Seq<usize>, stride: Seq<usize>, linear: nat)
    requires
        dims.len() == stride.len(),
        linear < product(dims),
    ensures
        strided_offset(dims, stride, linear) <= span(dims, stride),
    decreases dims.len(),
{
    if dims.len() > 0 {
        let a = product(dims.drop_last());
        let d = dims.last() as nat;
        assert(d > 0) by (nonlinear_arith)
            requires
                linear < a * d,
        ;
        assert(linear / d < a) by (nonlinear_arith)
            requires
                linear < a * d,
                d > 0,
        ;
        lemma_offset_within_span(dims.drop_last(), stride.drop_last(), linear / d);
        lemma_mul_inequality((linear % d) as int, (d - 1) as int, stride.last() as int);
    }
}

/// In a contiguous tensor the elements lie side by side, in row-major order.
pub proof fn lemma_contiguous_is_linear(dims: Seq<usize>, stride: Seq<usize>, linear: nat)
    requires
        dims.len() == stride.len(),
        linear < product(dims),
        forall|i: int|
            0 <= i < dims.len() && dims[i] > 1 ==> #[trigger] stride[i] == contiguous_strides(
                dims,
            )[i],
    ensures
        strided_offset(dims, stride, linear) == linear,
{
    lemma_scaled_is_linear(dims, stride, linear, 1);
}

/// The same for a tensor whose rows are `unit` elements apart.
proof fn lemma_scaled_is_linear(dims: Seq<usize>, stride: Seq<usize>, linear: nat, unit: nat)
    requires
        dims.len() == stride.len(),
        linear < product(dims),
        forall|i: int|
            0 <= i < dims.len() && dims[i] > 1 ==> #[trigger] stride[i] == product(
                dims.skip(i + 1),
            ) * unit,
    ensures
        strided_offset(dims, stride, linear) == linear * unit,
    decreases dims.len(),
{
    if dims.len() == 0 {
        assert(linear == 0);
        assert(0 * unit == 0);
    } else {
        let init = dims.drop_last();
        let a = product(init);
        let d = dims.last() as nat;
        let last = dims.len() - 1;
        assert(d > 0) by (nonlinear_arith)
            requires
                linear < a * d,
        ;
        assert(linear / d < a) by (nonlinear_arith)
            requires
                linear < a * d,
                d > 0,
        ;
        assert forall|i: int| 0 <= i < init.len() && init[i] > 1 implies #[trigger] stride.drop_last()[i]
            == product(init.skip(i + 1)) * (d * unit) by {
            assert(init[i] == dims[i]);
            assert(stride.drop_last()[i] == stride[i]);
            assert(dims.skip(i + 1).drop_last() =~= init.skip(i + 1));
            assert(dims.skip(i + 1).last() == dims.last());
            lemma_mul_is_associative(product(init.skip(i + 1)) as int, d as int, unit as int);
        }
        lemma_scaled_is_linear(init, stride.drop_last(), linear / d, d * unit);
        assert(dims.skip(last + 1) =~= Seq::<usize>::empty());
        if d > 1 {
            assert(stride[last] == 1 * unit);
        } else {
            assert(linear % d == 0);
        }
        assert((linear % d) * (stride.last() as nat) == (linear % d) * unit) by (nonlinear_arith)
            requires
                d > 1 ==> stride.last() as nat == unit,
                d <= 1 ==> linear % d == 0,
        ;
        lemma_fundamental_div_mod(linear as int, d as int);
        let (q, r) = (linear / d, linear % d);
        assert(q * (d * unit) + r * unit == linear * unit) by (nonlinear_arith)
            requires
                linear == d * q + r,
        ;
    }
}

/// Shape, strides and start of a tensor inside a storage; lengths, strides
/// and offset count elements.
#[derive(Clone, Debug)]
pub struct Layout {
    pub dims: Vec<usize>,
    pub stride: Vec<usize>,
    pub start_offset: usize,
}

/// What a [`Layout`] stands for.
pub struct LayoutView {
    pub dims: Seq<usize>,
    pub stride: Seq<usize>,
    pub start_offset: usize,
}

impl View for Layout {
    type V = LayoutView;

    open spec fn view(&self) -> LayoutView {
        LayoutView { dims: self.dims@, stride: self.stride@, start_offset: self.start_offset }
    }
}

impl LayoutView {
    /// One stride per axis, and an element count that a `usize` can hold.
    pub open spec fn wf(self) -> bool {
        &&& self.dims.len() == self.stride.len()
        &&& countable(self.dims)
    }

    /// Every axis that has more than one entry has its row-major stride.
    pub open spec fn is_contiguous(self) -> bool {
        forall|i: int|
            0 <= i < self.dims.len() && self.dims[i] > 1 ==> #[trigger] self.stride[i]
                == contiguous_strides(self.dims)[i]
    }

    /// Every axis has its row-major stride.
    pub open spec fn is_single_block(self) -> bool {
        forall|i: int|
            0 <= i < self.dims.len() ==> #[trigger] self.stride[i] == contiguous_strides(
                self.dims,
            )[i]
    }

    /// The row-major layout of the same shape, at offset zero.
    pub open spec fn contiguous(self) -> LayoutView {
        LayoutView {
            dims: self.dims,
            stride: contiguous_strides(self.dims).map_values(|n: nat| n as usize),
            start_offset: 0,
        }
    }

    /// Where element `linear` of the tensor lies in its storage.
    pub open spec fn address(self, linear: nat) -> nat {
        self.start_offset as nat + strided_offset(self.dims, self.stride, linear)
    }
}

/// Product of the entries of `dims`.
pub fn elem_count(dims: &[usize]) -> (r: usize)
    requires
        countable(dims@),
    ensures
        r == product(dims@),
{
    let mut acc: usize = 1;
    let mut i: usize = 0;
    while i < dims.len()
        invariant
            0 <= i <= dims@.len(),
            countable(dims@),
            acc == product(dims@.take(i as int)),
        decreases dims.len() - i,
    {
        proof {
            assert(dims@.take(i + 1).drop_last() =~= dims@.take(i as int));
            assert(product(dims@.take(i + 1)) == acc * dims@[i as int]);
        }
        acc = acc * dims[i];
        i = i + 1;
    }
    proof {
        assert(dims@.take(i as int) =~= dims@);
    }
    acc
}

impl Layout {
    /// The row-major layout of shape `dims`, at offset zero.
    pub fn contiguous(dims: Vec<usize>) -> (r: Layout)
        requires
            countable(dims@),
        ensures
            r@.wf(),
            r@.dims == dims@,
            r@.start_offset == 0,
            forall|i: int| 0 <= i < dims@.len() ==> r@.stride[i] == contiguous_strides(dims@)[i],
            r@ == r@.contiguous(),
    {
        let n: usize = dims.len();
        let mut stride: Vec<usize> = vec![1; n];
        let mut acc: usize = 1;
        let mut i: usize = n;
        proof {
            assert(dims@.skip(n as int) =~= Seq::<usize>::empty());
        }
        while i > 0
            invariant
                0 <= i <= n,
                n == dims@.len(),
                n == stride@.len(),
                countable(dims@),
                acc == product(dims@.skip(i as int)),
                forall|j: int| i <= j < n ==> stride@[j] == product(dims@.skip(j + 1)),
            decreases i,
        {
            i = i - 1;
            stride.set(i, acc);
            proof {
                lemma_product_first(dims@.skip(i as int));
                assert(dims@.skip(i as int).skip(1) =~= dims@.skip(i + 1));
                lemma_mul_is_commutative(acc as int, dims@[i as int] as int);
            }
            acc = acc * dims[i];
        }
        let r = Layout { dims, stride, start_offset: 0 };
        proof {
            assert forall|j: int| 0 <= j < n implies r@.stride[j] == contiguous_strides(
                dims@,
            )[j] by {}
            assert(r@.contiguous().stride =~= r@.stride);
        }
        r
    }

    /// Number of elements.
    pub fn elem_count(&self) -> (r: usize)
        requires
            self@.wf(),
        ensures
            r == product(self@.dims),
    {
        elem_count(self.dims.as_slice())
    }

    /// Whether every axis with more than one entry has its row-major stride.
    pub fn is_contiguous(&self) -> (r: bool)
        requires
            self@.wf(),
        ensures
            r == self@.is_contiguous(),
    {
        let n: usize = self.dims.len();
        let mut acc: usize = 1;
        let mut i: usize = n;
        proof {
            assert(self@.dims.skip(n as int) =~= Seq::<usize>::empty());
        }
        while i > 0
            invariant
                0 <= i <= n,
                n == self.dims@.len(),
                self@.wf(),
                acc == product(self@.dims.skip(i as int)),
                forall|j: int|
                    i <= j < n && self@.dims[j] > 1 ==> #[trigger] self@.stride[j] == product(
                        self@.dims.skip(j + 1),
                    ),
            decreases i,
        {
            i = i - 1;
            if self.dims[i] > 1 && self.stride[i] != acc {
                proof {
                    assert(self@.stride[i as int] != contiguous_strides(self@.dims)[i as int]);
                }
                return false;
            }
            proof {
                lemma_product_first(self@.dims.skip(i as int));
                assert(self@.dims.skip(i as int).skip(1) =~= self@.dims.skip(i + 1));
                lemma_mul_is_commutative(acc as int, self@.dims[i as int] as int);
            }
            acc = acc * self.dims[i];
        }
        true
    }

    /// Whether the tensor is one block of adjacent elements, every stride,
    /// also of axes with one entry, being the row-major one.
    pub fn is_single_block(&self) -> (r: bool)
        requires
            self@.wf(),
        ensures
            r == self@.is_single_block(),
    {
        let n: usize = self.dims.len();
        let mut acc: usize = 1;
        let mut i: usize = n;
        proof {
            assert(self@.dims.skip(n as int) =~= Seq::<usize>::empty());
        }
        while i > 0
            invariant
                0 <= i <= n,
                n == self.dims@.len(),
                self@.wf(),
                acc == product(self@.dims.skip(i as int)),
                forall|j: int|
                    i <= j < n ==> #[trigger] self@.stride[j] == product(self@.dims.skip(j + 1)),
            decreases i,
        {
            i = i - 1;
            if self.stride[i] != acc {
                proof {
                    assert(self@.stride[i as int] != contiguous_strides(self@.dims)[i as int]);
                }
                return false;
            }
            proof {
                lemma_product_first(self@.dims.skip(i as int));
                assert(self@.dims.skip(i as int).skip(1) =~= self@.dims.skip(i + 1));
                lemma_mul_is_commutative(acc as int, self@.dims[i as int] as int);
            }
            acc = acc * self.dims[i];
        }
        true
    }
}

} // verus!
