//! What formulas stand for: tensors of real numbers.

use crate::analysis::{larger, sum, Functions};
use crate::gemma4::config::{Activation, F64Bits};
use crate::tensor::op::{
    bin, leaf, tri, un, BinOp, Expr, KvPart, Leaf, MapOp, RopeTable, Scalar, TOp,
};
use vstd::prelude::*;

verus! {

/// A tensor of real numbers. An element that is gone is minus infinity; only
/// masks, and what they are added to, have such.
pub struct Tensor {
    pub dims: Seq<int>,
    pub at: spec_fn(Seq<int>) -> real,
    pub gone: spec_fn(Seq<int>) -> bool,
}

/// A tensor of numbers.
pub open spec fn tensor(dims: Seq<int>, at: spec_fn(Seq<int>) -> real) -> Tensor {
    Tensor { dims, at, gone: |i: Seq<int>| false }
}

/// What a program is run with.
pub struct World {
    pub m: Functions,
    /// The number that a bit pattern stands for.
    pub number: spec_fn(F64Bits) -> real,
    pub act: spec_fn(Activation, real) -> real,
    /// The weights and other tensors.
    pub leaf: spec_fn(Leaf) -> Tensor,
    /// The token at a place of the step.
    pub token: spec_fn(Seq<int>) -> int,
    /// The angle that a table has for a position and a pair of channels.
    pub angle: spec_fn(RopeTable, int, int) -> real,
    /// What a layer has cached.
    pub cached: spec_fn(usize, KvPart) -> Tensor,
    /// What a layer's cache gives back when it is given a tensor.
    pub appended: spec_fn(usize, KvPart, Tensor) -> Tensor,
}

impl World {
    /// The number that a formula's number stands for.
    pub open spec fn scalar(self, s: Scalar) -> real {
        match s {
            Scalar::One => 1real,
            Scalar::Bits(b) => (self.number)(b),
            Scalar::Count(n) => n as real,
            Scalar::Sqrt(n) => (self.m.sqrt)(n as real),
            Scalar::RecipSqrt(n) => 1real / (self.m.sqrt)(n as real),
            Scalar::Recip(n) => 1real / n as real,
        }
    }

    /// What an operation makes of an element.
    pub open spec fn each(self, op: MapOp, x: real) -> real {
        match op {
            MapOp::Sqr => x * x,
            MapOp::Sqrt => (self.m.sqrt)(x),
            MapOp::Tanh => self.m.tanh(x),
            MapOp::Act(a) => (self.act)(a, x),
            MapOp::Mul(s) => x * self.scalar(s),
            MapOp::Div(s) => x / self.scalar(s),
            MapOp::Add(s) => x + self.scalar(s),
            MapOp::AtLeast(s) => larger(x, self.scalar(s)),
            MapOp::ZerosLike => 0real,
            MapOp::Contiguous => x,
        }
    }
}

/// What an operation makes of two elements.
pub open spec fn zipped(op: BinOp, x: real, y: real) -> real {
    match op {
        BinOp::Add => x + y,
        BinOp::Sub => x - y,
        BinOp::Mul => x * y,
        BinOp::Div => x / y,
        BinOp::Maximum => larger(x, y),
    }
}

/// The place in a tensor of shape `b` that is read for place `i` of one that it
/// is spread over: aligned at the last axis, an axis of one entry repeated.
pub open spec fn spread_to(i: Seq<int>, b: Seq<int>) -> Seq<int> {
    Seq::new(
        b.len(),
        |j: int|
            if b[j] == 1 {
                0
            } else {
                i[i.len() - b.len() + j]
            },
    )
}

/// A place in a tensor of three axes.
pub open spec fn place3(a: int, b: int, c: int) -> Seq<int> {
    seq![a, b, c]
}

/// A place in a tensor of four axes.
pub open spec fn place4(a: int, b: int, c: int, d: int) -> Seq<int> {
    seq![a, b, c, d]
}

/// Place `i` with its last entry replaced.
pub open spec fn with_last(i: Seq<int>, k: int) -> Seq<int> {
    i.update(i.len() - 1, k)
}

/// Mean of the squares along the last axis.
pub open spec fn mean_square(x: Tensor, i: Seq<int>) -> real {
    sum(x.dims.last() as nat, |k: int| (x.at)(with_last(i, k)) * (x.at)(with_last(i, k)))
        / x.dims.last() as real
}

/// The part of an element in the sum along the last axis, after the
/// exponential function.
pub open spec fn raised(w: World, x: Tensor, i: Seq<int>) -> real {
    if (x.gone)(i) {
        0real
    } else {
        (w.m.exp)((x.at)(i))
    }
}

/// The channels of a head turn in pairs, one from each half.
pub open spec fn rotated(w: World, table: RopeTable, offset: int, x: Tensor, i: Seq<int>) -> real {
    let half = x.dims.last() / 2;
    let pos = offset + i[i.len() - 2];
    let j = i.last();
    if j < half {
        let a = (w.angle)(table, pos, j);
        (x.at)(i) * (w.m.cos)(a) - (x.at)(with_last(i, j + half)) * (w.m.sin)(a)
    } else {
        let a = (w.angle)(table, pos, j - half);
        (x.at)(with_last(i, j - half)) * (w.m.sin)(a) + (x.at)(i) * (w.m.cos)(a)
    }
}

/// Attention of query position `t` to `n` keys: the values, weighted by the
/// exponential function of the products of the query with the keys, times
/// `scale`, as far as they are visible.
pub open spec fn attended(
    w: World,
    n: nat,
    score: spec_fn(int) -> real,
    visible: spec_fn(int) -> bool,
    value: spec_fn(int) -> real,
) -> real {
    let e = |s: int|
        if visible(s) {
            (w.m.exp)(score(s))
        } else {
            0real
        };
    sum(n, |s: int| e(s) / sum(n, e) * value(s))
}

/// The product of two rows of `n` entries.
pub open spec fn dot(n: nat, a: spec_fn(int) -> real, b: spec_fn(int) -> real) -> real {
    sum(n, |e: int| a(e) * b(e))
}

/// What an operation makes of its operands.
pub open spec fn apply(w: World, op: TOp, xs: Seq<Tensor>) -> Tensor {
    let x = xs[0];
    let d = x.dims;
    let r = d.len() as int;
    match op {
        TOp::Leaf(l) => (w.leaf)(l),
        TOp::Each(f) => tensor(d, |i: Seq<int>| w.each(f, (x.at)(i))),
        TOp::Cast(_) => x,
        TOp::Zip(f) => Tensor {
            dims: d,
            at: |i: Seq<int>| zipped(f, (x.at)(i), (xs[1].at)(i)),
            gone: |i: Seq<int>| (x.gone)(i) || (xs[1].gone)(i),
        },
        TOp::ZipBroadcast(f) => Tensor {
            dims: d,
            at: |i: Seq<int>| zipped(f, (x.at)(i), (xs[1].at)(spread_to(i, xs[1].dims))),
            gone: |i: Seq<int>| (x.gone)(i) || (xs[1].gone)(spread_to(i, xs[1].dims)),
        },
        TOp::Linear => tensor(
            with_last(d, xs[1].dims[0]),
            |i: Seq<int>|
                sum(
                    d.last() as nat,
                    |k: int| (x.at)(with_last(i, k)) * (xs[1].at)(seq![i.last(), k]),
                ),
        ),
        TOp::LinearBias => tensor(
            with_last(d, xs[1].dims[0]),
            |i: Seq<int>|
                sum(
                    d.last() as nat,
                    |k: int| (x.at)(with_last(i, k)) * (xs[1].at)(seq![i.last(), k]),
                ) + (xs[2].at)(seq![i.last()]),
        ),
        TOp::RmsNorm(eps) => tensor(
            d,
            |i: Seq<int>|
                (x.at)(i) / (w.m.sqrt)(mean_square(x, i) + (w.number)(eps)) * (xs[1].at)(
                    seq![i.last()],
                ),
        ),
        TOp::SumKeepLast => tensor(
            with_last(d, 1),
            |i: Seq<int>| sum(d.last() as nat, |k: int| (x.at)(with_last(i, k))),
        ),
        TOp::MeanKeepLast => tensor(
            with_last(d, 1),
            |i: Seq<int>|
                sum(d.last() as nat, |k: int| (x.at)(with_last(i, k))) / d.last() as real,
        ),
        TOp::MeanFirst => tensor(
            d.skip(1),
            |i: Seq<int>| sum(d[0] as nat, |k: int| (x.at)(seq![k] + i)) / d[0] as real,
        ),
        TOp::SoftmaxLast => tensor(
            d,
            |i: Seq<int>|
                raised(w, x, i) / sum(d.last() as nat, |k: int| raised(w, x, with_last(i, k))),
        ),
        TOp::Matmul => tensor(
            with_last(d, xs[1].dims.last()),
            |i: Seq<int>|
                sum(
                    d.last() as nat,
                    |k: int| (x.at)(with_last(i, k)) * (xs[1].at)(i.update(i.len() - 2, k)),
                ),
        ),
        TOp::SplitLast { outer, inner } => tensor(
            d.drop_last().push(outer as int).push(inner as int),
            |i: Seq<int>| (x.at)(i.drop_last().drop_last().push(i[i.len() - 2] * inner + i.last())),
        ),
        TOp::MergeLast => tensor(
            d.drop_last().drop_last().push(d[r - 2] * d[r - 1]),
            |i: Seq<int>| (x.at)(i.drop_last().push(i.last() / d[r - 1]).push(i.last() % d[r - 1])),
        ),
        TOp::Transpose { a, b } => tensor(
            swapped(d, a as int, b as int),
            |i: Seq<int>| (x.at)(swapped(i, a as int, b as int)),
        ),
        TOp::Permute3 { a, b, c } => tensor(
            seq![d[a as int], d[b as int], d[c as int]],
            |i: Seq<int>|
                (x.at)(i.update(a as int, i[0]).update(b as int, i[1]).update(c as int, i[2])),
        ),
        TOp::Permute4 { a, b, c, d: e } => tensor(
            seq![d[a as int], d[b as int], d[c as int], d[e as int]],
            |i: Seq<int>|
                (x.at)(
                    i.update(a as int, i[0]).update(b as int, i[1]).update(c as int, i[2]).update(
                        e as int,
                        i[3],
                    ),
                ),
        ),
        TOp::Narrow { axis, start, len } => tensor(
            d.update(axis as int, len as int),
            |i: Seq<int>| (x.at)(i.update(axis as int, i[axis as int] + start)),
        ),
        TOp::Select { axis, index } => tensor(
            d.remove(axis as int),
            |i: Seq<int>| (x.at)(i.insert(axis as int, index as int)),
        ),
        TOp::Squeeze { axis } => tensor(
            d.remove(axis as int),
            |i: Seq<int>| (x.at)(i.insert(axis as int, 0)),
        ),
        TOp::Unsqueeze { axis } => tensor(
            d.insert(axis as int, 1),
            |i: Seq<int>| (x.at)(i.remove(axis as int)),
        ),
        TOp::ExpandFirst { n } => tensor(
            d.update(0, n as int),
            |i: Seq<int>| (x.at)(i.update(0, 0)),
        ),
        TOp::Stack => tensor(
            seq![xs.len() as int] + d,
            |i: Seq<int>| (xs[i[0]].at)(i.skip(1)),
        ),
        TOp::Rope { table, offset } => tensor(
            d,
            |i: Seq<int>| rotated(w, table, offset as int, x, i),
        ),
        TOp::RepeatKv { groups } => tensor(
            d.update(1, d[1] * groups),
            |i: Seq<int>| (x.at)(i.update(1, i[1] / groups as int)),
        ),
        TOp::CacheAppend { layer, part } => (w.appended)(layer, part, x),
        TOp::CacheConcat { layer, part } => {
            let old = (w.cached)(layer, part);
            tensor(
                d.update(2, old.dims[2] + d[2]),
                |i: Seq<int>|
                    if i[2] < old.dims[2] {
                        (old.at)(i)
                    } else {
                        (x.at)(i.update(2, i[2] - old.dims[2]))
                    },
            )
        },
        TOp::FlashAttnDecode { window } => {
            let n = xs[1].dims[2];
            tensor(
                d,
                |i: Seq<int>|
                    attended(
                        w,
                        n as nat,
                        |s: int|
                            dot(
                                d.last() as nat,
                                |e: int| (x.at)(with_last(i, e)),
                                |e: int| (xs[1].at)(seq![i[0], i[1], s, e]),
                            ),
                        |s: int| window matches Some(k) ==> s >= n - k,
                        |s: int| (xs[2].at)(seq![i[0], i[1], s, i[3]]),
                    ),
            )
        },
        TOp::FlashAttn { scale, causal } => {
            let n = xs[1].dims[1];
            tensor(
                d,
                |i: Seq<int>|
                    attended(
                        w,
                        n as nat,
                        |s: int|
                            dot(
                                d.last() as nat,
                                |e: int| (x.at)(with_last(i, e)),
                                |e: int| (xs[1].at)(seq![i[0], s, i[2], e]),
                            ) * w.scalar(scale),
                        |s: int| causal ==> s <= i[1] + n - d[1],
                        |s: int| (xs[2].at)(seq![i[0], s, i[2], i[3]]),
                    ),
            )
        },
        TOp::Embed => tensor(
            d.push(xs[1].dims[1]),
            |i: Seq<int>| (xs[1].at)(seq![(w.token)(i.drop_last()), i.last()]),
        ),
    }
}

/// Two entries exchanged.
pub open spec fn swapped(i: Seq<int>, a: int, b: int) -> Seq<int> {
    i.update(a, i[b]).update(b, i[a])
}

/// The tensor that a formula stands for.
pub open spec fn meaning(w: World, e: Expr) -> Tensor
    decreases e, 1nat,
{
    apply(w, e->Node_0, meanings(w, e))
}

/// The tensors that the operands of a formula stand for.
pub open spec fn meanings(w: World, e: Expr) -> Seq<Tensor>
    decreases e, 0nat,
{
    match e {
        Expr::Node(_, args) => Seq::new(
            args.len(),
            |i: int|
                if 0 <= i < args.len() {
                    meaning(w, args[i])
                } else {
                    arbitrary()
                },
        ),
    }
}

/// A tensor that is given stands for itself.
pub proof fn mean_leaf(w: World, l: Leaf)
    ensures
        meaning(w, leaf(l)) == (w.leaf)(l),
{
}

/// The operand of an operation on one tensor counts by what it stands for.
pub proof fn mean_un(w: World, op: TOp, x: Expr)
    ensures
        meaning(w, un(op, x)) == apply(w, op, seq![meaning(w, x)]),
{
    assert(meanings(w, un(op, x)) =~= seq![meaning(w, x)]);
}

/// The operands of an operation on two tensors count by what they stand for.
pub proof fn mean_bin(w: World, op: TOp, x: Expr, y: Expr)
    ensures
        meaning(w, bin(op, x, y)) == apply(w, op, seq![meaning(w, x), meaning(w, y)]),
{
    assert(meanings(w, bin(op, x, y)) =~= seq![meaning(w, x), meaning(w, y)]);
}

/// The operands of an operation on three tensors count by what they stand for.
pub proof fn mean_tri(w: World, op: TOp, x: Expr, y: Expr, z: Expr)
    ensures
        meaning(w, tri(op, x, y, z)) == apply(
            w,
            op,
            seq![meaning(w, x), meaning(w, y), meaning(w, z)],
        ),
{
    assert(meanings(w, tri(op, x, y, z)) =~= seq![meaning(w, x), meaning(w, y), meaning(w, z)]);
}

} // verus!
