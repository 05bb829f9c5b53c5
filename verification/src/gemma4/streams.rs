//! Parallel hidden streams: from one state to a stack of them, and back.

use crate::dtype::DType;
use crate::gemma4::block::{each_of, hidden_type, stack_type, Style};
use crate::gemma4::config::F64Bits;
use crate::gemma4::layer::{active_of, Streams};
use crate::tensor::op::{
    bin, contiguous, linear, plus, un, BinOp, Expr, Leaf, MapOp, Scalar, StreamTensor, TOp,
};
use crate::tensor::program::{expr, extends, is, ty, Program, TypeView};
use vstd::prelude::*;

verus! {

/// The projection of stream `i`, which is not the active one.
pub open spec fn projection_of(s: Streams, i: int) -> int {
    if i < s.active {
        i
    } else {
        i - 1
    }
}

/// The stream of projection `k`.
pub open spec fn stream_of(s: Streams, k: int) -> int {
    if k < s.active {
        k
    } else {
        k + 1
    }
}

fn projection(s: &Streams, i: usize) -> (r: usize)
    requires
        i < s.n,
        i != s.active,
    ensures
        r == projection_of(*s, i as int),
{
    if i < s.active {
        i
    } else {
        i - 1
    }
}

/// Every stream but the active one has a projection of its own, and none of
/// the projections, one fewer than the streams, is left over.
pub proof fn law_projections_match_streams(s: Streams)
    requires
        s.wf(),
    ensures
        forall|i: int|
            0 <= i < s.n && i != s.active ==> 0 <= #[trigger] projection_of(s, i) < s.n - 1,
        forall|i: int, j: int|
            0 <= i < s.n && 0 <= j < s.n && i != s.active && j != s.active && projection_of(s, i)
                == projection_of(s, j) ==> i == j,
        forall|k: int|
            0 <= k < s.n - 1 ==> 0 <= #[trigger] stream_of(s, k) < s.n && stream_of(s, k)
                != s.active && projection_of(s, stream_of(s, k)) == k,
{
}

/// Root mean square along the last axis, in single precision.
pub open spec fn magnitude_of(x: Expr) -> Expr {
    each_of(
        MapOp::Sqrt,
        un(TOp::MeanKeepLast, each_of(MapOp::Sqr, un(TOp::Cast(DType::F32), x))),
    )
}

/// The type of the magnitudes of a hidden state.
pub open spec fn magnitude_type(c: Style) -> TypeView {
    TypeView { dtype: DType::F32, dims: seq![c.batch, c.len, 1usize] }
}

/// Adds the magnitude of every position.
pub fn magnitude_per_token(p: &mut Program, x: usize) -> (r: usize)
    requires
        old(p).wf(),
        x < old(p)@.len(),
        ty(old(p)@, x as nat).dims.len() == 3,
    ensures
        final(p).wf(),
        extends(old(p)@, final(p)@),
        is(
            final(p)@,
            r,
            magnitude_of(expr(old(p)@, x as nat)),
            TypeView {
                dtype: DType::F32,
                dims: seq![
                    ty(old(p)@, x as nat).dims[0],
                    ty(old(p)@, x as nat).dims[1],
                    1usize,
                ],
            },
        ),
{
    let ghost d = ty(p@, x as nat).dims;
    let wide: usize = p.cast(x, DType::F32);
    let sq: usize = p.each(MapOp::Sqr, wide);
    let mean: usize = p.mean_keep_last(sq);
    proof {
        assert(ty(p@, mean as nat).dims =~= seq![d[0], d[1], 1usize]);
    }
    p.each(MapOp::Sqrt, mean)
}

/// The smallest magnitude that is divided by (1e-12 in single precision).
pub const FLOOR: u64 = 0x3d71_9799_8000_0000;

/// `x` scaled so that its magnitude is the given one.
pub open spec fn rescaled_of(dtype: DType, x: Expr, target: Expr) -> Expr {
    let wide = un(TOp::Cast(DType::F32), x);
    let mag = each_of(
        MapOp::AtLeast(Scalar::Bits(F64Bits { bits: FLOOR })),
        magnitude_of(wide),
    );
    let scale = bin(TOp::ZipBroadcast(BinOp::Div), target, mag);
    un(TOp::Cast(dtype), bin(TOp::ZipBroadcast(BinOp::Mul), wide, scale))
}

/// Adds `x` scaled so that its magnitude is the given one.
pub fn rescale_to_magnitude(p: &mut Program, c: &Style, x: usize, target: usize) -> (r: usize)
    requires
        old(p).wf(),
        x < old(p)@.len(),
        target < old(p)@.len(),
        ty(old(p)@, x as nat) == hidden_type(*c),
        ty(old(p)@, target as nat) == magnitude_type(*c),
    ensures
        final(p).wf(),
        extends(old(p)@, final(p)@),
        is(
            final(p)@,
            r,
            rescaled_of(c.dtype, expr(old(p)@, x as nat), expr(old(p)@, target as nat)),
            hidden_type(*c),
        ),
{
    let wide: usize = p.cast(x, DType::F32);
    let own: usize = magnitude_per_token(p, wide);
    let mag: usize = p.each(MapOp::AtLeast(Scalar::Bits(F64Bits { bits: FLOOR })), own);
    let scale: usize = p.zip_broadcast(BinOp::Div, target, mag);
    let scaled: usize = p.zip_broadcast(BinOp::Mul, wide, scale);
    p.cast(scaled, c.dtype)
}

/// Whether the streams are brought to the active one's magnitude.
#[derive(Clone, Copy, Debug, PartialEq, Eq, Structural)]
pub enum Rescale {
    Yes,
    No,
}

/// Stream `i` of the stack: `x` itself, or a projection of it.
pub open spec fn lifted_of(c: Style, s: Streams, rescale: Rescale, x: Expr, i: int) -> Expr {
    if i == s.active {
        x
    } else {
        let projected = linear(
            x,
            Leaf::Stream(projection_of(s, i) as usize, StreamTensor::Projection),
        );
        match rescale {
            Rescale::Yes => rescaled_of(c.dtype, projected, magnitude_of(x)),
            Rescale::No => projected,
        }
    }
}

/// The stack that a state is spread over.
pub open spec fn expanded_of(c: Style, s: Streams, rescale: Rescale, x: Expr) -> Expr {
    Expr::Node(TOp::Stack, Seq::new(s.n as nat, |i: int| lifted_of(c, s, rescale, x, i)))
}

/// Adds the projection of a hidden state that belongs to stream `i`.
fn project(
    p: &mut Program,
    c: &Style,
    s: &Streams,
    tensor: StreamTensor,
    i: usize,
    x: usize,
) -> (r: usize)
    requires
        old(p).wf(),
        x < old(p)@.len(),
        i < s.n,
        i != s.active,
        ty(old(p)@, x as nat) == hidden_type(*c),
    ensures
        final(p).wf(),
        extends(old(p)@, final(p)@),
        is(
            final(p)@,
            r,
            linear(
                expr(old(p)@, x as nat),
                Leaf::Stream(projection_of(*s, i as int) as usize, tensor),
            ),
            hidden_type(*c),
        ),
{
    let w: usize = p.leaf_2(Leaf::Stream(projection(s, i), tensor), c.dtype, c.hidden, c.hidden);
    let r: usize = p.linear(x, w);
    proof {
        assert(ty(p@, r as nat).dims =~= seq![c.batch, c.len, c.hidden]);
    }
    r
}

/// The step of `x` and the steps of the streams made so far are what they
/// should be.
spec fn collected(
    steps: Seq<crate::tensor::program::StepView>,
    c: Style,
    ids: Seq<usize>,
    f: spec_fn(int) -> Expr,
) -> bool {
    forall|j: int| 0 <= j < ids.len() ==> is(steps, #[trigger] ids[j], f(j), hidden_type(c))
}

/// Adds the stack of the given streams.
fn stack_streams(p: &mut Program, c: &Style, ids: Vec<usize>, Ghost(f): Ghost<spec_fn(int) -> Expr>) -> (r: usize)
    requires
        old(p).wf(),
        ids@.len() > 0,
        collected(old(p)@, *c, ids@, f),
    ensures
        final(p).wf(),
        extends(old(p)@, final(p)@),
        is(
            final(p)@,
            r,
            Expr::Node(TOp::Stack, Seq::new(ids@.len(), f)),
            stack_type(*c, ids@.len() as usize),
        ),
{
    let ghost n = ids@.len();
    proof {
        assert(is(p@, ids@[0], f(0), hidden_type(*c)));
        assert forall|j: int| 0 <= j < n implies (#[trigger] ids@[j]) < p@.len() && ty(
            p@,
            ids@[j] as nat,
        ) == ty(p@, ids@[0] as nat) by {
            assert(is(p@, ids@[j], f(j), hidden_type(*c)));
        }
        assert(ids@.map_values(|a: usize| expr(p@, a as nat)) =~= Seq::new(n, f)) by {
            assert forall|j: int| 0 <= j < n implies expr(p@, ids@[j] as nat) == f(j) by {
                assert(is(p@, ids@[j], f(j), hidden_type(*c)));
            }
        }
        assert(seq![c.batch, c.len, c.hidden].insert(0, n as usize) =~= seq![
            n as usize,
            c.batch,
            c.len,
            c.hidden,
        ]);
    }
    p.stack(ids)
}

/// Adds the stack that a state is spread over.
pub fn expand(p: &mut Program, c: &Style, s: &Streams, rescale: Rescale, x: usize) -> (r: usize)
    requires
        old(p).wf(),
        x < old(p)@.len(),
        s.wf(),
        ty(old(p)@, x as nat) == hidden_type(*c),
    ensures
        final(p).wf(),
        extends(old(p)@, final(p)@),
        is(
            final(p)@,
            r,
            expanded_of(*c, *s, rescale, expr(old(p)@, x as nat)),
            stack_type(*c, s.n),
        ),
{
    let ghost start = p@;
    let ghost e = expr(p@, x as nat);
    let ghost f = |i: int| lifted_of(*c, *s, rescale, e, i);
    let target: usize = match rescale {
        Rescale::Yes => magnitude_per_token(p, x),
        Rescale::No => x,
    };
    let mut ids: Vec<usize> = Vec::new();
    let mut i: usize = 0;
    while i < s.n
        invariant
            p.wf(),
            extends(start, p@),
            s.wf(),
            0 <= i <= s.n,
            ids@.len() == i,
            x < start.len(),
            e == expr(start, x as nat),
            ty(start, x as nat) == hidden_type(*c),
            rescale == Rescale::Yes ==> is(p@, target, magnitude_of(e), magnitude_type(*c)),
            f == |i: int| lifted_of(*c, *s, rescale, e, i),
            collected(p@, *c, ids@, f),
        decreases s.n - i,
    {
        let ghost before = p@;
        let id: usize = if i == s.active {
            x
        } else {
            let projected: usize = project(p, c, s, StreamTensor::Projection, i, x);
            match rescale {
                Rescale::Yes => rescale_to_magnitude(p, c, projected, target),
                Rescale::No => projected,
            }
        };
        let ghost done = ids@;
        ids.push(id);
        proof {
            assert forall|j: int| 0 <= j < ids@.len() implies is(
                p@,
                #[trigger] ids@[j],
                f(j),
                hidden_type(*c),
            ) by {
                if j < done.len() {
                    assert(is(before, done[j], f(j), hidden_type(*c)));
                }
            }
        }
        i = i + 1;
    }
    stack_streams(p, c, ids, Ghost(f))
}

/// Stream `i` of a stack, ready to be averaged with the others.
pub open spec fn lowered_of(c: Style, s: Streams, stack: Expr, i: int) -> Expr {
    if i == s.active {
        active_of(s, stack)
    } else {
        rescaled_of(
            c.dtype,
            linear(
                un(TOp::Select { axis: 0, index: i as usize }, stack),
                Leaf::Stream(projection_of(s, i) as usize, StreamTensor::UnembedProjection),
            ),
            magnitude_of(active_of(s, stack)),
        )
    }
}

/// The mean of the streams, all brought to the active one's magnitude.
pub open spec fn averaged_of(c: Style, s: Streams, stack: Expr) -> Expr {
    un(
        TOp::MeanFirst,
        Expr::Node(TOp::Stack, Seq::new(s.n as nat, |i: int| lowered_of(c, s, stack, i))),
    )
}

/// Adds the mean of the streams, all brought to the active one's magnitude.
pub fn average(p: &mut Program, c: &Style, s: &Streams, stack: usize) -> (r: usize)
    requires
        old(p).wf(),
        stack < old(p)@.len(),
        s.wf(),
        ty(old(p)@, stack as nat) == stack_type(*c, s.n),
    ensures
        final(p).wf(),
        extends(old(p)@, final(p)@),
        is(
            final(p)@,
            r,
            averaged_of(*c, *s, expr(old(p)@, stack as nat)),
            hidden_type(*c),
        ),
{
    let ghost start = p@;
    let ghost e = expr(p@, stack as nat);
    let ghost f = |i: int| lowered_of(*c, *s, e, i);
    let active: usize = p.select(stack, 0, s.active);
    proof {
        assert(ty(p@, active as nat).dims =~= seq![c.batch, c.len, c.hidden]);
    }
    let target: usize = magnitude_per_token(p, active);
    let mut ids: Vec<usize> = Vec::new();
    let mut i: usize = 0;
    while i < s.n
        invariant
            p.wf(),
            extends(start, p@),
            s.wf(),
            0 <= i <= s.n,
            ids@.len() == i,
            stack < start.len(),
            e == expr(start, stack as nat),
            ty(start, stack as nat) == stack_type(*c, s.n),
            is(p@, active, active_of(*s, e), hidden_type(*c)),
            is(p@, target, magnitude_of(active_of(*s, e)), magnitude_type(*c)),
            f == |i: int| lowered_of(*c, *s, e, i),
            collected(p@, *c, ids@, f),
        decreases s.n - i,
    {
        let ghost before = p@;
        let id: usize = if i == s.active {
            active
        } else {
            let one: usize = p.select(stack, 0, i);
            proof {
                assert(ty(p@, one as nat).dims =~= seq![c.batch, c.len, c.hidden]);
            }
            let projected: usize = project(p, c, s, StreamTensor::UnembedProjection, i, one);
            rescale_to_magnitude(p, c, projected, target)
        };
        let ghost done = ids@;
        ids.push(id);
        proof {
            assert forall|j: int| 0 <= j < ids@.len() implies is(
                p@,
                #[trigger] ids@[j],
                f(j),
                hidden_type(*c),
            ) by {
                if j < done.len() {
                    assert(is(before, done[j], f(j), hidden_type(*c)));
                }
            }
        }
        i = i + 1;
    }
    let all: usize = stack_streams(p, c, ids, Ghost(f));
    let r: usize = p.mean_first(all);
    proof {
        assert(ty(p@, r as nat).dims =~= seq![c.batch, c.len, c.hidden]);
    }
    r
}

/// The active stream and the projections of the first `k` others.
pub open spec fn summed_of(s: Streams, stack: Expr, k: nat) -> Expr
    decreases k,
{
    if k == 0 {
        contiguous(active_of(s, stack))
    } else {
        let before = summed_of(s, stack, (k - 1) as nat);
        if k - 1 == s.active {
            before
        } else {
            plus(
                before,
                linear(
                    un(TOp::Select { axis: 0, index: (k - 1) as usize }, stack),
                    Leaf::Stream(projection_of(s, k - 1) as usize, StreamTensor::UnembedProjection),
                ),
            )
        }
    }
}

/// Adds the sum of the active stream and the projections of all others.
pub fn sum_streams(p: &mut Program, c: &Style, s: &Streams, stack: usize) -> (r: usize)
    requires
        old(p).wf(),
        stack < old(p)@.len(),
        s.wf(),
        ty(old(p)@, stack as nat) == stack_type(*c, s.n),
    ensures
        final(p).wf(),
        extends(old(p)@, final(p)@),
        is(
            final(p)@,
            r,
            summed_of(*s, expr(old(p)@, stack as nat), s.n as nat),
            hidden_type(*c),
        ),
{
    let ghost start = p@;
    let ghost e = expr(p@, stack as nat);
    let active: usize = p.select(stack, 0, s.active);
    proof {
        assert(ty(p@, active as nat).dims =~= seq![c.batch, c.len, c.hidden]);
    }
    let mut acc: usize = p.each(MapOp::Contiguous, active);
    let mut i: usize = 0;
    while i < s.n
        invariant
            p.wf(),
            extends(start, p@),
            s.wf(),
            0 <= i <= s.n,
            stack < start.len(),
            e == expr(start, stack as nat),
            ty(start, stack as nat) == stack_type(*c, s.n),
            is(p@, acc, summed_of(*s, e, i as nat), hidden_type(*c)),
        decreases s.n - i,
    {
        if i != s.active {
            let one: usize = p.select(stack, 0, i);
            proof {
                assert(ty(p@, one as nat).dims =~= seq![c.batch, c.len, c.hidden]);
            }
            let projected: usize = project(p, c, s, StreamTensor::UnembedProjection, i, one);
            acc = p.zip(BinOp::Add, acc, projected);
        }
        i = i + 1;
    }
    acc
}

} // verus!
