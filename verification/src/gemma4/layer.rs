//! What a decoder layer does around its attention.

use crate::error::Error;
use crate::gemma4::block::{
    correct, correct_of, each_of, go_together, hidden_type, laurel, laurel_of, mlp, mlp_of, norm,
    norm_of, predict, predict_of, side_channel, side_channel_of, stack_type, Style,
};
use crate::gemma4::config::F64Bits;
use crate::tensor::op::{
    bin, contiguous, leaf, plus, scaled, un, BinOp, Expr, LayerTensor, Leaf, MapOp, Scalar, TOp,
};
use crate::tensor::program::{expr, extends, fits_into, is, ty, Program, TypeView};
use vstd::prelude::*;

verus! {

/// The shape of a weight that is spread over a hidden state.
#[derive(Clone, Copy, Debug, PartialEq, Eq, Structural)]
pub struct Spread {
    /// Number of axes; more than three are never spread.
    pub rank: usize,
    pub d0: usize,
    pub d1: usize,
    pub d2: usize,
}

impl Spread {
    /// The extents of the axes.
    pub open spec fn dims(self) -> Seq<usize> {
        if self.rank == 0 {
            Seq::empty()
        } else if self.rank == 1 {
            seq![self.d0]
        } else if self.rank == 2 {
            seq![self.d0, self.d1]
        } else {
            seq![self.d0, self.d1, self.d2]
        }
    }

    /// Whether the weight can be spread over the states of a pass.
    pub open spec fn fits(self, c: Style) -> bool {
        self.rank <= 3 && fits_into(self.dims(), hidden_type(c).dims)
    }

    /// A vector of `n` entries.
    pub open spec fn spec_vector(n: usize) -> Spread {
        Spread { rank: 1, d0: n, d1: 1, d2: 1 }
    }

    /// A vector of `n` entries.
    pub fn vector(n: usize) -> (r: Spread)
        ensures
            r == Spread::spec_vector(n),
    {
        Spread { rank: 1, d0: n, d1: 1, d2: 1 }
    }

    /// The extents of the axes.
    fn to_vec(self) -> (r: Vec<usize>)
        requires
            self.rank <= 3,
        ensures
            r@ == self.dims(),
    {
        let mut r: Vec<usize> = Vec::new();
        if self.rank >= 1 {
            r.push(self.d0);
        }
        if self.rank >= 2 {
            r.push(self.d1);
        }
        if self.rank >= 3 {
            r.push(self.d2);
        }
        proof {
            assert(r@ =~= self.dims());
        }
        r
    }

    /// Whether the weight can be spread over the states of a pass.
    pub fn can_fit(self, c: &Style) -> (r: bool)
        ensures
            r == self.fits(*c),
    {
        let ghost a = hidden_type(*c).dims;
        let one_fits: bool = self.d0 == 1 || (if self.rank == 1 {
            self.d0 == c.hidden
        } else if self.rank == 2 {
            self.d0 == c.len
        } else {
            self.d0 == c.batch
        });
        let two_fit: bool = self.d1 == 1 || (if self.rank == 2 {
            self.d1 == c.hidden
        } else {
            self.d1 == c.len
        });
        let three_fit: bool = self.d2 == 1 || self.d2 == c.hidden;
        let r: bool = self.rank == 0 || (self.rank == 1 && one_fits) || (self.rank == 2 && one_fits
            && two_fit) || (self.rank == 3 && one_fits && two_fit && three_fit);
        proof {
            let d = self.dims();
            if self.rank == 1 {
                assert(d[0] == self.d0 && a[2] == c.hidden);
            } else if self.rank == 2 {
                assert(d[0] == self.d0 && d[1] == self.d1 && a[1] == c.len && a[2] == c.hidden);
            } else if self.rank == 3 {
                assert(d[0] == self.d0 && d[1] == self.d1 && d[2] == self.d2 && a[0] == c.batch
                    && a[1] == c.len && a[2] == c.hidden);
            }
        }
        r
    }
}

/// What a layer has beside its attention.
#[derive(Clone, Copy, Debug, PartialEq, Eq, Structural)]
pub struct LayerBody {
    pub layer: usize,
    /// Width of the feed-forward block.
    pub inner: usize,
    /// Threshold of its gate values in standard deviations, where they have
    /// one.
    pub z: Option<F64Bits>,
    /// Rank of the residual beside attention, where there is one.
    pub laurel: Option<usize>,
    /// Width of the auxiliary embedding, where the layer takes it in.
    pub side: Option<usize>,
    /// How many gate values the auxiliary embedding has.
    pub gate: usize,
    /// Shape of the scale of the corrected active stream.
    pub scale: Spread,
    /// Shape of the learned gain that the layer ends with, where it has one.
    pub gain: Option<Spread>,
}

impl LayerBody {
    /// Gate values and auxiliary embedding go together.
    pub open spec fn wf(&self) -> bool {
        self.side matches Some(w) ==> go_together(self.gate, w)
    }
}

/// A learned normalization of a hidden state.
pub open spec fn layer_norm_of(c: Style, layer: usize, w: LayerTensor, x: Expr) -> Expr {
    norm_of(c.norm, c.dtype, c.eps, c.hidden, x, Leaf::Layer(layer, w))
}

/// Adds a learned normalization of a hidden state.
pub fn layer_norm(p: &mut Program, c: &Style, layer: usize, w: LayerTensor, x: usize) -> (r: usize)
    requires
        old(p).wf(),
        x < old(p)@.len(),
        ty(old(p)@, x as nat) == hidden_type(*c),
    ensures
        final(p).wf(),
        extends(old(p)@, final(p)@),
        is(
            final(p)@,
            r,
            layer_norm_of(*c, layer, w, expr(old(p)@, x as nat)),
            hidden_type(*c),
        ),
{
    norm(p, c.norm, x, Leaf::Layer(layer, w), c.hidden, c.eps)
}

/// The low-rank residual merged with `x`, where there is one: their sum, over
/// the square root of two.
pub open spec fn merged_laurel_of(c: Style, l: LayerBody, x: Expr, normed: Expr) -> Expr {
    match l.laurel {
        Some(_) => scaled(plus(x, laurel_of(c, l.layer, normed)), Scalar::RecipSqrt(2)),
        None => x,
    }
}

fn merge_laurel(p: &mut Program, c: &Style, l: &LayerBody, x: usize, normed: usize) -> (r: usize)
    requires
        old(p).wf(),
        x < old(p)@.len(),
        normed < old(p)@.len(),
        ty(old(p)@, x as nat) == hidden_type(*c),
        ty(old(p)@, normed as nat) == hidden_type(*c),
    ensures
        final(p).wf(),
        extends(old(p)@, final(p)@),
        is(
            final(p)@,
            r,
            merged_laurel_of(
                *c,
                *l,
                expr(old(p)@, x as nat),
                expr(old(p)@, normed as nat),
            ),
            hidden_type(*c),
        ),
{
    match l.laurel {
        Some(rank) => {
            let low: usize = laurel(p, c, l.layer, rank, normed);
            let sum: usize = p.zip(BinOp::Add, x, low);
            p.each(MapOp::Mul(Scalar::RecipSqrt(2)), sum)
        },
        None => x,
    }
}

/// `x` and the feed-forward block's response to it.
pub open spec fn fed_forward_of(c: Style, l: LayerBody, x: Expr) -> Expr {
    let inner = mlp_of(
        c,
        l.layer,
        l.z,
        layer_norm_of(c, l.layer, LayerTensor::PreFeedforwardNorm, x),
    );
    plus(x, layer_norm_of(c, l.layer, LayerTensor::PostFeedforwardNorm, inner))
}

fn feed_forward(p: &mut Program, c: &Style, l: &LayerBody, x: usize) -> (r: usize)
    requires
        old(p).wf(),
        x < old(p)@.len(),
        ty(old(p)@, x as nat) == hidden_type(*c),
    ensures
        final(p).wf(),
        extends(old(p)@, final(p)@),
        is(final(p)@, r, fed_forward_of(*c, *l, expr(old(p)@, x as nat)), hidden_type(*c)),
{
    let normed: usize = layer_norm(p, c, l.layer, LayerTensor::PreFeedforwardNorm, x);
    let inner: usize = mlp(p, c, l.layer, l.inner, l.z, normed);
    let out: usize = layer_norm(p, c, l.layer, LayerTensor::PostFeedforwardNorm, inner);
    p.zip(BinOp::Add, x, out)
}

/// A layer's result: `x` is its input, `normed` the input normalized, `attn`
/// what attention made of that, `side` the auxiliary embedding that the layer
/// was given, if it was.
pub open spec fn classic_of(
    c: Style,
    l: LayerBody,
    x: Expr,
    normed: Expr,
    attn: Expr,
    side: Option<Expr>,
) -> Expr {
    let attended = plus(
        merged_laurel_of(
            c,
            l,
            layer_norm_of(c, l.layer, LayerTensor::PostAttentionNorm, attn),
            normed,
        ),
        x,
    );
    let fed = fed_forward_of(c, l, attended);
    let aided = match (l.side, side) {
        (Some(w), Some(s)) => plus(side_channel_of(c, l.layer, l.gate, w, fed, s), fed),
        _ => fed,
    };
    if l.gain is Some {
        bin(
            TOp::ZipBroadcast(BinOp::Mul),
            aided,
            leaf(Leaf::Layer(l.layer, LayerTensor::LayerScalar)),
        )
    } else {
        aided
    }
}

/// The auxiliary embedding, if it is given, is one that the layer can take.
pub open spec fn side_fits(p: &Program, c: Style, l: LayerBody, side: Option<usize>) -> bool {
    l.side matches Some(w) ==> (side matches Some(s) ==> s < p@.len() && ty(p@, s as nat) == (
    TypeView { dtype: c.dtype, dims: seq![c.batch, c.len, w] }))
}

/// The formula of an optional step.
pub open spec fn formula_of(p: &Program, id: Option<usize>) -> Option<Expr> {
    match id {
        Some(s) => Some(expr(p@, s as nat)),
        None => None,
    }
}

/// Adds what comes behind the attention of a layer.
pub fn classic(
    p: &mut Program,
    c: &Style,
    l: &LayerBody,
    x: usize,
    normed: usize,
    attn: usize,
    side: Option<usize>,
) -> (r: usize)
    requires
        old(p).wf(),
        x < old(p)@.len(),
        normed < old(p)@.len(),
        attn < old(p)@.len(),
        ty(old(p)@, x as nat) == hidden_type(*c),
        ty(old(p)@, normed as nat) == hidden_type(*c),
        ty(old(p)@, attn as nat) == hidden_type(*c),
        side_fits(old(p), *c, *l, side),
        l.wf(),
        l.gain matches Some(g) ==> g.fits(*c),
    ensures
        final(p).wf(),
        extends(old(p)@, final(p)@),
        is(
            final(p)@,
            r,
            classic_of(
                *c,
                *l,
                expr(old(p)@, x as nat),
                expr(old(p)@, normed as nat),
                expr(old(p)@, attn as nat),
                formula_of(old(p), side),
            ),
            hidden_type(*c),
        ),
{
    let post: usize = layer_norm(p, c, l.layer, LayerTensor::PostAttentionNorm, attn);
    let merged: usize = merge_laurel(p, c, l, post, normed);
    let attended: usize = p.zip(BinOp::Add, merged, x);
    let fed: usize = feed_forward(p, c, l, attended);
    let aided: usize = match (l.side, side) {
        (Some(width), Some(s)) => {
            let out: usize = side_channel(p, c, l.layer, l.gate, width, fed, s);
            p.zip(BinOp::Add, out, fed)
        },
        _ => fed,
    };
    match l.gain {
        Some(shape) => {
            let g: usize = p.leaf(
                Leaf::Layer(l.layer, LayerTensor::LayerScalar),
                c.dtype,
                shape.to_vec(),
            );
            p.zip_broadcast(BinOp::Mul, aided, g)
        },
        None => aided,
    }
}

/// The parallel streams of a model.
#[derive(Clone, Copy, Debug, PartialEq, Eq, Structural)]
pub struct Streams {
    pub n: usize,
    pub active: usize,
    /// Whether the corrected active stream is scaled before the auxiliary
    /// embedding's gate.
    pub correct_scale: bool,
}

impl Streams {
    /// The pairs of streams can be counted.
    pub open spec fn countable(&self) -> bool {
        self.n * self.n <= usize::MAX
    }

    /// One of the streams is the active one.
    pub open spec fn wf(&self) -> bool {
        self.active < self.n && self.countable()
    }
}

/// Why parallel streams cannot be run, if they cannot: none of them is the
/// active one.
pub open spec fn streams_refusal(streams: Option<Streams>) -> Option<Error> {
    match streams {
        Some(s) if s.active >= s.n => Some(Error::ActiveStream { active: s.active, n: s.n }),
        _ => None,
    }
}

/// Why parallel streams cannot be run, if they cannot.
pub fn check_streams(streams: &Option<Streams>) -> (r: Option<Error>)
    ensures
        r == streams_refusal(*streams),
{
    match streams {
        Some(s) => if s.active >= s.n {
            Some(Error::ActiveStream { active: s.active, n: s.n })
        } else {
            None
        },
        None => None,
    }
}

/// What the auxiliary embedding adds to each stream: nothing to the active
/// one, the same to all others.
pub open spec fn delta_of(s: Streams, first: Expr) -> Expr {
    Expr::Node(
        TOp::Stack,
        Seq::new(
            s.n as nat,
            |i: int|
                if i == s.active {
                    each_of(MapOp::ZerosLike, first)
                } else {
                    first
                },
        ),
    )
}

fn delta(p: &mut Program, c: &Style, s: &Streams, first: usize) -> (r: usize)
    requires
        old(p).wf(),
        first < old(p)@.len(),
        s.wf(),
        ty(old(p)@, first as nat) == hidden_type(*c),
    ensures
        final(p).wf(),
        extends(old(p)@, final(p)@),
        is(final(p)@, r, delta_of(*s, expr(old(p)@, first as nat)), stack_type(*c, s.n)),
{
    let ghost e = expr(p@, first as nat);
    let zero: usize = p.each(MapOp::ZerosLike, first);
    let mut slices: Vec<usize> = Vec::new();
    let mut i: usize = 0;
    while i < s.n
        invariant
            p.wf(),
            0 <= i <= s.n,
            slices@.len() == i,
            zero < p@.len(),
            first < p@.len(),
            forall|j: int|
                0 <= j < i ==> #[trigger] slices@[j] == if j == s.active {
                    zero
                } else {
                    first
                },
        decreases s.n - i,
    {
        if i == s.active {
            slices.push(zero);
        } else {
            slices.push(first);
        }
        i = i + 1;
    }
    let ghost want = Seq::new(
        s.n as nat,
        |i: int|
            if i == s.active {
                each_of(MapOp::ZerosLike, e)
            } else {
                e
            },
    );
    proof {
        assert(slices@.map_values(|a: usize| expr(p@, a as nat)) =~= want);
        assert(seq![c.batch, c.len, c.hidden].insert(0, s.n) =~= seq![
            s.n,
            c.batch,
            c.len,
            c.hidden,
        ]);
    }
    p.stack(slices)
}

/// The active stream's input to attention, before it is normalized.
pub open spec fn active_of(s: Streams, predictions: Expr) -> Expr {
    un(TOp::Select { axis: 0, index: s.active }, predictions)
}

/// What the active stream turns out to be.
pub open spec fn activated_of(
    c: Style,
    l: LayerBody,
    active: Expr,
    normed: Expr,
    attn: Expr,
) -> Expr {
    let gated = plus(active, layer_norm_of(c, l.layer, LayerTensor::PostAttentionNorm, attn));
    fed_forward_of(c, l, merged_laurel_of(c, l, gated, normed))
}

/// A layer's result on parallel streams: `predictions` are those of the
/// layer's input, `attn` is what attention made of the normalized active one.
pub open spec fn altup_of(
    c: Style,
    l: LayerBody,
    s: Streams,
    predictions: Expr,
    normed: Expr,
    attn: Expr,
    side: Option<Expr>,
) -> Expr {
    let activated = activated_of(c, l, active_of(s, predictions), normed, attn);
    let corrected = correct_of(c, l.layer, s.n, s.active, predictions, activated);
    match (l.side, side) {
        (Some(w), Some(input)) => {
            let dense = contiguous(active_of(s, corrected));
            let first = if s.correct_scale {
                bin(
                    TOp::ZipBroadcast(BinOp::Mul),
                    dense,
                    leaf(Leaf::Layer(l.layer, LayerTensor::AltupCorrectOutputScale)),
                )
            } else {
                dense
            };
            plus(corrected, delta_of(s, side_channel_of(c, l.layer, l.gate, w, first, input)))
        },
        _ => corrected,
    }
}

/// Adds the prediction of the streams and the active one's normalized input
/// to attention: the predictions, the active stream and the input.
pub fn altup_begin(p: &mut Program, c: &Style, layer: usize, s: &Streams, stack: usize) -> (r: (
    usize,
    usize,
    usize,
))
    requires
        old(p).wf(),
        stack < old(p)@.len(),
        s.wf(),
        ty(old(p)@, stack as nat) == stack_type(*c, s.n),
    ensures
        final(p).wf(),
        extends(old(p)@, final(p)@),
        is(
            final(p)@,
            r.0,
            predict_of(*c, layer, s.n, s.active, expr(old(p)@, stack as nat)),
            stack_type(*c, s.n),
        ),
        is(final(p)@, r.1, active_of(*s, expr(final(p)@, r.0 as nat)), hidden_type(*c)),
        is(
            final(p)@,
            r.2,
            layer_norm_of(*c, layer, LayerTensor::InputNorm, expr(final(p)@, r.1 as nat)),
            hidden_type(*c),
        ),
{
    let predictions: usize = predict(p, c, layer, s.n, s.active, stack);
    let active: usize = p.select(predictions, 0, s.active);
    proof {
        assert(ty(p@, active as nat).dims =~= seq![c.batch, c.len, c.hidden]);
    }
    let normed: usize = layer_norm(p, c, layer, LayerTensor::InputNorm, active);
    (predictions, active, normed)
}

/// Adds what comes behind the attention of a layer on parallel streams.
#[verifier::rlimit(40)]
pub fn altup(
    p: &mut Program,
    c: &Style,
    l: &LayerBody,
    s: &Streams,
    predictions: usize,
    active: usize,
    normed: usize,
    attn: usize,
    side: Option<usize>,
) -> (r: usize)
    requires
        old(p).wf(),
        predictions < old(p)@.len(),
        active < old(p)@.len(),
        normed < old(p)@.len(),
        attn < old(p)@.len(),
        s.wf(),
        ty(old(p)@, predictions as nat) == stack_type(*c, s.n),
        ty(old(p)@, active as nat) == hidden_type(*c),
        expr(old(p)@, active as nat) == active_of(*s, expr(old(p)@, predictions as nat)),
        ty(old(p)@, normed as nat) == hidden_type(*c),
        ty(old(p)@, attn as nat) == hidden_type(*c),
        side_fits(old(p), *c, *l, side),
        l.wf(),
        l.side is Some && side is Some && s.correct_scale ==> l.scale.fits(*c),
    ensures
        final(p).wf(),
        extends(old(p)@, final(p)@),
        is(
            final(p)@,
            r,
            altup_of(
                *c,
                *l,
                *s,
                expr(old(p)@, predictions as nat),
                expr(old(p)@, normed as nat),
                expr(old(p)@, attn as nat),
                formula_of(old(p), side),
            ),
            stack_type(*c, s.n),
        ),
{
    let post: usize = layer_norm(p, c, l.layer, LayerTensor::PostAttentionNorm, attn);
    let gated: usize = p.zip(BinOp::Add, active, post);
    let merged: usize = merge_laurel(p, c, l, gated, normed);
    let activated: usize = feed_forward(p, c, l, merged);
    let corrected: usize = correct(p, c, l.layer, s.n, s.active, predictions, activated);
    match (l.side, side) {
        (Some(width), Some(input)) => {
            let x: usize = p.select(corrected, 0, s.active);
            proof {
                assert(ty(p@, x as nat).dims =~= seq![c.batch, c.len, c.hidden]);
            }
            let dense: usize = p.each(MapOp::Contiguous, x);
            let first: usize = if s.correct_scale {
                let w: usize = p.leaf(
                    Leaf::Layer(l.layer, LayerTensor::AltupCorrectOutputScale),
                    c.dtype,
                    l.scale.to_vec(),
                );
                p.zip_broadcast(BinOp::Mul, dense, w)
            } else {
                dense
            };
            let out: usize = side_channel(p, c, l.layer, l.gate, width, first, input);
            let d: usize = delta(p, c, s, out);
            p.zip(BinOp::Add, corrected, d)
        },
        _ => corrected,
    }
}

} // verus!
