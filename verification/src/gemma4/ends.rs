//! Both ends of a pass: embeddings in, logits out.

use crate::dtype::DType;
use crate::gemma4::block::{each_of, hidden_type, norm, norm_of, Style};
use crate::gemma4::config::F64Bits;
use crate::tensor::op::{
    bin, contiguous, leaf, linear, scaled, un, BinOp, Expr, Leaf, MapOp, Scalar, TOp, TopTensor,
};
use crate::tensor::program::{expr, extends, is, ty, Program, TypeView};
use vstd::prelude::*;

verus! {

/// The rows of a table that the step's token ids ask for.
pub open spec fn looked_up_of(table: TopTensor) -> Expr {
    bin(TOp::Embed, leaf(Leaf::TokenIds), leaf(Leaf::Top(table)))
}

/// Adds a look-up of the step's token ids in a table of `rows` rows of `cols`
/// elements.
pub fn look_up(p: &mut Program, c: &Style, table: TopTensor, rows: usize, cols: usize) -> (r: usize)
    requires
        old(p).wf(),
    ensures
        final(p).wf(),
        extends(old(p)@, final(p)@),
        is(
            final(p)@,
            r,
            looked_up_of(table),
            TypeView { dtype: c.dtype, dims: seq![c.batch, c.len, cols] },
        ),
{
    let ids: usize = p.leaf_2(Leaf::TokenIds, DType::U32, c.batch, c.len);
    let t: usize = p.leaf_2(Leaf::Top(table), c.dtype, rows, cols);
    let r: usize = p.embed(ids, t, c.dtype);
    proof {
        assert(ty(p@, r as nat).dims =~= seq![c.batch, c.len, cols]);
    }
    r
}

/// The auxiliary embeddings of a model.
#[derive(Clone, Copy, Debug, PartialEq, Eq, Structural)]
pub struct SideEmbedding {
    pub layers: usize,
    pub width: usize,
    /// Rows of the table by token, where there is one.
    pub rows: Option<usize>,
    /// Whether the table's rows are scaled by the square root of the width.
    pub scale_rows: bool,
}

impl SideEmbedding {
    /// The embeddings of all layers can be addressed.
    pub open spec fn wf(&self) -> bool {
        self.layers * self.width <= usize::MAX
    }
}

/// The type of the auxiliary embeddings of all layers.
pub open spec fn side_table_type(c: Style, s: SideEmbedding) -> TypeView {
    TypeView { dtype: c.dtype, dims: seq![c.batch, c.len, s.layers, s.width] }
}

/// The auxiliary embeddings of all layers: a normalized projection of the
/// token embeddings and, where there is a table, the tokens' rows.
pub open spec fn side_table_of(c: Style, s: SideEmbedding, embeds: Expr) -> Expr {
    let by_layer = TOp::SplitLast { outer: s.layers, inner: s.width };
    let proj = norm_of(
        c.norm,
        c.dtype,
        c.eps,
        s.width,
        un(
            by_layer,
            scaled(
                linear(embeds, Leaf::Top(TopTensor::PerLayerModelProjection)),
                Scalar::RecipSqrt(c.nominal),
            ),
        ),
        Leaf::Top(TopTensor::PerLayerProjectionNorm),
    );
    let merged = match s.rows {
        Some(_) => {
            let rows = un(by_layer, looked_up_of(TopTensor::PerLayerTokenEmbedding));
            let table = if s.scale_rows {
                scaled(rows, Scalar::Sqrt(s.width))
            } else {
                rows
            };
            bin(TOp::ZipBroadcast(BinOp::Add), proj, table)
        },
        None => proj,
    };
    contiguous(scaled(merged, Scalar::RecipSqrt(2)))
}

/// Adds the auxiliary embeddings of all layers.
pub fn side_table(p: &mut Program, c: &Style, s: &SideEmbedding, embeds: usize) -> (r: usize)
    requires
        old(p).wf(),
        embeds < old(p)@.len(),
        s.wf(),
        ty(old(p)@, embeds as nat) == hidden_type(*c),
    ensures
        final(p).wf(),
        extends(old(p)@, final(p)@),
        is(
            final(p)@,
            r,
            side_table_of(*c, *s, expr(old(p)@, embeds as nat)),
            side_table_type(*c, *s),
        ),
{
    let total: usize = s.layers * s.width;
    let w: usize = p.leaf_2(
        Leaf::Top(TopTensor::PerLayerModelProjection),
        c.dtype,
        total,
        c.hidden,
    );
    let flat: usize = p.linear(embeds, w);
    let small: usize = p.each(MapOp::Mul(Scalar::RecipSqrt(c.nominal)), flat);
    let split: usize = p.split_last(small, s.layers, s.width);
    proof {
        assert(ty(p@, split as nat).dims =~= seq![c.batch, c.len, s.layers, s.width]);
    }
    let proj: usize = norm(
        p,
        c.norm,
        split,
        Leaf::Top(TopTensor::PerLayerProjectionNorm),
        s.width,
        c.eps,
    );
    let merged: usize = match s.rows {
        Some(rows) => {
            let raw: usize = look_up(p, c, TopTensor::PerLayerTokenEmbedding, rows, total);
            let by_layer: usize = p.split_last(raw, s.layers, s.width);
            proof {
                assert(ty(p@, by_layer as nat).dims =~= seq![c.batch, c.len, s.layers, s.width]);
            }
            let table: usize = if s.scale_rows {
                p.each(MapOp::Mul(Scalar::Sqrt(s.width)), by_layer)
            } else {
                by_layer
            };
            p.zip_broadcast(BinOp::Add, proj, table)
        },
        None => proj,
    };
    let halved: usize = p.each(MapOp::Mul(Scalar::RecipSqrt(2)), merged);
    p.each(MapOp::Contiguous, halved)
}

/// The type of the state of one position of every sequence.
pub open spec fn last_type(c: Style) -> TypeView {
    TypeView { dtype: c.dtype, dims: seq![c.batch, 1usize, c.hidden] }
}

/// The final normalization.
pub open spec fn output_norm_of(c: Style, x: Expr) -> Expr {
    norm_of(c.norm, c.dtype, c.eps, c.hidden, x, Leaf::Top(TopTensor::OutputNorm))
}

/// The last position, normalized.
pub open spec fn last_then_norm_of(c: Style, x: Expr) -> Expr {
    output_norm_of(c, un(TOp::Narrow { axis: 1, start: (c.len - 1) as usize, len: 1 }, x))
}

/// Adds the last position, normalized.
pub fn last_then_norm(p: &mut Program, c: &Style, x: usize) -> (r: usize)
    requires
        old(p).wf(),
        x < old(p)@.len(),
        c.len > 0,
        ty(old(p)@, x as nat) == hidden_type(*c),
    ensures
        final(p).wf(),
        extends(old(p)@, final(p)@),
        is(final(p)@, r, last_then_norm_of(*c, expr(old(p)@, x as nat)), last_type(*c)),
{
    let last: usize = p.narrow(x, 1, c.len - 1, 1);
    proof {
        assert(ty(p@, last as nat).dims =~= seq![c.batch, 1usize, c.hidden]);
    }
    norm(p, c.norm, last, Leaf::Top(TopTensor::OutputNorm), c.hidden, c.eps)
}

/// The last position of the normalized states.
pub open spec fn norm_then_last_of(c: Style, x: Expr) -> Expr {
    un(
        TOp::Unsqueeze { axis: 1 },
        un(TOp::Select { axis: 1, index: (c.len - 1) as usize }, output_norm_of(c, x)),
    )
}

/// Adds the final normalization.
pub fn output_norm(p: &mut Program, c: &Style, x: usize) -> (r: usize)
    requires
        old(p).wf(),
        x < old(p)@.len(),
        ty(old(p)@, x as nat) == hidden_type(*c),
    ensures
        final(p).wf(),
        extends(old(p)@, final(p)@),
        is(final(p)@, r, output_norm_of(*c, expr(old(p)@, x as nat)), hidden_type(*c)),
{
    norm(p, c.norm, x, Leaf::Top(TopTensor::OutputNorm), c.hidden, c.eps)
}

/// Adds the last position of the normalized states.
pub fn norm_then_last(p: &mut Program, c: &Style, x: usize) -> (r: usize)
    requires
        old(p).wf(),
        x < old(p)@.len(),
        c.len > 0,
        ty(old(p)@, x as nat) == hidden_type(*c),
    ensures
        final(p).wf(),
        extends(old(p)@, final(p)@),
        is(final(p)@, r, norm_then_last_of(*c, expr(old(p)@, x as nat)), last_type(*c)),
{
    let normed: usize = output_norm(p, c, x);
    let one: usize = p.select(normed, 1, c.len - 1);
    let r: usize = p.unsqueeze(one, 1);
    proof {
        assert(ty(p@, r as nat).dims =~= seq![c.batch, 1usize, c.hidden]);
    }
    r
}

/// The number is above zero.
pub open spec fn is_positive(x: F64Bits) -> bool {
    0 < x.bits <= 0x7ff0_0000_0000_0000
}

/// Whether a number is above zero.
pub fn positive(x: F64Bits) -> (r: bool)
    ensures
        r == is_positive(x),
{
    0 < x.bits && x.bits <= 0x7ff0_0000_0000_0000
}

/// `x` squeezed between minus and plus the cap.
pub open spec fn capped_of(cap: F64Bits, x: Expr) -> Expr {
    scaled(
        each_of(MapOp::Tanh, each_of(MapOp::Div(Scalar::Bits(cap)), x)),
        Scalar::Bits(cap),
    )
}

/// Adds `x` squeezed between minus and plus the cap.
pub fn capped(p: &mut Program, cap: F64Bits, x: usize) -> (r: usize)
    requires
        old(p).wf(),
        x < old(p)@.len(),
    ensures
        final(p).wf(),
        extends(old(p)@, final(p)@),
        is(final(p)@, r, capped_of(cap, expr(old(p)@, x as nat)), ty(old(p)@, x as nat)),
{
    let small: usize = p.each(MapOp::Div(Scalar::Bits(cap)), x);
    let bounded: usize = p.each(MapOp::Tanh, small);
    p.each(MapOp::Mul(Scalar::Bits(cap)), bounded)
}

/// The type of the logits of `rows` positions of every sequence.
pub open spec fn logits_type(c: Style, rows: usize, vocab: usize) -> TypeView {
    TypeView { dtype: c.dtype, dims: seq![c.batch, rows, vocab] }
}

/// The logits of a state, squeezed where there is a cap.
pub open spec fn logits_of(head: TopTensor, cap: Option<F64Bits>, x: Expr) -> Expr {
    let raw = linear(x, Leaf::Top(head));
    match cap {
        Some(v) => capped_of(v, raw),
        None => raw,
    }
}

/// Adds the logits of `rows` positions of every sequence over `vocab` tokens.
pub fn logits(
    p: &mut Program,
    c: &Style,
    head: TopTensor,
    rows: usize,
    vocab: usize,
    cap: Option<F64Bits>,
    x: usize,
) -> (r: usize)
    requires
        old(p).wf(),
        x < old(p)@.len(),
        ty(old(p)@, x as nat) == (TypeView { dtype: c.dtype, dims: seq![c.batch, rows, c.hidden] }),
    ensures
        final(p).wf(),
        extends(old(p)@, final(p)@),
        is(
            final(p)@,
            r,
            logits_of(head, cap, expr(old(p)@, x as nat)),
            logits_type(*c, rows, vocab),
        ),
{
    let w: usize = p.leaf_2(Leaf::Top(head), c.dtype, vocab, c.hidden);
    let raw: usize = p.linear(x, w);
    proof {
        assert(ty(p@, raw as nat).dims =~= seq![c.batch, rows, vocab]);
    }
    match cap {
        Some(v) => capped(p, v, raw),
        None => raw,
    }
}

} // verus!
