//! Self-attention with grouped keys and values, as tensor programs.

use crate::gemma4::block::{hidden_type, norm, norm_of, v_norm, v_norm_of, Style};
use crate::gemma4::config::Gemma4TextConfig;
use crate::gemma4::kv_cache::Trim;
use crate::tensor::op::{
    bin, contiguous, leaf, linear, scaled, tri, un, BinOp, Expr, KvPart, LayerTensor, Leaf, MapOp,
    MaskKind, RopeTable, Scalar, TOp,
};
use crate::tensor::program::{expr, extends, is, ty, Program, TypeView};
use vstd::prelude::*;

verus! {

/// The heads of one layer.
#[derive(Clone, Copy, Debug, PartialEq, Eq, Structural)]
pub struct Heads {
    pub layer: usize,
    pub heads: usize,
    pub kv_heads: usize,
    /// Queries that share a key.
    pub groups: usize,
    pub head_dim: usize,
    pub sliding: bool,
}

impl Heads {
    /// The heads of layer `i`: full-attention layers have their own width,
    /// and may have their own number of keys.
    pub open spec fn spec_of(cfg: &Gemma4TextConfig, i: int) -> Heads {
        let sliding = cfg.spec_is_sliding(i);
        let kv_heads = if sliding {
            cfg.num_key_value_heads
        } else {
            match cfg.num_global_key_value_heads {
                Some(n) => n,
                None => cfg.num_key_value_heads,
            }
        };
        Heads {
            layer: i as usize,
            heads: cfg.num_attention_heads,
            kv_heads,
            groups: if kv_heads == 0 {
                0
            } else {
                (cfg.num_attention_heads / kv_heads) as usize
            },
            head_dim: if sliding {
                cfg.head_dim
            } else {
                cfg.global_head_dim
            },
            sliding,
        }
    }

    /// The heads of a layer.
    pub fn of(cfg: &Gemma4TextConfig, layer: usize) -> (r: Heads)
        ensures
            r == Heads::spec_of(cfg, layer as int),
    {
        let sliding: bool = cfg.is_sliding(layer);
        let kv_heads: usize = if sliding {
            cfg.num_key_value_heads
        } else {
            match cfg.num_global_key_value_heads {
                Some(n) => n,
                None => cfg.num_key_value_heads,
            }
        };
        let head_dim: usize = if sliding {
            cfg.head_dim
        } else {
            cfg.global_head_dim
        };
        Heads {
            layer,
            heads: cfg.num_attention_heads,
            kv_heads,
            groups: if kv_heads == 0 {
                0
            } else {
                cfg.num_attention_heads / kv_heads
            },
            head_dim,
            sliding,
        }
    }

    /// The heads can be addressed.
    pub open spec fn addressable(&self) -> bool {
        self.heads * self.head_dim <= usize::MAX && self.kv_heads * self.head_dim <= usize::MAX
    }

    /// Every query has a key, and the entries of a head come in pairs to
    /// rotate.
    pub open spec fn consistent(&self) -> bool {
        self.kv_heads * self.groups == self.heads && self.head_dim % 2 == 0
    }

    /// The rotation table of the layer.
    pub open spec fn spec_table(&self) -> RopeTable {
        if self.sliding {
            RopeTable::Local
        } else {
            RopeTable::Global
        }
    }

    fn table(&self) -> (r: RopeTable)
        ensures
            r == self.spec_table(),
    {
        if self.sliding {
            RopeTable::Local
        } else {
            RopeTable::Global
        }
    }

    /// The mask of the layer.
    pub open spec fn spec_mask(&self) -> MaskKind {
        if self.sliding {
            MaskKind::Sliding
        } else {
            MaskKind::Full
        }
    }

    fn mask(&self) -> (r: MaskKind)
        ensures
            r == self.spec_mask(),
    {
        if self.sliding {
            MaskKind::Sliding
        } else {
            MaskKind::Full
        }
    }
}

/// `len` positions of `heads` heads.
pub open spec fn heads_type(c: Style, heads: usize, len: usize, head_dim: usize) -> TypeView {
    TypeView { dtype: c.dtype, dims: seq![c.batch, heads, len, head_dim] }
}

/// A linear layer, with its bias where it has one.
pub open spec fn affine_of(
    x: Expr,
    layer: usize,
    w: LayerTensor,
    bias: Option<LayerTensor>,
) -> Expr {
    match bias {
        Some(b) => tri(TOp::LinearBias, x, leaf(Leaf::Layer(layer, w)), leaf(Leaf::Layer(layer, b))),
        None => linear(x, Leaf::Layer(layer, w)),
    }
}

fn affine(
    p: &mut Program,
    c: &Style,
    layer: usize,
    w: LayerTensor,
    bias: Option<LayerTensor>,
    n_in: usize,
    n_out: usize,
    x: usize,
) -> (r: usize)
    requires
        old(p).wf(),
        x < old(p)@.len(),
        ty(old(p)@, x as nat) == (TypeView { dtype: c.dtype, dims: seq![c.batch, c.len, n_in] }),
    ensures
        final(p).wf(),
        extends(old(p)@, final(p)@),
        is(
            final(p)@,
            r,
            affine_of(expr(old(p)@, x as nat), layer, w, bias),
            TypeView { dtype: c.dtype, dims: seq![c.batch, c.len, n_out] },
        ),
{
    let weight: usize = p.leaf_2(Leaf::Layer(layer, w), c.dtype, n_out, n_in);
    proof {
        assert(seq![c.batch, c.len, n_in].update(2, n_out) =~= seq![c.batch, c.len, n_out]);
    }
    match bias {
        Some(b) => {
            let shift: usize = p.leaf_1(Leaf::Layer(layer, b), c.dtype, n_out);
            p.linear_bias(x, weight, shift)
        },
        None => p.linear(x, weight),
    }
}

/// The heads of a projection, before their positions.
pub open spec fn split_of(x: Expr, heads: usize, head_dim: usize) -> Expr {
    un(TOp::Transpose { a: 1, b: 2 }, un(TOp::SplitLast { outer: heads, inner: head_dim }, x))
}

fn split_heads(p: &mut Program, c: &Style, heads: usize, head_dim: usize, x: usize) -> (r: usize)
    requires
        old(p).wf(),
        x < old(p)@.len(),
        heads * head_dim <= usize::MAX,
        ty(old(p)@, x as nat) == (TypeView {
            dtype: c.dtype,
            dims: seq![c.batch, c.len, (heads * head_dim) as usize],
        }),
    ensures
        final(p).wf(),
        extends(old(p)@, final(p)@),
        is(
            final(p)@,
            r,
            split_of(expr(old(p)@, x as nat), heads, head_dim),
            heads_type(*c, heads, c.len, head_dim),
        ),
{
    let split: usize = p.split_last(x, heads, head_dim);
    proof {
        assert(ty(p@, split as nat).dims =~= seq![c.batch, c.len, heads, head_dim]);
    }
    let r: usize = p.transpose(split, 1, 2);
    proof {
        assert(ty(p@, r as nat).dims =~= seq![c.batch, heads, c.len, head_dim]);
    }
    r
}

/// `x` rotated by the angles of its positions.
pub open spec fn rotated_of(a: Heads, offset: usize, x: Expr) -> Expr {
    un(TOp::Rope { table: a.spec_table(), offset }, contiguous(x))
}

fn rotate(p: &mut Program, a: &Heads, offset: usize, x: usize) -> (r: usize)
    requires
        old(p).wf(),
        x < old(p)@.len(),
        ty(old(p)@, x as nat).dims.len() == 4,
        ty(old(p)@, x as nat).dims[3] % 2 == 0,
    ensures
        final(p).wf(),
        extends(old(p)@, final(p)@),
        is(final(p)@, r, rotated_of(*a, offset, expr(old(p)@, x as nat)), ty(old(p)@, x as nat)),
{
    let dense: usize = p.each(MapOp::Contiguous, x);
    p.rope(a.table(), dense, offset)
}

/// One key or value for every query.
pub open spec fn grouped_of(a: Heads, x: Expr) -> Expr {
    contiguous(un(TOp::RepeatKv { groups: a.groups }, x))
}

fn grouped(p: &mut Program, c: &Style, a: &Heads, kv_heads: usize, kv_len: usize, x: usize) -> (r: usize)
    requires
        old(p).wf(),
        x < old(p)@.len(),
        kv_heads * a.groups == a.heads,
        ty(old(p)@, x as nat) == heads_type(*c, kv_heads, kv_len, a.head_dim),
    ensures
        final(p).wf(),
        extends(old(p)@, final(p)@),
        is(
            final(p)@,
            r,
            grouped_of(*a, expr(old(p)@, x as nat)),
            heads_type(*c, a.heads, kv_len, a.head_dim),
        ),
{
    let many: usize = p.repeat_kv(x, a.groups);
    proof {
        assert(ty(p@, many as nat).dims =~= seq![c.batch, a.heads, kv_len, a.head_dim]);
    }
    p.each(MapOp::Contiguous, many)
}

/// The heads of every position side by side again.
pub open spec fn merged_of(x: Expr) -> Expr {
    un(TOp::MergeLast, un(TOp::Transpose { a: 1, b: 2 }, x))
}

fn merge_heads(p: &mut Program, c: &Style, a: &Heads, x: usize) -> (r: usize)
    requires
        old(p).wf(),
        x < old(p)@.len(),
        a.heads * a.head_dim <= usize::MAX,
        ty(old(p)@, x as nat) == heads_type(*c, a.heads, c.len, a.head_dim),
    ensures
        final(p).wf(),
        extends(old(p)@, final(p)@),
        is(
            final(p)@,
            r,
            merged_of(expr(old(p)@, x as nat)),
            TypeView {
                dtype: c.dtype,
                dims: seq![c.batch, c.len, (a.heads * a.head_dim) as usize],
            },
        ),
{
    let moved: usize = p.transpose(x, 1, 2);
    proof {
        assert(ty(p@, moved as nat).dims =~= seq![c.batch, c.len, a.heads, a.head_dim]);
    }
    let r: usize = p.merge_last(moved);
    proof {
        assert(ty(p@, r as nat).dims =~= seq![
            c.batch,
            c.len,
            (a.heads * a.head_dim) as usize,
        ]);
    }
    r
}

/// Scores, with the layer's mask added where there is one.
pub open spec fn masked_of(a: Heads, masked: bool, scores: Expr) -> Expr {
    if masked {
        bin(TOp::ZipBroadcast(BinOp::Add), scores, leaf(Leaf::Mask(a.spec_mask())))
    } else {
        scores
    }
}

/// Softmax of the masked scores, applied to the values.
pub open spec fn weighted_of(a: Heads, masked: bool, scores: Expr, v: Expr) -> Expr {
    bin(TOp::Matmul, un(TOp::SoftmaxLast, masked_of(a, masked, scores)), v)
}

fn weighted(
    p: &mut Program,
    c: &Style,
    a: &Heads,
    masked: bool,
    kv_len: usize,
    scores: usize,
    v: usize,
) -> (r: usize)
    requires
        old(p).wf(),
        scores < old(p)@.len(),
        v < old(p)@.len(),
        ty(old(p)@, scores as nat) == heads_type(*c, a.heads, c.len, kv_len),
        ty(old(p)@, v as nat) == heads_type(*c, a.heads, kv_len, a.head_dim),
    ensures
        final(p).wf(),
        extends(old(p)@, final(p)@),
        is(
            final(p)@,
            r,
            weighted_of(
                *a,
                masked,
                expr(old(p)@, scores as nat),
                expr(old(p)@, v as nat),
            ),
            heads_type(*c, a.heads, c.len, a.head_dim),
        ),
{
    let visible: usize = if masked {
        let mut dims: Vec<usize> = Vec::new();
        dims.push(c.batch);
        dims.push(1);
        dims.push(c.len);
        dims.push(kv_len);
        proof {
            assert(dims@ =~= seq![c.batch, 1usize, c.len, kv_len]);
        }
        let m: usize = p.leaf(Leaf::Mask(a.mask()), c.dtype, dims);
        p.zip_broadcast(BinOp::Add, scores, m)
    } else {
        scores
    };
    let weights: usize = p.softmax_last(visible);
    let r: usize = p.matmul(weights, v);
    proof {
        assert(ty(p@, r as nat).dims =~= seq![c.batch, a.heads, c.len, a.head_dim]);
    }
    r
}

/// What the attention of the unquantized model has beside its heads.
#[derive(Clone, Copy, Debug, PartialEq, Eq, Structural)]
pub struct TextAttention {
    pub heads: Heads,
    /// Whether the projections have a bias.
    pub bias: bool,
    /// Scores are divided by the square root of this.
    pub query_pre_attn_scalar: usize,
    pub use_flash_attn: bool,
}

pub open spec fn bias_of(has: bool, b: LayerTensor) -> Option<LayerTensor> {
    if has {
        Some(b)
    } else {
        None
    }
}

fn bias_if(has: bool, b: LayerTensor) -> (r: Option<LayerTensor>)
    ensures
        r == bias_of(has, b),
{
    if has {
        Some(b)
    } else {
        None
    }
}

/// Queries: projected, normalized head by head, rotated.
pub open spec fn text_query_of(c: Style, m: TextAttention, offset: usize, x: Expr) -> Expr {
    let a = m.heads;
    let q = split_of(
        affine_of(x, a.layer, LayerTensor::AttnQ, bias_of(m.bias, LayerTensor::AttnQBias)),
        a.heads,
        a.head_dim,
    );
    rotated_of(
        a,
        offset,
        norm_of(
            c.norm,
            c.dtype,
            c.eps,
            a.head_dim,
            q,
            Leaf::Layer(a.layer, LayerTensor::AttnQNorm),
        ),
    )
}

/// Keys: projected, normalized head by head, rotated.
pub open spec fn text_key_of(c: Style, m: TextAttention, offset: usize, x: Expr) -> Expr {
    let a = m.heads;
    let k = split_of(
        affine_of(x, a.layer, LayerTensor::AttnK, bias_of(m.bias, LayerTensor::AttnKBias)),
        a.kv_heads,
        a.head_dim,
    );
    rotated_of(
        a,
        offset,
        norm_of(
            c.norm,
            c.dtype,
            c.eps,
            a.head_dim,
            k,
            Leaf::Layer(a.layer, LayerTensor::AttnKNorm),
        ),
    )
}

/// Values: projected and normalized head by head.
pub open spec fn text_value_of(c: Style, m: TextAttention, x: Expr) -> Expr {
    let a = m.heads;
    let v = split_of(
        affine_of(x, a.layer, LayerTensor::AttnV, bias_of(m.bias, LayerTensor::AttnVBias)),
        a.kv_heads,
        a.head_dim,
    );
    v_norm_of(c.norm, c.dtype, c.eps, v)
}

/// What a layer's cache gives back, repeated for every query.
pub open spec fn cached_of(a: Heads, part: KvPart, x: Expr) -> Expr {
    grouped_of(a, un(TOp::CacheAppend { layer: a.layer, part }, x))
}

/// The attention of the unquantized model.
pub open spec fn text_attention_of(
    c: Style,
    m: TextAttention,
    offset: usize,
    masked: bool,
    x: Expr,
) -> Expr {
    let a = m.heads;
    let q = text_query_of(c, m, offset, x);
    let k = cached_of(a, KvPart::Keys, text_key_of(c, m, offset, x));
    let v = cached_of(a, KvPart::Values, text_value_of(c, m, x));
    let scale = Scalar::RecipSqrt(m.query_pre_attn_scalar);
    let out = if m.use_flash_attn {
        un(
            TOp::Transpose { a: 1, b: 2 },
            tri(
                TOp::FlashAttn { scale, causal: masked },
                un(TOp::Transpose { a: 1, b: 2 }, q),
                un(TOp::Transpose { a: 1, b: 2 }, k),
                un(TOp::Transpose { a: 1, b: 2 }, v),
            ),
        )
    } else {
        weighted_of(
            a,
            masked,
            scaled(bin(TOp::Matmul, q, un(TOp::Transpose { a: 2, b: 3 }, k)), scale),
            v,
        )
    };
    affine_of(
        merged_of(out),
        a.layer,
        LayerTensor::AttnOutput,
        bias_of(m.bias, LayerTensor::AttnOutputBias),
    )
}

/// Adds queries, keys and values of the unquantized model.
fn text_projections(p: &mut Program, c: &Style, m: &TextAttention, offset: usize, x: usize) -> (r: (
    usize,
    usize,
    usize,
))
    requires
        old(p).wf(),
        x < old(p)@.len(),
        m.heads.addressable(),
        m.heads.head_dim % 2 == 0,
        ty(old(p)@, x as nat) == hidden_type(*c),
    ensures
        final(p).wf(),
        extends(old(p)@, final(p)@),
        is(
            final(p)@,
            r.0,
            text_query_of(*c, *m, offset, expr(old(p)@, x as nat)),
            heads_type(*c, m.heads.heads, c.len, m.heads.head_dim),
        ),
        is(
            final(p)@,
            r.1,
            text_key_of(*c, *m, offset, expr(old(p)@, x as nat)),
            heads_type(*c, m.heads.kv_heads, c.len, m.heads.head_dim),
        ),
        is(
            final(p)@,
            r.2,
            text_value_of(*c, *m, expr(old(p)@, x as nat)),
            heads_type(*c, m.heads.kv_heads, c.len, m.heads.head_dim),
        ),
{
    let a: Heads = m.heads;
    let q: usize = affine(
        p,
        c,
        a.layer,
        LayerTensor::AttnQ,
        bias_if(m.bias, LayerTensor::AttnQBias),
        c.hidden,
        a.heads * a.head_dim,
        x,
    );
    let k: usize = affine(
        p,
        c,
        a.layer,
        LayerTensor::AttnK,
        bias_if(m.bias, LayerTensor::AttnKBias),
        c.hidden,
        a.kv_heads * a.head_dim,
        x,
    );
    let v: usize = affine(
        p,
        c,
        a.layer,
        LayerTensor::AttnV,
        bias_if(m.bias, LayerTensor::AttnVBias),
        c.hidden,
        a.kv_heads * a.head_dim,
        x,
    );
    let q: usize = split_heads(p, c, a.heads, a.head_dim, q);
    let k: usize = split_heads(p, c, a.kv_heads, a.head_dim, k);
    let v: usize = split_heads(p, c, a.kv_heads, a.head_dim, v);
    let q: usize = norm(
        p,
        c.norm,
        q,
        Leaf::Layer(a.layer, LayerTensor::AttnQNorm),
        a.head_dim,
        c.eps,
    );
    let k: usize = norm(
        p,
        c.norm,
        k,
        Leaf::Layer(a.layer, LayerTensor::AttnKNorm),
        a.head_dim,
        c.eps,
    );
    let v: usize = v_norm(p, c.norm, v, c.eps);
    let q: usize = rotate(p, &a, offset, q);
    let k: usize = rotate(p, &a, offset, k);
    (q, k, v)
}

/// Adds a layer's keys or values, cached and repeated for every query.
fn cached(p: &mut Program, c: &Style, a: &Heads, part: KvPart, kv_len: usize, x: usize) -> (r: usize)
    requires
        old(p).wf(),
        x < old(p)@.len(),
        a.consistent(),
        ty(old(p)@, x as nat) == heads_type(*c, a.kv_heads, c.len, a.head_dim),
    ensures
        final(p).wf(),
        extends(old(p)@, final(p)@),
        is(
            final(p)@,
            r,
            cached_of(*a, part, expr(old(p)@, x as nat)),
            heads_type(*c, a.heads, kv_len, a.head_dim),
        ),
{
    let all: usize = p.cache_append(a.layer, part, x, kv_len);
    proof {
        assert(ty(p@, all as nat).dims =~= seq![c.batch, a.kv_heads, kv_len, a.head_dim]);
    }
    grouped(p, c, a, a.kv_heads, kv_len, all)
}

/// Adds the attention of the unquantized model. The layer's cache gives back
/// `kv_len` positions; where a mask is added, they are all that came before
/// and those of the step.
#[verifier::rlimit(40)]
pub fn text_attention(
    p: &mut Program,
    c: &Style,
    m: &TextAttention,
    offset: usize,
    masked: bool,
    kv_len: usize,
    x: usize,
) -> (r: usize)
    requires
        old(p).wf(),
        x < old(p)@.len(),
        m.heads.addressable(),
        m.heads.consistent(),
        masked && !m.use_flash_attn ==> kv_len == offset + c.len,
        ty(old(p)@, x as nat) == hidden_type(*c),
    ensures
        final(p).wf(),
        extends(old(p)@, final(p)@),
        is(
            final(p)@,
            r,
            text_attention_of(*c, *m, offset, masked, expr(old(p)@, x as nat)),
            TypeView { dtype: c.dtype, dims: seq![c.batch, c.len, c.hidden] },
        ),
{
    let a: Heads = m.heads;
    let (q, k, v): (usize, usize, usize) = text_projections(p, c, m, offset, x);
    let k: usize = cached(p, c, &a, KvPart::Keys, kv_len, k);
    let v: usize = cached(p, c, &a, KvPart::Values, kv_len, v);
    let scale: Scalar = Scalar::RecipSqrt(m.query_pre_attn_scalar);
    let out: usize = if m.use_flash_attn {
        let qt: usize = p.transpose(q, 1, 2);
        let kt: usize = p.transpose(k, 1, 2);
        let vt: usize = p.transpose(v, 1, 2);
        proof {
            assert(ty(p@, qt as nat).dims =~= seq![c.batch, c.len, a.heads, a.head_dim]);
            assert(ty(p@, kt as nat).dims =~= seq![c.batch, kv_len, a.heads, a.head_dim]);
            assert(ty(p@, kt as nat).dims =~= ty(p@, qt as nat).dims.update(1, kv_len));
        }
        let o: usize = p.flash_attn(qt, kt, vt, scale, masked);
        let back: usize = p.transpose(o, 1, 2);
        proof {
            assert(ty(p@, back as nat).dims =~= seq![c.batch, a.heads, c.len, a.head_dim]);
        }
        back
    } else {
        let kt: usize = p.transpose(k, 2, 3);
        proof {
            assert(ty(p@, kt as nat).dims =~= seq![c.batch, a.heads, a.head_dim, kv_len]);
        }
        let raw: usize = p.matmul(q, kt);
        proof {
            assert(ty(p@, raw as nat).dims =~= seq![c.batch, a.heads, c.len, kv_len]);
        }
        let scores: usize = p.each(MapOp::Mul(scale), raw);
        weighted(p, c, &a, masked, kv_len, scores, v)
    };
    let flat: usize = merge_heads(p, c, &a, out);
    affine(
        p,
        c,
        a.layer,
        LayerTensor::AttnOutput,
        bias_if(m.bias, LayerTensor::AttnOutputBias),
        a.heads * a.head_dim,
        c.hidden,
        flat,
    )
}

/// How one query position is attended to.
#[derive(Clone, Copy, Debug, PartialEq, Eq, Structural)]
pub enum DecodePath {
    /// In one operation, which hides positions by itself.
    Fused { window: Option<u32> },
    /// As several positions are.
    Plain,
}

/// What the attention of a quantized model has beside its heads.
#[derive(Clone, Copy, Debug, PartialEq, Eq, Structural)]
pub struct QAttention {
    pub heads: Heads,
    /// Whether the values have a projection of their own; where not, they are
    /// the keys before normalization.
    pub has_value: bool,
    pub decode: DecodePath,
}

/// Keys and values of a layer, as formulas.
#[verifier::ext_equal]
pub struct KvExpr {
    pub k: Expr,
    pub v: Expr,
}

/// Keys and values of a layer, as steps of a program; they hold `len`
/// positions of `kv_heads` heads, `head_dim` wide.
#[derive(Clone, Copy, Debug, PartialEq, Eq, Structural)]
pub struct Kv {
    pub k: usize,
    pub v: usize,
    pub kv_heads: usize,
    pub head_dim: usize,
    pub len: usize,
}

impl Kv {
    /// The formulas of the pair.
    pub open spec fn formula(&self, p: &Program) -> KvExpr {
        KvExpr { k: expr(p@, self.k as nat), v: expr(p@, self.v as nat) }
    }

    /// The steps are steps of the program, with the types that the pair says.
    pub open spec fn typed(&self, p: &Program, c: Style) -> bool {
        &&& self.k < p@.len()
        &&& self.v < p@.len()
        &&& ty(p@, self.k as nat) == heads_type(c, self.kv_heads, self.len, self.head_dim)
        &&& ty(p@, self.v as nat) == heads_type(c, self.kv_heads, self.len, self.head_dim)
    }
}

/// The heads of a projection, before their positions, adjacent in memory.
pub open spec fn dense_heads_of(
    layer: usize,
    w: LayerTensor,
    heads: usize,
    head_dim: usize,
    x: Expr,
) -> Expr {
    contiguous(split_of(linear(x, Leaf::Layer(layer, w)), heads, head_dim))
}

fn dense_heads(
    p: &mut Program,
    c: &Style,
    layer: usize,
    w: LayerTensor,
    heads: usize,
    head_dim: usize,
    x: usize,
) -> (r: usize)
    requires
        old(p).wf(),
        x < old(p)@.len(),
        heads * head_dim <= usize::MAX,
        ty(old(p)@, x as nat) == hidden_type(*c),
    ensures
        final(p).wf(),
        extends(old(p)@, final(p)@),
        is(
            final(p)@,
            r,
            dense_heads_of(layer, w, heads, head_dim, expr(old(p)@, x as nat)),
            heads_type(*c, heads, c.len, head_dim),
        ),
{
    let flat: usize = affine(p, c, layer, w, None, c.hidden, heads * head_dim, x);
    let split: usize = split_heads(p, c, heads, head_dim, flat);
    p.each(MapOp::Contiguous, split)
}

/// Queries: projected, normalized head by head, rotated.
pub open spec fn query_of(c: Style, a: Heads, offset: usize, x: Expr) -> Expr {
    rotated_of(
        a,
        offset,
        norm_of(
            c.norm,
            c.dtype,
            c.eps,
            a.head_dim,
            dense_heads_of(a.layer, LayerTensor::AttnQ, a.heads, a.head_dim, x),
            Leaf::Layer(a.layer, LayerTensor::AttnQNorm),
        ),
    )
}

/// Keys: projected, normalized head by head, rotated.
pub open spec fn key_of(c: Style, a: Heads, offset: usize, x: Expr) -> Expr {
    contiguous(
        rotated_of(
            a,
            offset,
            norm_of(
                c.norm,
                c.dtype,
                c.eps,
                a.head_dim,
                dense_heads_of(a.layer, LayerTensor::AttnK, a.kv_heads, a.head_dim, x),
                Leaf::Layer(a.layer, LayerTensor::AttnKNorm),
            ),
        ),
    )
}

/// Values: projected and normalized head by head.
pub open spec fn value_of(c: Style, m: QAttention, x: Expr) -> Expr {
    let w = if m.has_value {
        LayerTensor::AttnV
    } else {
        LayerTensor::AttnK
    };
    contiguous(
        v_norm_of(
            c.norm,
            c.dtype,
            c.eps,
            dense_heads_of(m.heads.layer, w, m.heads.kv_heads, m.heads.head_dim, x),
        ),
    )
}

/// Adds keys and values of a quantized model, before they are cached.
fn own_kv(p: &mut Program, c: &Style, m: &QAttention, offset: usize, x: usize) -> (r: (usize, usize))
    requires
        old(p).wf(),
        x < old(p)@.len(),
        m.heads.addressable(),
        m.heads.head_dim % 2 == 0,
        ty(old(p)@, x as nat) == hidden_type(*c),
    ensures
        final(p).wf(),
        extends(old(p)@, final(p)@),
        is(
            final(p)@,
            r.0,
            key_of(*c, m.heads, offset, expr(old(p)@, x as nat)),
            heads_type(*c, m.heads.kv_heads, c.len, m.heads.head_dim),
        ),
        is(
            final(p)@,
            r.1,
            value_of(*c, *m, expr(old(p)@, x as nat)),
            heads_type(*c, m.heads.kv_heads, c.len, m.heads.head_dim),
        ),
{
    let a: Heads = m.heads;
    let raw_k: usize = dense_heads(p, c, a.layer, LayerTensor::AttnK, a.kv_heads, a.head_dim, x);
    let raw_v: usize = if m.has_value {
        dense_heads(p, c, a.layer, LayerTensor::AttnV, a.kv_heads, a.head_dim, x)
    } else {
        raw_k
    };
    let k: usize = norm(
        p,
        c.norm,
        raw_k,
        Leaf::Layer(a.layer, LayerTensor::AttnKNorm),
        a.head_dim,
        c.eps,
    );
    let v: usize = v_norm(p, c.norm, raw_v, c.eps);
    let k: usize = rotate(p, &a, offset, k);
    let v: usize = p.each(MapOp::Contiguous, v);
    let k: usize = p.each(MapOp::Contiguous, k);
    (k, v)
}

/// What a layer's cache gives back of its keys and values.
pub open spec fn appended_of(c: Style, m: QAttention, offset: usize, x: Expr) -> KvExpr {
    let layer = m.heads.layer;
    KvExpr {
        k: un(
            TOp::CacheAppend { layer, part: KvPart::Keys },
            key_of(c, m.heads, offset, x),
        ),
        v: un(TOp::CacheAppend { layer, part: KvPart::Values }, value_of(c, m, x)),
    }
}

/// Adds a layer's keys and values, cached. The cache gives back `kv_len`
/// positions.
pub fn appended(
    p: &mut Program,
    c: &Style,
    m: &QAttention,
    offset: usize,
    kv_len: usize,
    x: usize,
) -> (r: Kv)
    requires
        old(p).wf(),
        x < old(p)@.len(),
        m.heads.addressable(),
        m.heads.head_dim % 2 == 0,
        ty(old(p)@, x as nat) == hidden_type(*c),
    ensures
        final(p).wf(),
        extends(old(p)@, final(p)@),
        r.kv_heads == m.heads.kv_heads && r.head_dim == m.heads.head_dim && r.len == kv_len,
        r.typed(final(p), *c),
        r.formula(final(p)) == appended_of(*c, *m, offset, expr(old(p)@, x as nat)),
{
    let a: Heads = m.heads;
    let (k, v): (usize, usize) = own_kv(p, c, m, offset, x);
    let k: usize = p.cache_append(a.layer, KvPart::Keys, k, kv_len);
    let v: usize = p.cache_append(a.layer, KvPart::Values, v, kv_len);
    proof {
        assert(ty(p@, k as nat).dims =~= seq![c.batch, a.kv_heads, kv_len, a.head_dim]);
        assert(ty(p@, v as nat).dims =~= seq![c.batch, a.kv_heads, kv_len, a.head_dim]);
    }
    Kv { k, v, kv_heads: a.kv_heads, head_dim: a.head_dim, len: kv_len }
}

/// The cached positions with a step's behind them, as far as they are kept.
pub open spec fn joined_of(layer: usize, part: KvPart, trim: Option<Trim>, x: Expr) -> Expr {
    let all = un(TOp::CacheConcat { layer, part }, x);
    match trim {
        Some(t) => contiguous(un(TOp::Narrow { axis: 2, start: t.start, len: t.len }, all)),
        None => all,
    }
}

fn joined(
    p: &mut Program,
    c: &Style,
    a: &Heads,
    part: KvPart,
    cached: usize,
    trim: Option<Trim>,
    x: usize,
) -> (r: usize)
    requires
        old(p).wf(),
        x < old(p)@.len(),
        cached + c.len <= usize::MAX,
        trim matches Some(t) ==> t.start + t.len == cached + c.len,
        ty(old(p)@, x as nat) == heads_type(*c, a.kv_heads, c.len, a.head_dim),
    ensures
        final(p).wf(),
        extends(old(p)@, final(p)@),
        is(
            final(p)@,
            r,
            joined_of(a.layer, part, trim, expr(old(p)@, x as nat)),
            heads_type(
                *c,
                a.kv_heads,
                match trim {
                    Some(t) => t.len,
                    None => (cached + c.len) as usize,
                },
                a.head_dim,
            ),
        ),
{
    let all: usize = p.cache_concat(a.layer, part, x, cached);
    proof {
        assert(ty(p@, all as nat).dims =~= seq![
            c.batch,
            a.kv_heads,
            (cached + c.len) as usize,
            a.head_dim,
        ]);
    }
    match trim {
        Some(t) => {
            let part: usize = p.narrow(all, 2, t.start, t.len);
            proof {
                assert(ty(p@, part as nat).dims =~= seq![c.batch, a.kv_heads, t.len, a.head_dim]);
            }
            p.each(MapOp::Contiguous, part)
        },
        None => all,
    }
}

/// A layer's keys and values, behind those that it has cached.
pub open spec fn concatenated_of(
    c: Style,
    m: QAttention,
    offset: usize,
    trim: Option<Trim>,
    x: Expr,
) -> KvExpr {
    let layer = m.heads.layer;
    KvExpr {
        k: joined_of(layer, KvPart::Keys, trim, key_of(c, m.heads, offset, x)),
        v: joined_of(layer, KvPart::Values, trim, value_of(c, m, x)),
    }
}

/// Adds a layer's keys and values, behind the `cached` positions that it has;
/// `trim` says which of them are kept.
pub fn concatenated(
    p: &mut Program,
    c: &Style,
    m: &QAttention,
    offset: usize,
    cached: usize,
    trim: Option<Trim>,
    x: usize,
) -> (r: Kv)
    requires
        old(p).wf(),
        x < old(p)@.len(),
        m.heads.addressable(),
        m.heads.head_dim % 2 == 0,
        cached + c.len <= usize::MAX,
        trim matches Some(t) ==> t.start + t.len == cached + c.len,
        ty(old(p)@, x as nat) == hidden_type(*c),
    ensures
        final(p).wf(),
        extends(old(p)@, final(p)@),
        r.kv_heads == m.heads.kv_heads && r.head_dim == m.heads.head_dim,
        r.len == match trim {
            Some(t) => t.len,
            None => (cached + c.len) as usize,
        },
        r.typed(final(p), *c),
        r.formula(final(p)) == concatenated_of(*c, *m, offset, trim, expr(old(p)@, x as nat)),
{
    let a: Heads = m.heads;
    let (k, v): (usize, usize) = own_kv(p, c, m, offset, x);
    let k: usize = joined(p, c, &a, KvPart::Keys, cached, trim, k);
    let v: usize = joined(p, c, &a, KvPart::Values, cached, trim, v);
    let len: usize = match trim {
        Some(t) => t.len,
        None => cached + c.len,
    };
    Kv { k, v, kv_heads: a.kv_heads, head_dim: a.head_dim, len }
}

/// The attention of a quantized model to the given keys and values.
pub open spec fn attention_of(
    c: Style,
    m: QAttention,
    offset: usize,
    masked: bool,
    x: Expr,
    kv: KvExpr,
) -> Expr {
    let a = m.heads;
    let q = query_of(c, a, offset, x);
    let k = grouped_of(a, kv.k);
    let v = grouped_of(a, kv.v);
    let out = match m.decode {
        DecodePath::Fused { window } if c.len == 1 => tri(TOp::FlashAttnDecode { window }, q, k, v),
        _ => weighted_of(
            a,
            masked,
            bin(TOp::Matmul, q, contiguous(un(TOp::Transpose { a: 2, b: 3 }, k))),
            v,
        ),
    };
    linear(merged_of(out), Leaf::Layer(a.layer, LayerTensor::AttnOutput))
}

/// Adds the attention of a quantized model to the given keys and values: its
/// own, or those of the layer that it shares them with.
#[verifier::rlimit(40)]
pub fn attention(
    p: &mut Program,
    c: &Style,
    m: &QAttention,
    offset: usize,
    masked: bool,
    kv: &Kv,
    x: usize,
) -> (r: usize)
    requires
        old(p).wf(),
        x < old(p)@.len(),
        m.heads.addressable(),
        m.heads.head_dim % 2 == 0,
        kv.kv_heads * m.heads.groups == m.heads.heads,
        kv.head_dim == m.heads.head_dim,
        kv.typed(old(p), *c),
        masked ==> kv.len == offset + c.len,
        ty(old(p)@, x as nat) == hidden_type(*c),
    ensures
        final(p).wf(),
        extends(old(p)@, final(p)@),
        is(
            final(p)@,
            r,
            attention_of(*c, *m, offset, masked, expr(old(p)@, x as nat), kv.formula(old(p))),
            TypeView { dtype: c.dtype, dims: seq![c.batch, c.len, c.hidden] },
        ),
{
    let a: Heads = m.heads;
    let q: usize = dense_heads(p, c, a.layer, LayerTensor::AttnQ, a.heads, a.head_dim, x);
    let q: usize = norm(
        p,
        c.norm,
        q,
        Leaf::Layer(a.layer, LayerTensor::AttnQNorm),
        a.head_dim,
        c.eps,
    );
    let q: usize = rotate(p, &a, offset, q);
    let k: usize = grouped(p, c, &a, kv.kv_heads, kv.len, kv.k);
    let v: usize = grouped(p, c, &a, kv.kv_heads, kv.len, kv.v);
    let fused: Option<Option<u32>> = match m.decode {
        DecodePath::Fused { window } => if c.len == 1 {
            Some(window)
        } else {
            None
        },
        DecodePath::Plain => None,
    };
    let out: usize = match fused {
        Some(window) => {
            proof {
                assert(ty(p@, k as nat).dims =~= ty(p@, q as nat).dims.update(2, kv.len));
            }
            p.flash_attn_decode(q, k, v, window)
        },
        None => {
            let kt: usize = p.transpose(k, 2, 3);
            proof {
                assert(ty(p@, kt as nat).dims =~= seq![c.batch, a.heads, a.head_dim, kv.len]);
            }
            let dense: usize = p.each(MapOp::Contiguous, kt);
            let scores: usize = p.matmul(q, dense);
            proof {
                assert(ty(p@, scores as nat).dims =~= seq![c.batch, a.heads, c.len, kv.len]);
            }
            weighted(p, c, &a, masked, kv.len, scores, v)
        },
    };
    let flat: usize = merge_heads(p, c, &a, out);
    affine(
        p,
        c,
        a.layer,
        LayerTensor::AttnOutput,
        None,
        a.heads * a.head_dim,
        c.hidden,
        flat,
    )
}

} // verus!
