//! What attention computes, in real numbers.

use crate::analysis::{lemma_sum_equal, sum};
use crate::gemma4::attention::{
    affine_of, attention_of, bias_of, grouped_of, masked_of, merged_of, query_of, text_attention_of,
    text_key_of, text_query_of, text_value_of, weighted_of, DecodePath, Heads, KvExpr, QAttention,
    TextAttention,
};
use crate::gemma4::block::Style;
use crate::tensor::meaning::{
    attended, dot, mean_bin, mean_leaf, mean_tri, mean_un, meaning, place3, place4, raised,
    spread_to, swapped, with_last, Tensor, World,
};
use crate::tensor::op::{
    bin, contiguous, leaf, scaled, tri, un, BinOp, Expr, KvPart, LayerTensor, Leaf, MapOp, MaskKind,
    Scalar, TOp,
};
use vstd::prelude::*;

verus! {

/// Masks are zero wherever they do not hide.
pub open spec fn masks_hide(w: World) -> bool {
    forall|l: Leaf, i: Seq<int>| l is Mask ==> #[trigger] ((w.leaf)(l).at)(i) == 0real
}

/// A query at place `t` of head `h` sees key `s`: the mask of the layer's kind
/// does not hide it.
pub open spec fn sees(w: World, a: Heads, masked: bool, b: int, h: int, t: int, s: int) -> bool {
    let kind = if a.sliding {
        MaskKind::Sliding
    } else {
        MaskKind::Full
    };
    let mask = (w.leaf)(Leaf::Mask(kind));
    masked ==> !(mask.gone)(spread_to(place4(b, h, t, s), mask.dims))
}

proof fn lemma_weighted(
    w: World,
    a: Heads,
    masked: bool,
    scores: Expr,
    v: Expr,
    b: int,
    h: int,
    t: int,
    d: int,
)
    requires
        masks_hide(w),
        meaning(w, scores).dims.len() == 4,
        forall|i: Seq<int>| !#[trigger] (meaning(w, scores).gone)(i),
    ensures
        (meaning(w, weighted_of(a, masked, scores, v)).at)(place4(b, h, t, d)) == attended(
            w,
            meaning(w, scores).dims.last() as nat,
            |s: int| (meaning(w, scores).at)(place4(b, h, t, s)),
            |s: int| sees(w, a, masked, b, h, t, s),
            |s: int| (meaning(w, v).at)(place4(b, h, s, d)),
        ),
        meaning(w, weighted_of(a, masked, scores, v)).dims == with_last(
            meaning(w, scores).dims,
            meaning(w, v).dims.last(),
        ),
{
    let sc = meaning(w, scores);
    let mk = masked_of(a, masked, scores);
    let soft = un(TOp::SoftmaxLast, mk);
    let mask = (w.leaf)(Leaf::Mask(a.spec_mask()));
    mean_bin(w, TOp::Matmul, soft, v);
    mean_un(w, TOp::SoftmaxLast, mk);
    if masked {
        mean_leaf(w, Leaf::Mask(a.spec_mask()));
        mean_bin(w, TOp::ZipBroadcast(BinOp::Add), scores, leaf(Leaf::Mask(a.spec_mask())));
    }
    let n = sc.dims.last() as nat;
    let e = |s: int|
        if sees(w, a, masked, b, h, t, s) {
            (w.m.exp)((sc.at)(place4(b, h, t, s)))
        } else {
            0real
        };
    assert forall|s: int| #[trigger] raised(w, meaning(w, mk), place4(b, h, t, s)) == e(s) by {
        if masked {
            let i = place4(b, h, t, s);
            assert((mask.at)(spread_to(i, mask.dims)) == 0real);
            assert((meaning(w, mk).at)(i) == (sc.at)(i) + (mask.at)(spread_to(i, mask.dims)));
            assert((meaning(w, mk).gone)(i) == ((sc.gone)(i) || (mask.gone)(
                spread_to(i, mask.dims),
            )));
        }
    }
    let i = place4(b, h, t, d);
    assert forall|s: int| #[trigger] with_last(i, s) == place4(b, h, t, s) by {
        assert(with_last(i, s) =~= place4(b, h, t, s));
    }
    let total = sum(n, e);
    assert forall|s: int| (#[trigger] (meaning(w, soft).at)(place4(b, h, t, s))) == e(s) / total by {
        let at = place4(b, h, t, s);
        let g = |k: int| raised(w, meaning(w, mk), with_last(at, k));
        assert forall|k: int| 0 <= k < n implies #[trigger] g(k) == e(k) by {
            assert(with_last(at, k) =~= place4(b, h, t, k));
        }
        lemma_sum_equal(n, g, e);
        assert((meaning(w, soft).at)(at) == raised(w, meaning(w, mk), at) / sum(n, g));
    }
    let f = |k: int|
        (meaning(w, soft).at)(with_last(i, k)) * (meaning(w, v).at)(i.update(i.len() - 2, k));
    let g = |s: int| e(s) / sum(n, e) * (meaning(w, v).at)(place4(b, h, s, d));
    assert forall|k: int| 0 <= k < n implies #[trigger] f(k) == g(k) by {
        assert(i.update(i.len() - 2, k) =~= place4(b, h, k, d));
        assert(with_last(i, k) == place4(b, h, t, k));
    }
    lemma_sum_equal(n, f, g);
    let score = |s: int| (sc.at)(place4(b, h, t, s));
    let visible = |s: int| sees(w, a, masked, b, h, t, s);
    let value = |s: int| (meaning(w, v).at)(place4(b, h, s, d));
    let e2 = |s: int|
        if visible(s) {
            (w.m.exp)(score(s))
        } else {
            0real
        };
    lemma_sum_equal(n, e, e2);
    let g2 = |s: int| e2(s) / sum(n, e2) * value(s);
    lemma_sum_equal(n, g, g2);
    assert(attended(w, n, score, visible, value) == sum(n, g2));
}

/// The product of the query at place `t` of head `h` with key `s` of the head
/// that it shares with its group.
pub open spec fn product(
    q: Tensor,
    k: Tensor,
    width: nat,
    groups: int,
    b: int,
    h: int,
    t: int,
    s: int,
) -> real {
    dot(width, |e: int| (q.at)(place4(b, h, t, e)), |e: int| (k.at)(place4(b, h / groups, s, e)))
}

/// Keys and values for every query are those of its group.
proof fn lemma_grouped(w: World, a: Heads, x: Expr, b: int, h: int, s: int, e: int)
    requires
        meaning(w, x).dims.len() == 4,
    ensures
        (meaning(w, grouped_of(a, x)).at)(place4(b, h, s, e)) == (meaning(w, x).at)(
            place4(b, h / a.groups as int, s, e),
        ),
        meaning(w, grouped_of(a, x)).dims == meaning(w, x).dims.update(
            1,
            meaning(w, x).dims[1] * a.groups,
        ),
{
    let many = un(TOp::RepeatKv { groups: a.groups }, x);
    mean_un(w, TOp::RepeatKv { groups: a.groups }, x);
    mean_un(w, TOp::Each(MapOp::Contiguous), many);
    assert(place4(b, h, s, e).update(1, h / a.groups as int) =~= place4(
        b,
        h / a.groups as int,
        s,
        e,
    ));
}

/// Products of queries with keys, times a number where one is given.
proof fn lemma_products(
    w: World,
    a: Heads,
    q: Expr,
    x: Expr,
    dense: bool,
    b: int,
    h: int,
    t: int,
    s: int,
)
    requires
        meaning(w, x).dims.len() == 4,
        meaning(w, q).dims.len() == 4,
    ensures
        ({
            let turned = un(TOp::Transpose { a: 2, b: 3 }, grouped_of(a, x));
            let k = if dense {
                contiguous(turned)
            } else {
                turned
            };
            let raw = meaning(w, bin(TOp::Matmul, q, k));
            &&& (raw.at)(place4(b, h, t, s)) == product(
                meaning(w, q),
                meaning(w, x),
                meaning(w, q).dims.last() as nat,
                a.groups as int,
                b,
                h,
                t,
                s,
            )
            &&& raw.dims == with_last(meaning(w, q).dims, meaning(w, x).dims[2])
            &&& forall|i: Seq<int>| !#[trigger] (raw.gone)(i)
        }),
{
    let g = grouped_of(a, x);
    let turned = un(TOp::Transpose { a: 2, b: 3 }, g);
    let k = if dense {
        contiguous(turned)
    } else {
        turned
    };
    lemma_grouped(w, a, x, b, h, s, 0);
    mean_un(w, TOp::Transpose { a: 2, b: 3 }, g);
    mean_un(w, TOp::Each(MapOp::Contiguous), turned);
    mean_bin(w, TOp::Matmul, q, k);
    let i = place4(b, h, t, s);
    let n = meaning(w, q).dims.last() as nat;
    let f = |e: int| (meaning(w, q).at)(with_last(i, e)) * (meaning(w, k).at)(i.update(2, e));
    let (left, right) = (
        |e: int| (meaning(w, q).at)(place4(b, h, t, e)),
        |e: int| (meaning(w, x).at)(place4(b, h / a.groups as int, s, e)),
    );
    let f2 = |e: int| left(e) * right(e);
    assert forall|e: int| 0 <= e < n implies #[trigger] f(e) == f2(e) by {
        assert(with_last(i, e) =~= place4(b, h, t, e));
        assert(i.update(2, e) =~= place4(b, h, e, s));
        assert(swapped(place4(b, h, e, s), 2, 3) =~= place4(b, h, s, e));
        lemma_grouped(w, a, x, b, h, s, e);
    }
    lemma_sum_equal(n, f, f2);
    assert((meaning(w, bin(TOp::Matmul, q, k)).at)(i) == sum(n, f));
}

/// The heads of a position side by side.
proof fn lemma_merged(w: World, out: Expr, b: int, t: int, j: int)
    requires
        meaning(w, out).dims.len() == 4,
    ensures
        (meaning(w, merged_of(out)).at)(place3(b, t, j)) == (meaning(w, out).at)(
            place4(b, j / meaning(w, out).dims[3], t, j % meaning(w, out).dims[3]),
        ),
        meaning(w, merged_of(out)).dims == seq![
            meaning(w, out).dims[0],
            meaning(w, out).dims[2],
            meaning(w, out).dims[1] * meaning(w, out).dims[3],
        ],
{
    let turned = un(TOp::Transpose { a: 1, b: 2 }, out);
    mean_un(w, TOp::Transpose { a: 1, b: 2 }, out);
    mean_un(w, TOp::MergeLast, turned);
    let d = meaning(w, out).dims[3];
    let i = place3(b, t, j);
    assert(i.drop_last().push(j / d).push(j % d) =~= place4(b, t, j / d, j % d));
    assert(swapped(place4(b, t, j / d, j % d), 1, 2) =~= place4(b, j / d, t, j % d));
    assert(meaning(w, merged_of(out)).dims =~= seq![
        meaning(w, out).dims[0],
        meaning(w, out).dims[2],
        meaning(w, out).dims[1] * meaning(w, out).dims[3],
    ]);
}

/// A linear layer, with its bias where it has one.
pub proof fn lemma_affine(
    w: World,
    x: Expr,
    layer: usize,
    weight: LayerTensor,
    bias: bool,
    shift: LayerTensor,
    b: int,
    t: int,
    o: int,
)
    requires
        meaning(w, x).dims.len() == 3,
    ensures
        ({
            let y = meaning(w, affine_of(x, layer, weight, bias_of(bias, shift)));
            &&& (y.at)(place3(b, t, o)) == sum(
                meaning(w, x).dims.last() as nat,
                |j: int|
                    (meaning(w, x).at)(place3(b, t, j)) * ((w.leaf)(Leaf::Layer(layer, weight)).at)(
                        seq![o, j],
                    ),
            ) + (if bias {
                ((w.leaf)(Leaf::Layer(layer, shift)).at)(seq![o])
            } else {
                0real
            })
            &&& y.dims == with_last(
                meaning(w, x).dims,
                (w.leaf)(Leaf::Layer(layer, weight)).dims[0],
            )
        }),
{
    let (l, s) = (Leaf::Layer(layer, weight), Leaf::Layer(layer, shift));
    mean_leaf(w, l);
    mean_leaf(w, s);
    mean_bin(w, TOp::Linear, x, leaf(l));
    mean_tri(w, TOp::LinearBias, x, leaf(l), leaf(s));
    let i = place3(b, t, o);
    let n = meaning(w, x).dims.last() as nat;
    let f = |k: int| (meaning(w, x).at)(with_last(i, k)) * ((w.leaf)(l).at)(seq![i.last(), k]);
    let g = |j: int| (meaning(w, x).at)(place3(b, t, j)) * ((w.leaf)(l).at)(seq![o, j]);
    assert forall|k: int| 0 <= k < n implies #[trigger] f(k) == g(k) by {
        assert(with_last(i, k) =~= place3(b, t, k));
    }
    lemma_sum_equal(n, f, g);
}

/// Attention whose scores, visibility and values are the same is the same.
proof fn lemma_attended_equal(
    w: World,
    n: nat,
    s1: spec_fn(int) -> real,
    p1: spec_fn(int) -> bool,
    v1: spec_fn(int) -> real,
    s2: spec_fn(int) -> real,
    p2: spec_fn(int) -> bool,
    v2: spec_fn(int) -> real,
)
    requires
        forall|s: int| 0 <= s < n ==> #[trigger] s1(s) == s2(s),
        forall|s: int| 0 <= s < n ==> #[trigger] p1(s) == p2(s),
        forall|s: int| 0 <= s < n ==> #[trigger] v1(s) == v2(s),
    ensures
        attended(w, n, s1, p1, v1) == attended(w, n, s2, p2, v2),
{
    let e1 = |s: int|
        if p1(s) {
            (w.m.exp)(s1(s))
        } else {
            0real
        };
    let e2 = |s: int|
        if p2(s) {
            (w.m.exp)(s2(s))
        } else {
            0real
        };
    assert forall|s: int| 0 <= s < n implies #[trigger] e1(s) == e2(s) by {
        assert(s1(s) == s2(s) && p1(s) == p2(s));
    }
    lemma_sum_equal(n, e1, e2);
    let (f1, f2) = (
        |s: int| e1(s) / sum(n, e1) * v1(s),
        |s: int| e2(s) / sum(n, e2) * v2(s),
    );
    assert forall|s: int| 0 <= s < n implies #[trigger] f1(s) == f2(s) by {
        assert(e1(s) == e2(s) && v1(s) == v2(s));
    }
    lemma_sum_equal(n, f1, f2);
}

/// The heads of a position, as attention leaves them.
pub open spec fn attends(
    w: World,
    q: Tensor,
    k: Tensor,
    v: Tensor,
    a: Heads,
    r: real,
    visible: spec_fn(int, int, int, int) -> bool,
    b: int,
    h: int,
    t: int,
    d: int,
) -> real {
    attended(
        w,
        k.dims[2] as nat,
        |s: int| product(q, k, a.head_dim as nat, a.groups as int, b, h, t, s) / r,
        |s: int| visible(b, h, t, s),
        |s: int| (v.at)(place4(b, h / a.groups as int, s, d)),
    )
}

/// Keys and values of a layer can be attended to: as many of both, and as wide
/// as the queries.
pub open spec fn kv_fits(k: Tensor, v: Tensor, a: Heads) -> bool {
    &&& k.dims.len() == 4 && v.dims.len() == 4
    &&& v.dims[3] == a.head_dim
}

/// Queries are of the layer's heads.
pub open spec fn query_fits(q: Tensor, a: Heads) -> bool {
    q.dims.len() == 4 && q.dims[1] == a.heads && q.dims[3] == a.head_dim
}

/// The unquantized model attends, where it does so step by step, with weights
/// that are proportional to the exponential function of the product of query
/// and key, over the number `r` that is not negative and that, times itself,
/// is `query_pre_attn_scalar`. A query sees what the mask of its layer's kind
/// leaves.
pub proof fn law_text_attention(
    w: World,
    c: Style,
    m: TextAttention,
    offset: usize,
    masked: bool,
    x: Expr,
    b: int,
    t: int,
    o: int,
)
    requires
        w.m.wf(),
        masks_hide(w),
        m.query_pre_attn_scalar > 0,
        !m.use_flash_attn,
        query_fits(meaning(w, text_query_of(c, m, offset, x)), m.heads),
        kv_fits(
            (w.appended)(m.heads.layer, KvPart::Keys, meaning(w, text_key_of(c, m, offset, x))),
            (w.appended)(m.heads.layer, KvPart::Values, meaning(w, text_value_of(c, m, x))),
            m.heads,
        ),
    ensures
        ({
            let a = m.heads;
            let q = meaning(w, text_query_of(c, m, offset, x));
            let k = (w.appended)(a.layer, KvPart::Keys, meaning(w, text_key_of(c, m, offset, x)));
            let v = (w.appended)(a.layer, KvPart::Values, meaning(w, text_value_of(c, m, x)));
            let r = (w.m.sqrt)(m.query_pre_attn_scalar as real);
            let visible = |b: int, h: int, t: int, s: int| sees(w, a, masked, b, h, t, s);
            let wo = (w.leaf)(Leaf::Layer(a.layer, LayerTensor::AttnOutput));
            let bo = (w.leaf)(Leaf::Layer(a.layer, LayerTensor::AttnOutputBias));
            let d = a.head_dim as int;
            &&& r >= 0real && r * r == m.query_pre_attn_scalar as real
            &&& (meaning(w, text_attention_of(c, m, offset, masked, x)).at)(place3(b, t, o)) == sum(
                (a.heads * a.head_dim) as nat,
                |j: int|
                    attends(w, q, k, v, a, r, visible, b, j / d, t, j % d) * (wo.at)(seq![o, j]),
            ) + (if m.bias {
                (bo.at)(seq![o])
            } else {
                0real
            })
        }),
{
    let a = m.heads;
    let qe = text_query_of(c, m, offset, x);
    let ke = un(
        TOp::CacheAppend { layer: a.layer, part: KvPart::Keys },
        text_key_of(c, m, offset, x),
    );
    let ve = un(
        TOp::CacheAppend { layer: a.layer, part: KvPart::Values },
        text_value_of(c, m, x),
    );
    mean_un(
        w,
        TOp::CacheAppend { layer: a.layer, part: KvPart::Keys },
        text_key_of(c, m, offset, x),
    );
    mean_un(
        w,
        TOp::CacheAppend { layer: a.layer, part: KvPart::Values },
        text_value_of(c, m, x),
    );
    let (q, k, v) = (meaning(w, qe), meaning(w, ke), meaning(w, ve));
    let r = (w.m.sqrt)(m.query_pre_attn_scalar as real);
    assert(r > 0real) by {
        assert(r * r == m.query_pre_attn_scalar as real);
        if r == 0real {
            assert(r * r == 0real);
        }
    }
    let scale = Scalar::RecipSqrt(m.query_pre_attn_scalar);
    let raw = bin(TOp::Matmul, qe, un(TOp::Transpose { a: 2, b: 3 }, grouped_of(a, ke)));
    let scores = scaled(raw, scale);
    mean_un(w, TOp::Each(MapOp::Mul(scale)), raw);
    lemma_products(w, a, qe, ke, false, 0, 0, 0, 0);
    let vg = grouped_of(a, ve);
    lemma_grouped(w, a, ve, 0, 0, 0, 0);
    let out = weighted_of(a, masked, scores, vg);
    lemma_weighted(w, a, masked, scores, vg, 0, 0, 0, 0);
    let d = a.head_dim as int;
    let visible = |b: int, h: int, t: int, s: int| sees(w, a, masked, b, h, t, s);
    let wo = (w.leaf)(Leaf::Layer(a.layer, LayerTensor::AttnOutput));
    assert(meaning(w, out).dims =~= seq![q.dims[0], q.dims[1], q.dims[2], v.dims[3]]);
    let merged = merged_of(out);
    lemma_merged(w, out, b, t, 0);
    lemma_affine(
        w,
        merged,
        a.layer,
        LayerTensor::AttnOutput,
        m.bias,
        LayerTensor::AttnOutputBias,
        b,
        t,
        o,
    );
    let f = |j: int| (meaning(w, merged).at)(place3(b, t, j)) * (wo.at)(seq![o, j]);
    let g = |j: int|
        attends(w, q, k, v, a, r, visible, b, j / d, t, j % d) * (wo.at)(seq![o, j]);
    let n = (a.heads * a.head_dim) as nat;
    assert forall|j: int| 0 <= j < n implies #[trigger] f(j) == g(j) by {
        let (h, e) = (j / d, j % d);
        lemma_merged(w, out, b, t, j);
        lemma_weighted(w, a, masked, scores, vg, b, h, t, e);
        let s1 = |s: int| (meaning(w, scores).at)(place4(b, h, t, s));
        let p1 = |s: int| sees(w, a, masked, b, h, t, s);
        let v1 = |s: int| (meaning(w, vg).at)(place4(b, h, s, e));
        let s2 = |s: int| product(q, k, a.head_dim as nat, a.groups as int, b, h, t, s) / r;
        let p2 = |s: int| visible(b, h, t, s);
        let v2 = |s: int| (v.at)(place4(b, h / a.groups as int, s, e));
        let len = k.dims[2] as nat;
        assert forall|s: int| 0 <= s < len implies #[trigger] s1(s) == s2(s) by {
            lemma_products(w, a, qe, ke, false, b, h, t, s);
            let p = product(q, k, a.head_dim as nat, a.groups as int, b, h, t, s);
            assert(s1(s) == p * (1real / r));
            assert(p * (1real / r) == p / r) by (nonlinear_arith)
                requires
                    r > 0real,
            ;
        }
        assert forall|s: int| 0 <= s < len implies #[trigger] v1(s) == v2(s) by {
            lemma_grouped(w, a, ve, b, h, s, e);
        }
        lemma_attended_equal(w, len, s1, p1, v1, s2, p2, v2);
    }
    lemma_sum_equal(n, f, g);
}

/// What the output projection makes of the heads.
proof fn lemma_projected(
    w: World,
    a: Heads,
    out: Expr,
    bias: bool,
    head: spec_fn(int, int) -> real,
    b: int,
    t: int,
    o: int,
)
    requires
        meaning(w, out).dims.len() == 4,
        meaning(w, out).dims[1] == a.heads,
        meaning(w, out).dims[3] == a.head_dim,
        forall|h: int, e: int|
            (#[trigger] (meaning(w, out).at)(place4(b, h, t, e))) == head(h, e),
    ensures
        (meaning(
            w,
            affine_of(
                merged_of(out),
                a.layer,
                LayerTensor::AttnOutput,
                bias_of(bias, LayerTensor::AttnOutputBias),
            ),
        ).at)(place3(b, t, o)) == sum(
            (a.heads * a.head_dim) as nat,
            |j: int|
                head(j / a.head_dim as int, j % a.head_dim as int) * ((w.leaf)(
                    Leaf::Layer(a.layer, LayerTensor::AttnOutput),
                ).at)(seq![o, j]),
        ) + (if bias {
            ((w.leaf)(Leaf::Layer(a.layer, LayerTensor::AttnOutputBias)).at)(seq![o])
        } else {
            0real
        }),
{
    let d = a.head_dim as int;
    let wo = (w.leaf)(Leaf::Layer(a.layer, LayerTensor::AttnOutput));
    let merged = merged_of(out);
    lemma_merged(w, out, b, t, 0);
    lemma_affine(
        w,
        merged,
        a.layer,
        LayerTensor::AttnOutput,
        bias,
        LayerTensor::AttnOutputBias,
        b,
        t,
        o,
    );
    let f = |j: int| (meaning(w, merged).at)(place3(b, t, j)) * (wo.at)(seq![o, j]);
    let g = |j: int| head(j / d, j % d) * (wo.at)(seq![o, j]);
    let n = (a.heads * a.head_dim) as nat;
    assert forall|j: int| 0 <= j < n implies #[trigger] f(j) == g(j) by {
        lemma_merged(w, out, b, t, j);
        assert((meaning(w, out).at)(place4(b, j / d, t, j % d)) == head(j / d, j % d));
    }
    lemma_sum_equal(n, f, g);
}

/// The unquantized model attends in one operation as it does step by step,
/// where a query that does not see all keys sees those up to its own place.
pub proof fn law_text_flash_attention(
    w: World,
    c: Style,
    m: TextAttention,
    offset: usize,
    masked: bool,
    x: Expr,
    b: int,
    t: int,
    o: int,
)
    requires
        w.m.wf(),
        m.query_pre_attn_scalar > 0,
        m.use_flash_attn,
        query_fits(meaning(w, text_query_of(c, m, offset, x)), m.heads),
        kv_fits(
            (w.appended)(m.heads.layer, KvPart::Keys, meaning(w, text_key_of(c, m, offset, x))),
            (w.appended)(m.heads.layer, KvPart::Values, meaning(w, text_value_of(c, m, x))),
            m.heads,
        ),
    ensures
        ({
            let a = m.heads;
            let q = meaning(w, text_query_of(c, m, offset, x));
            let k = (w.appended)(a.layer, KvPart::Keys, meaning(w, text_key_of(c, m, offset, x)));
            let v = (w.appended)(a.layer, KvPart::Values, meaning(w, text_value_of(c, m, x)));
            let r = (w.m.sqrt)(m.query_pre_attn_scalar as real);
            let visible = |b: int, h: int, t: int, s: int|
                masked ==> s <= t + k.dims[2] - q.dims[2];
            let wo = (w.leaf)(Leaf::Layer(a.layer, LayerTensor::AttnOutput));
            let bo = (w.leaf)(Leaf::Layer(a.layer, LayerTensor::AttnOutputBias));
            let d = a.head_dim as int;
            &&& r >= 0real && r * r == m.query_pre_attn_scalar as real
            &&& (meaning(w, text_attention_of(c, m, offset, masked, x)).at)(place3(b, t, o)) == sum(
                (a.heads * a.head_dim) as nat,
                |j: int|
                    attends(w, q, k, v, a, r, visible, b, j / d, t, j % d) * (wo.at)(seq![o, j]),
            ) + (if m.bias {
                (bo.at)(seq![o])
            } else {
                0real
            })
        }),
{
    let a = m.heads;
    let qe = text_query_of(c, m, offset, x);
    let ke = un(
        TOp::CacheAppend { layer: a.layer, part: KvPart::Keys },
        text_key_of(c, m, offset, x),
    );
    let ve = un(
        TOp::CacheAppend { layer: a.layer, part: KvPart::Values },
        text_value_of(c, m, x),
    );
    mean_un(
        w,
        TOp::CacheAppend { layer: a.layer, part: KvPart::Keys },
        text_key_of(c, m, offset, x),
    );
    mean_un(
        w,
        TOp::CacheAppend { layer: a.layer, part: KvPart::Values },
        text_value_of(c, m, x),
    );
    let (q, k, v) = (meaning(w, qe), meaning(w, ke), meaning(w, ve));
    let r = (w.m.sqrt)(m.query_pre_attn_scalar as real);
    assert(r > 0real) by {
        assert(r * r == m.query_pre_attn_scalar as real);
        if r == 0real {
            assert(r * r == 0real);
        }
    }
    let turn = TOp::Transpose { a: 1, b: 2 };
    let scale = Scalar::RecipSqrt(m.query_pre_attn_scalar);
    let (kg, vg) = (grouped_of(a, ke), grouped_of(a, ve));
    let op = TOp::FlashAttn { scale, causal: masked };
    let flash = tri(op, un(turn, qe), un(turn, kg), un(turn, vg));
    let out = un(turn, flash);
    mean_un(w, turn, qe);
    mean_un(w, turn, kg);
    mean_un(w, turn, vg);
    mean_tri(w, op, un(turn, qe), un(turn, kg), un(turn, vg));
    mean_un(w, turn, flash);
    lemma_grouped(w, a, ke, 0, 0, 0, 0);
    lemma_grouped(w, a, ve, 0, 0, 0, 0);
    assert(meaning(w, out).dims =~= q.dims);
    let visible = |b: int, h: int, t: int, s: int| masked ==> s <= t + k.dims[2] - q.dims[2];
    let head = |h: int, e: int| attends(w, q, k, v, a, r, visible, b, h, t, e);
    assert forall|h: int, e: int|
        (#[trigger] (meaning(w, out).at)(place4(b, h, t, e))) == head(h, e) by {
        let i = place4(b, t, h, e);
        assert(swapped(place4(b, h, t, e), 1, 2) =~= i);
        let len = k.dims[2] as nat;
        let d = meaning(w, un(turn, qe)).dims;
        assert(d.last() == a.head_dim && d[1] == q.dims[2]);
        assert(meaning(w, un(turn, kg)).dims[1] == k.dims[2]);
        let s1 = |s: int|
            dot(
                d.last() as nat,
                |e: int| (meaning(w, un(turn, qe)).at)(with_last(i, e)),
                |e: int| (meaning(w, un(turn, kg)).at)(seq![i[0], s, i[2], e]),
            ) * w.scalar(scale);
        let p1 = |s: int| masked ==> s <= i[1] + k.dims[2] - d[1];
        let v1 = |s: int| (meaning(w, un(turn, vg)).at)(seq![i[0], s, i[2], i[3]]);
        let s2 = |s: int| product(q, k, a.head_dim as nat, a.groups as int, b, h, t, s) / r;
        let p2 = |s: int| visible(b, h, t, s);
        let v2 = |s: int| (v.at)(place4(b, h / a.groups as int, s, e));
        assert forall|s: int| 0 <= s < len implies #[trigger] s1(s) == s2(s) by {
            let f1 = |e: int|
                (meaning(w, un(turn, qe)).at)(with_last(i, e)) * (meaning(w, un(turn, kg)).at)(
                    seq![i[0], s, i[2], e],
                );
            let f2 = |e: int|
                (q.at)(place4(b, h, t, e)) * (k.at)(place4(b, h / a.groups as int, s, e));
            assert forall|e: int| 0 <= e < a.head_dim implies #[trigger] f1(e) == f2(e) by {
                assert(with_last(i, e) =~= place4(b, t, h, e));
                assert(swapped(place4(b, t, h, e), 1, 2) =~= place4(b, h, t, e));
                assert(seq![i[0], s, i[2], e] =~= place4(b, s, h, e));
                assert(swapped(place4(b, s, h, e), 1, 2) =~= place4(b, h, s, e));
                lemma_grouped(w, a, ke, b, h, s, e);
            }
            lemma_sum_equal(a.head_dim as nat, f1, f2);
            let (l1, r1) = (
                |e: int| (meaning(w, un(turn, qe)).at)(with_last(i, e)),
                |e: int| (meaning(w, un(turn, kg)).at)(seq![i[0], s, i[2], e]),
            );
            let (l2, r2) = (
                |e: int| (q.at)(place4(b, h, t, e)),
                |e: int| (k.at)(place4(b, h / a.groups as int, s, e)),
            );
            lemma_sum_equal(a.head_dim as nat, f1, |e: int| l1(e) * r1(e));
            lemma_sum_equal(a.head_dim as nat, f2, |e: int| l2(e) * r2(e));
            let p = product(q, k, a.head_dim as nat, a.groups as int, b, h, t, s);
            assert(s1(s) == p * (1real / r));
            assert(p * (1real / r) == p / r) by (nonlinear_arith)
                requires
                    r > 0real,
            ;
        }
        assert forall|s: int| 0 <= s < len implies #[trigger] v1(s) == v2(s) by {
            assert(seq![i[0], s, i[2], i[3]] =~= place4(b, s, h, e));
            assert(swapped(place4(b, s, h, e), 1, 2) =~= place4(b, h, s, e));
            lemma_grouped(w, a, ve, b, h, s, e);
        }
        lemma_attended_equal(w, len, s1, p1, v1, s2, p2, v2);
        assert((meaning(w, flash).at)(i) == attended(w, len, s1, p1, v1));
    }
    lemma_projected(w, a, out, m.bias, head, b, t, o);
    let d = a.head_dim as int;
    let wo = (w.leaf)(Leaf::Layer(a.layer, LayerTensor::AttnOutput));
    lemma_sum_equal(
        (a.heads * a.head_dim) as nat,
        |j: int| head(j / a.head_dim as int, j % a.head_dim as int) * (wo.at)(seq![o, j]),
        |j: int| attends(w, q, k, v, a, r, visible, b, j / d, t, j % d) * (wo.at)(seq![o, j]),
    );
}

/// A quantized model attends to keys and values, its own or another layer's,
/// with weights that are proportional to the exponential function of the
/// product of query and key. A query sees what the mask of its layer's kind
/// leaves; a single query that is attended to in one operation sees the last
/// keys, as many as the window has.
pub proof fn law_attention(
    w: World,
    c: Style,
    m: QAttention,
    offset: usize,
    masked: bool,
    x: Expr,
    kv: KvExpr,
    b: int,
    t: int,
    o: int,
)
    requires
        w.m.wf(),
        masks_hide(w),
        query_fits(meaning(w, query_of(c, m.heads, offset, x)), m.heads),
        kv_fits(meaning(w, kv.k), meaning(w, kv.v), m.heads),
    ensures
        ({
            let a = m.heads;
            let q = meaning(w, query_of(c, a, offset, x));
            let (k, v) = (meaning(w, kv.k), meaning(w, kv.v));
            let visible = |b: int, h: int, t: int, s: int|
                match m.decode {
                    DecodePath::Fused { window } if c.len == 1 => (window matches Some(n) ==> s
                        >= k.dims[2] - n),
                    _ => sees(w, a, masked, b, h, t, s),
                };
            let wo = (w.leaf)(Leaf::Layer(a.layer, LayerTensor::AttnOutput));
            let d = a.head_dim as int;
            (meaning(w, attention_of(c, m, offset, masked, x, kv)).at)(place3(b, t, o)) == sum(
                (a.heads * a.head_dim) as nat,
                |j: int|
                    attends(w, q, k, v, a, 1real, visible, b, j / d, t, j % d) * (wo.at)(
                        seq![o, j],
                    ),
            )
        }),
{
    let a = m.heads;
    let qe = query_of(c, a, offset, x);
    let (q, k, v) = (meaning(w, qe), meaning(w, kv.k), meaning(w, kv.v));
    let (kg, vg) = (grouped_of(a, kv.k), grouped_of(a, kv.v));
    lemma_grouped(w, a, kv.k, 0, 0, 0, 0);
    lemma_grouped(w, a, kv.v, 0, 0, 0, 0);
    let visible = |b: int, h: int, t: int, s: int|
        match m.decode {
            DecodePath::Fused { window } if c.len == 1 => (window matches Some(n) ==> s
                >= k.dims[2] - n),
            _ => sees(w, a, masked, b, h, t, s),
        };
    let head = |h: int, e: int| attends(w, q, k, v, a, 1real, visible, b, h, t, e);
    let len = k.dims[2] as nat;
    let scores = bin(TOp::Matmul, qe, contiguous(un(TOp::Transpose { a: 2, b: 3 }, kg)));
    let plain = weighted_of(a, masked, scores, vg);
    let out = match m.decode {
        DecodePath::Fused { window } if c.len == 1 => tri(
            TOp::FlashAttnDecode { window },
            qe,
            kg,
            vg,
        ),
        _ => plain,
    };
    lemma_products(w, a, qe, kv.k, true, 0, 0, 0, 0);
    lemma_weighted(w, a, masked, scores, vg, 0, 0, 0, 0);
    if let DecodePath::Fused { window } = m.decode {
        mean_tri(w, TOp::FlashAttnDecode { window }, qe, kg, vg);
    }
    assert(meaning(w, plain).dims =~= seq![q.dims[0], q.dims[1], q.dims[2], v.dims[3]]);
    assert forall|h: int, e: int|
        (#[trigger] (meaning(w, out).at)(place4(b, h, t, e))) == head(h, e) by {
        let i = place4(b, h, t, e);
        let s2 = |s: int| product(q, k, a.head_dim as nat, a.groups as int, b, h, t, s) / 1real;
        let p2 = |s: int| visible(b, h, t, s);
        let v2 = |s: int| (v.at)(place4(b, h / a.groups as int, s, e));
        match m.decode {
            DecodePath::Fused { window } if c.len == 1 => {
                let s1 = |s: int|
                    dot(
                        q.dims.last() as nat,
                        |e: int| (q.at)(with_last(i, e)),
                        |e: int| (meaning(w, kg).at)(seq![i[0], i[1], s, e]),
                    );
                let p1 = |s: int| window matches Some(n) ==> s >= k.dims[2] - n;
                let v1 = |s: int| (meaning(w, vg).at)(seq![i[0], i[1], s, i[3]]);
                assert forall|s: int| 0 <= s < len implies #[trigger] s1(s) == s2(s) by {
                    let (l1, r1) = (
                        |e: int| (q.at)(with_last(i, e)),
                        |e: int| (meaning(w, kg).at)(seq![i[0], i[1], s, e]),
                    );
                    let (l2, r2) = (
                        |e: int| (q.at)(place4(b, h, t, e)),
                        |e: int| (k.at)(place4(b, h / a.groups as int, s, e)),
                    );
                    let (f1, f2) = (|e: int| l1(e) * r1(e), |e: int| l2(e) * r2(e));
                    assert forall|e: int| 0 <= e < a.head_dim implies #[trigger] f1(e) == f2(e) by {
                        assert(with_last(i, e) =~= place4(b, h, t, e));
                        assert(seq![i[0], i[1], s, e] =~= place4(b, h, s, e));
                        lemma_grouped(w, a, kv.k, b, h, s, e);
                    }
                    lemma_sum_equal(a.head_dim as nat, f1, f2);
                }
                assert forall|s: int| 0 <= s < len implies #[trigger] v1(s) == v2(s) by {
                    assert(seq![i[0], i[1], s, i[3]] =~= place4(b, h, s, e));
                    lemma_grouped(w, a, kv.v, b, h, s, e);
                }
                lemma_attended_equal(w, len, s1, p1, v1, s2, p2, v2);
                assert((meaning(w, out).at)(i) == attended(w, len, s1, p1, v1));
            },
            _ => {
                lemma_weighted(w, a, masked, scores, vg, b, h, t, e);
                let s1 = |s: int| (meaning(w, scores).at)(place4(b, h, t, s));
                let p1 = |s: int| sees(w, a, masked, b, h, t, s);
                let v1 = |s: int| (meaning(w, vg).at)(place4(b, h, s, e));
                assert forall|s: int| 0 <= s < len implies #[trigger] s1(s) == s2(s) by {
                    lemma_products(w, a, qe, kv.k, true, b, h, t, s);
                }
                assert forall|s: int| 0 <= s < len implies #[trigger] v1(s) == v2(s) by {
                    lemma_grouped(w, a, kv.v, b, h, s, e);
                }
                lemma_attended_equal(w, len, s1, p1, v1, s2, p2, v2);
            },
        }
    }
    lemma_projected(w, a, out, false, head, b, t, o);
    assert(attention_of(c, m, offset, masked, x, kv) == affine_of(
        merged_of(out),
        a.layer,
        LayerTensor::AttnOutput,
        None,
    ));
    let d = a.head_dim as int;
    let wo = (w.leaf)(Leaf::Layer(a.layer, LayerTensor::AttnOutput));
    lemma_sum_equal(
        (a.heads * a.head_dim) as nat,
        |j: int| head(j / a.head_dim as int, j % a.head_dim as int) * (wo.at)(seq![o, j]),
        |j: int| attends(w, q, k, v, a, 1real, visible, b, j / d, t, j % d) * (wo.at)(seq![o, j]),
    );
}

} // verus!
