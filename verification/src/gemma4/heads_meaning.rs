//! What queries, keys and values are, in real numbers.

use crate::gemma4::attention::{
    affine_of, bias_of, dense_heads_of, key_of, query_of, rotated_of, split_of, text_key_of,
    text_query_of, text_value_of, value_of, Heads, QAttention, TextAttention,
};
use crate::gemma4::attention_meaning::{lemma_affine, query_fits};
use crate::gemma4::block::{each_of, internal_of, norm_of, v_norm_of, Norm, Style};
use crate::gemma4::layer_meaning::{lemma_linear3, row_by, weight};
use crate::tensor::meaning::{mean_bin, mean_un, meaning, place3, place4, rotated, swapped, World};
use crate::tensor::op::{
    bin, contiguous, leaf, linear, un, BinOp, Expr, LayerTensor, Leaf, MapOp, RopeTable, Scalar,
    TOp,
};
use vstd::prelude::*;

verus! {

proof fn lemma_norm_dims(w: World, c: Style, n: usize, x: Expr, l: Leaf)
    ensures
        meaning(w, norm_of(c.norm, c.dtype, c.eps, n, x, l)).dims == meaning(w, x).dims,
{
    match c.norm {
        Norm::Fused => {
            mean_bin(w, TOp::RmsNorm(c.eps), x, leaf(l));
        },
        Norm::Offset => {
            let xi = un(TOp::Cast(internal_of(c.dtype)), x);
            let mean = each_of(
                MapOp::Div(Scalar::Count(n)),
                un(TOp::SumKeepLast, each_of(MapOp::Sqr, xi)),
            );
            let root = each_of(MapOp::Sqrt, each_of(MapOp::Add(Scalar::Bits(c.eps)), mean));
            let normed = bin(TOp::ZipBroadcast(BinOp::Div), xi, root);
            let back = un(TOp::Cast(c.dtype), normed);
            mean_un(w, TOp::Cast(internal_of(c.dtype)), x);
            mean_bin(w, TOp::ZipBroadcast(BinOp::Div), xi, root);
            mean_un(w, TOp::Cast(c.dtype), normed);
            mean_bin(
                w,
                TOp::ZipBroadcast(BinOp::Mul),
                back,
                each_of(MapOp::Add(Scalar::One), leaf(l)),
            );
        },
    }
}

proof fn lemma_split(
    w: World,
    y: Expr,
    heads: usize,
    width: usize,
    b: int,
    h: int,
    t: int,
    d: int,
)
    requires
        meaning(w, y).dims.len() == 3,
    ensures
        (meaning(w, split_of(y, heads, width)).at)(place4(b, h, t, d)) == (meaning(w, y).at)(
            place3(b, t, h * width + d),
        ),
        meaning(w, split_of(y, heads, width)).dims == seq![
            meaning(w, y).dims[0],
            heads as int,
            meaning(w, y).dims[1],
            width as int,
        ],
{
    let s = un(TOp::SplitLast { outer: heads, inner: width }, y);
    mean_un(w, TOp::SplitLast { outer: heads, inner: width }, y);
    mean_un(w, TOp::Transpose { a: 1, b: 2 }, s);
    assert(swapped(place4(b, h, t, d), 1, 2) =~= place4(b, t, h, d));
    assert(place4(b, t, h, d).drop_last().drop_last().push(h * width + d) =~= place3(
        b,
        t,
        h * width + d,
    ));
    assert(meaning(w, split_of(y, heads, width)).dims =~= seq![
        meaning(w, y).dims[0],
        heads as int,
        meaning(w, y).dims[1],
        width as int,
    ]);
}

/// A tensor holds the heads that a layer's weight makes of the rows of `x`:
/// channel `d` of head `h` is made by row `h * width + d` of the weight.
pub open spec fn holds_heads(
    w: World,
    y: Expr,
    x: Expr,
    layer: usize,
    t: LayerTensor,
    bias: Option<LayerTensor>,
    heads: usize,
    width: usize,
) -> bool {
    &&& meaning(w, y).dims == seq![
        meaning(w, x).dims[0],
        heads as int,
        meaning(w, x).dims[1],
        width as int,
    ]
    &&& forall|b: int, h: int, p: int, d: int| #[trigger]
        (meaning(w, y).at)(place4(b, h, p, d)) == row_by(
            meaning(w, x),
            weight(w, layer, t),
            b,
            p,
            h * width + d,
        ) + (match bias {
            Some(s) => (weight(w, layer, s).at)(seq![h * width + d]),
            None => 0real,
        })
}

/// A tensor is what another one is when it is normalized by a layer's weight
/// and turned: by the local table on a sliding layer, by the global one on
/// another, each position by its own angles.
pub open spec fn holds_turned(
    w: World,
    c: Style,
    a: Heads,
    offset: usize,
    y: Expr,
    t: LayerTensor,
    q: Expr,
) -> bool {
    let normed = meaning(
        w,
        norm_of(c.norm, c.dtype, c.eps, a.head_dim, y, Leaf::Layer(a.layer, t)),
    );
    let table = if a.sliding {
        RopeTable::Local
    } else {
        RopeTable::Global
    };
    &&& meaning(w, q).dims == meaning(w, y).dims
    &&& forall|i: Seq<int>| #[trigger] (meaning(w, q).at)(i) == rotated(
        w,
        table,
        offset as int,
        normed,
        i,
    )
}

proof fn lemma_turned(w: World, c: Style, a: Heads, offset: usize, y: Expr, t: LayerTensor)
    ensures
        ({
            let n = norm_of(c.norm, c.dtype, c.eps, a.head_dim, y, Leaf::Layer(a.layer, t));
            &&& holds_turned(w, c, a, offset, y, t, rotated_of(a, offset, n))
            &&& holds_turned(w, c, a, offset, y, t, contiguous(rotated_of(a, offset, n)))
        }),
{
    let l = Leaf::Layer(a.layer, t);
    let n = norm_of(c.norm, c.dtype, c.eps, a.head_dim, y, l);
    lemma_norm_dims(w, c, a.head_dim, y, l);
    let op = TOp::Rope { table: a.spec_table(), offset };
    mean_un(w, TOp::Each(MapOp::Contiguous), n);
    mean_un(w, op, contiguous(n));
    mean_un(w, TOp::Each(MapOp::Contiguous), rotated_of(a, offset, n));
    assert forall|i: Seq<int>| #[trigger] rotated(
        w,
        a.spec_table(),
        offset as int,
        meaning(w, contiguous(n)),
        i,
    ) == rotated(w, a.spec_table(), offset as int, meaning(w, n), i) by {}
}

proof fn lemma_affine_heads(
    w: World,
    x: Expr,
    layer: usize,
    t: LayerTensor,
    bias: bool,
    s: LayerTensor,
    heads: usize,
    width: usize,
)
    requires
        meaning(w, x).dims.len() == 3,
    ensures
        holds_heads(
            w,
            split_of(affine_of(x, layer, t, bias_of(bias, s)), heads, width),
            x,
            layer,
            t,
            bias_of(bias, s),
            heads,
            width,
        ),
{
    let y = affine_of(x, layer, t, bias_of(bias, s));
    let e = split_of(y, heads, width);
    lemma_affine(w, x, layer, t, bias, s, 0, 0, 0);
    lemma_split(w, y, heads, width, 0, 0, 0, 0);
    assert forall|b: int, h: int, p: int, d: int| #[trigger]
        (meaning(w, e).at)(place4(b, h, p, d)) == row_by(
            meaning(w, x),
            weight(w, layer, t),
            b,
            p,
            h * width + d,
        ) + (match bias_of(bias, s) {
            Some(k) => (weight(w, layer, k).at)(seq![h * width + d]),
            None => 0real,
        }) by {
        lemma_split(w, y, heads, width, b, h, p, d);
        lemma_affine(w, x, layer, t, bias, s, b, p, h * width + d);
    }
}

proof fn lemma_dense_heads(
    w: World,
    x: Expr,
    layer: usize,
    t: LayerTensor,
    heads: usize,
    width: usize,
)
    requires
        meaning(w, x).dims.len() == 3,
    ensures
        holds_heads(w, dense_heads_of(layer, t, heads, width, x), x, layer, t, None, heads, width),
{
    let y = linear(x, Leaf::Layer(layer, t));
    let e = split_of(y, heads, width);
    let dense = dense_heads_of(layer, t, heads, width, x);
    lemma_linear3(w, x, Leaf::Layer(layer, t), 0, 0, 0);
    lemma_split(w, y, heads, width, 0, 0, 0, 0);
    mean_un(w, TOp::Each(MapOp::Contiguous), e);
    assert forall|b: int, h: int, p: int, d: int| #[trigger]
        (meaning(w, dense).at)(place4(b, h, p, d)) == row_by(
            meaning(w, x),
            weight(w, layer, t),
            b,
            p,
            h * width + d,
        ) + 0real by {
        lemma_split(w, y, heads, width, b, h, p, d);
        lemma_linear3(w, x, Leaf::Layer(layer, t), b, p, h * width + d);
    }
}

/// Queries of the unquantized model are made by their own weight and bias,
/// normalized by their own weight and turned. They are of the layer's heads.
pub proof fn law_text_query(w: World, c: Style, m: TextAttention, offset: usize, x: Expr)
    requires
        meaning(w, x).dims.len() == 3,
    ensures
        query_fits(meaning(w, text_query_of(c, m, offset, x)), m.heads),
        exists|y: Expr|
            holds_heads(
                w,
                y,
                x,
                m.heads.layer,
                LayerTensor::AttnQ,
                bias_of(m.bias, LayerTensor::AttnQBias),
                m.heads.heads,
                m.heads.head_dim,
            ) && #[trigger] holds_turned(
                w,
                c,
                m.heads,
                offset,
                y,
                LayerTensor::AttnQNorm,
                text_query_of(c, m, offset, x),
            ),
{
    let a = m.heads;
    let y = split_of(
        affine_of(x, a.layer, LayerTensor::AttnQ, bias_of(m.bias, LayerTensor::AttnQBias)),
        a.heads,
        a.head_dim,
    );
    lemma_affine_heads(
        w,
        x,
        a.layer,
        LayerTensor::AttnQ,
        m.bias,
        LayerTensor::AttnQBias,
        a.heads,
        a.head_dim,
    );
    lemma_turned(w, c, a, offset, y, LayerTensor::AttnQNorm);
    assert(holds_turned(
        w,
        c,
        a,
        offset,
        y,
        LayerTensor::AttnQNorm,
        text_query_of(c, m, offset, x),
    ));
}

/// Keys of the unquantized model are made by their own weight and bias,
/// normalized by their own weight and turned.
pub proof fn law_text_key(w: World, c: Style, m: TextAttention, offset: usize, x: Expr)
    requires
        meaning(w, x).dims.len() == 3,
    ensures
        exists|y: Expr|
            holds_heads(
                w,
                y,
                x,
                m.heads.layer,
                LayerTensor::AttnK,
                bias_of(m.bias, LayerTensor::AttnKBias),
                m.heads.kv_heads,
                m.heads.head_dim,
            ) && #[trigger] holds_turned(
                w,
                c,
                m.heads,
                offset,
                y,
                LayerTensor::AttnKNorm,
                text_key_of(c, m, offset, x),
            ),
{
    let a = m.heads;
    let y = split_of(
        affine_of(x, a.layer, LayerTensor::AttnK, bias_of(m.bias, LayerTensor::AttnKBias)),
        a.kv_heads,
        a.head_dim,
    );
    lemma_affine_heads(
        w,
        x,
        a.layer,
        LayerTensor::AttnK,
        m.bias,
        LayerTensor::AttnKBias,
        a.kv_heads,
        a.head_dim,
    );
    lemma_turned(w, c, a, offset, y, LayerTensor::AttnKNorm);
    assert(holds_turned(w, c, a, offset, y, LayerTensor::AttnKNorm, text_key_of(c, m, offset, x)));
}

/// Values of the unquantized model are made by their own weight and bias, and
/// normalized without a weight; they are not turned.
pub proof fn law_text_value(w: World, c: Style, m: TextAttention, x: Expr)
    requires
        meaning(w, x).dims.len() == 3,
    ensures
        exists|y: Expr|
            holds_heads(
                w,
                y,
                x,
                m.heads.layer,
                LayerTensor::AttnV,
                bias_of(m.bias, LayerTensor::AttnVBias),
                m.heads.kv_heads,
                m.heads.head_dim,
            ) && text_value_of(c, m, x) == #[trigger] v_norm_of(c.norm, c.dtype, c.eps, y),
{
    let a = m.heads;
    let y = split_of(
        affine_of(x, a.layer, LayerTensor::AttnV, bias_of(m.bias, LayerTensor::AttnVBias)),
        a.kv_heads,
        a.head_dim,
    );
    lemma_affine_heads(
        w,
        x,
        a.layer,
        LayerTensor::AttnV,
        m.bias,
        LayerTensor::AttnVBias,
        a.kv_heads,
        a.head_dim,
    );
    assert(text_value_of(c, m, x) == v_norm_of(c.norm, c.dtype, c.eps, y));
}

/// Queries and keys of a quantized model are each made by their own weight,
/// normalized by their own weight and turned. The queries are of the layer's
/// heads.
pub proof fn law_query_and_key(w: World, c: Style, a: Heads, offset: usize, x: Expr)
    requires
        meaning(w, x).dims.len() == 3,
    ensures
        query_fits(meaning(w, query_of(c, a, offset, x)), a),
        exists|y: Expr|
            holds_heads(w, y, x, a.layer, LayerTensor::AttnQ, None, a.heads, a.head_dim)
                && #[trigger] holds_turned(
                w,
                c,
                a,
                offset,
                y,
                LayerTensor::AttnQNorm,
                query_of(c, a, offset, x),
            ),
        exists|y: Expr|
            holds_heads(w, y, x, a.layer, LayerTensor::AttnK, None, a.kv_heads, a.head_dim)
                && #[trigger] holds_turned(
                w,
                c,
                a,
                offset,
                y,
                LayerTensor::AttnKNorm,
                key_of(c, a, offset, x),
            ),
{
    let y = dense_heads_of(a.layer, LayerTensor::AttnQ, a.heads, a.head_dim, x);
    let z = dense_heads_of(a.layer, LayerTensor::AttnK, a.kv_heads, a.head_dim, x);
    lemma_dense_heads(w, x, a.layer, LayerTensor::AttnQ, a.heads, a.head_dim);
    lemma_dense_heads(w, x, a.layer, LayerTensor::AttnK, a.kv_heads, a.head_dim);
    lemma_turned(w, c, a, offset, y, LayerTensor::AttnQNorm);
    lemma_turned(w, c, a, offset, z, LayerTensor::AttnKNorm);
    assert(holds_turned(w, c, a, offset, y, LayerTensor::AttnQNorm, query_of(c, a, offset, x)));
    assert(holds_turned(w, c, a, offset, z, LayerTensor::AttnKNorm, key_of(c, a, offset, x)));
}

/// Values of a quantized model are made by their own weight, or by that of the
/// keys where they have none, and normalized without a weight; they are not
/// turned.
pub proof fn law_value(w: World, c: Style, m: QAttention, x: Expr)
    requires
        meaning(w, x).dims.len() == 3,
    ensures
        exists|y: Expr|
            holds_heads(
                w,
                y,
                x,
                m.heads.layer,
                if m.has_value {
                    LayerTensor::AttnV
                } else {
                    LayerTensor::AttnK
                },
                None,
                m.heads.kv_heads,
                m.heads.head_dim,
            ) && forall|i: Seq<int>| #[trigger]
                (meaning(w, value_of(c, m, x)).at)(i) == (meaning(
                    w,
                    #[trigger] v_norm_of(c.norm, c.dtype, c.eps, y),
                ).at)(i),
{
    let a = m.heads;
    let t = if m.has_value {
        LayerTensor::AttnV
    } else {
        LayerTensor::AttnK
    };
    let y = dense_heads_of(a.layer, t, a.kv_heads, a.head_dim, x);
    lemma_dense_heads(w, x, a.layer, t, a.kv_heads, a.head_dim);
    mean_un(w, TOp::Each(MapOp::Contiguous), v_norm_of(c.norm, c.dtype, c.eps, y));
}

} // verus!
