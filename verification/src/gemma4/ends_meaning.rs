//! What both ends of a pass compute, in real numbers.

use crate::analysis::is_root;
use crate::dtype::DType;
use crate::gemma4::block::{norm_of, Style};
use crate::gemma4::block_meaning::{inside, law_capped, law_scaled_rows};
use crate::gemma4::config::F64Bits;
use crate::gemma4::ends::{
    capped_of, last_then_norm_of, logits_of, looked_up_of, norm_then_last_of, output_norm_of,
    side_table_of, SideEmbedding,
};
use crate::gemma4::layer_meaning::{lemma_linear3, row_by};
use crate::gemma4::pass::{run_of, CacheStep};
use crate::gemma4::quantized::{self, cap_of};
use crate::gemma4::quantized_e2b;
use crate::gemma4::streams::{averaged_of, expanded_of, summed_of, Rescale};
use crate::gemma4::text::{self, StepShape, TextModel};
use crate::tensor::meaning::{
    mean_bin, mean_leaf, mean_un, meaning, place3, place4, spread_to, World,
};
use crate::tensor::op::{
    bin, leaf, linear, scaled, un, BinOp, Expr, Leaf, MapOp, Scalar, TOp, TopTensor,
};
use vstd::prelude::*;

verus! {

/// A state holds, at every position, the row of the position's token in the
/// embedding table, times the number that is not negative and that, times
/// itself, is `n`.
pub open spec fn is_scaled_rows(w: World, x: Expr, n: usize) -> bool {
    exists|s: real|
        #[trigger] is_root(s, n as real) && forall|b: int, t: int, k: int| #[trigger]
            (meaning(w, x).at)(place3(b, t, k)) == ((w.leaf)(
                Leaf::Top(TopTensor::TokenEmbedding),
            ).at)(seq![(w.token)(seq![b, t]), k]) * s
}

proof fn lemma_rows(w: World, n: usize)
    requires
        w.m.wf(),
    ensures
        is_scaled_rows(w, scaled(looked_up_of(TopTensor::TokenEmbedding), Scalar::Sqrt(n)), n),
{
    let e = scaled(looked_up_of(TopTensor::TokenEmbedding), Scalar::Sqrt(n));
    let s = (w.m.sqrt)(n as real);
    law_scaled_rows(w, n, 0, 0, 0);
    assert forall|b: int, t: int, k: int| #[trigger]
        (meaning(w, e).at)(place3(b, t, k)) == ((w.leaf)(Leaf::Top(TopTensor::TokenEmbedding)).at)(
            seq![(w.token)(seq![b, t]), k],
        ) * s by {
        law_scaled_rows(w, n, b, t, k);
    }
    assert(is_root(s, n as real));
}

/// The embeddings of the unquantized model are the tokens' rows, times the root
/// of the hidden size.
pub proof fn law_text_embeddings(m: &TextModel, w: World)
    requires
        w.m.wf(),
    ensures
        is_scaled_rows(w, m.embeds_formula(), m.cfg.hidden_size),
{
    lemma_rows(w, m.cfg.hidden_size);
}

/// The state that enters the first layer of the small quantized model is the
/// tokens' rows, times the root of the hidden size; it is the same function of
/// the table as the embeddings of an unquantized model of that size.
pub proof fn law_e2b_entry(
    m: &quantized_e2b::ModelWeights,
    text: &TextModel,
    batch: usize,
    len: usize,
    offset: usize,
    w: World,
)
    requires
        w.m.wf(),
        text.cfg.hidden_size == m.cfg.hidden_size,
    ensures
        exists|x: Expr|
            {
                let v = m.pass_of(batch, len, offset);
                let out = run_of(v, x, m.layers@.len()).x;
                let raw = logits_of(TopTensor::Output, None, norm_then_last_of(v.c, out));
                &&& run_of(v, x, 0).x == x
                &&& #[trigger] is_scaled_rows(w, x, m.cfg.hidden_size)
                &&& x == text.embeds_formula()
                &&& m.logits_formula(batch, len, offset) == (match cap_of(&m.cfg) {
                    Some(k) => capped_of(k, un(TOp::Cast(DType::F32), raw)),
                    None => raw,
                })
            },
{
    lemma_rows(w, m.cfg.hidden_size);
    let v = m.pass_of(batch, len, offset);
    let x = scaled(looked_up_of(TopTensor::TokenEmbedding), Scalar::Sqrt(m.cfg.hidden_size));
    assert(run_of(v, x, 0).x == x);
    let out = run_of(v, x, m.layers@.len()).x;
}

/// The state that enters the first layer of the quantized model, where it has
/// one stream, is the tokens' rows, times the root of the hidden size.
pub proof fn law_quantized_entry(
    m: &quantized::ModelWeights,
    batch: usize,
    len: usize,
    offset: usize,
    caches: Seq<CacheStep>,
    w: World,
)
    requires
        w.m.wf(),
        m.streams is None,
    ensures
        exists|x: Expr|
            {
                let v = m.pass_of(batch, len, offset, caches);
                let out = run_of(v, x, m.layers@.len()).x;
                &&& run_of(v, x, 0).x == x
                &&& #[trigger] is_scaled_rows(w, x, m.cfg.hidden_size)
                &&& m.logits_formula(batch, len, offset, caches) == logits_of(
                    TopTensor::Output,
                    cap_of(&m.cfg),
                    output_norm_of(v.c, out),
                )
            },
{
    lemma_rows(w, m.cfg.hidden_size);
    let v = m.pass_of(batch, len, offset, caches);
    let x = scaled(looked_up_of(TopTensor::TokenEmbedding), Scalar::Sqrt(m.cfg.hidden_size));
    assert(run_of(v, x, 0).x == x);
    let out = run_of(v, x, m.layers@.len()).x;
}

/// A logit is the product of the state's row with the head's row for the token,
/// capped where there is a cap: then it is below the cap in size.
pub proof fn law_logits(
    w: World,
    head: TopTensor,
    cap: Option<F64Bits>,
    x: Expr,
    b: int,
    t: int,
    token: int,
)
    requires
        w.m.wf(),
        meaning(w, x).dims.len() == 3,
        cap matches Some(c) ==> (w.number)(c) > 0real,
    ensures
        ({
            let raw = row_by(meaning(w, x), (w.leaf)(Leaf::Top(head)), b, t, token);
            let y = (meaning(w, logits_of(head, cap, x)).at)(place3(b, t, token));
            match cap {
                Some(c) => y == w.m.tanh(raw / (w.number)(c)) * (w.number)(c) && -(w.number)(c) < y
                    < (w.number)(c),
                None => y == raw,
            }
        }),
{
    lemma_linear3(w, x, Leaf::Top(head), b, t, token);
    if let Some(c) = cap {
        law_capped(
            w,
            c,
            linear(x, Leaf::Top(head)),
            place3(b, t, token),
            place3(b, t, token),
        );
    }
}

/// The one position that comes out is the last one of the step, whether it is
/// taken before the final normalization or behind it.
pub proof fn law_last_position(w: World, c: Style, x: Expr, b: int, k: int)
    requires
        c.len > 0,
    ensures
        (meaning(w, norm_then_last_of(c, x)).at)(place3(b, 0, k)) == (meaning(
            w,
            output_norm_of(c, x),
        ).at)(place3(b, c.len - 1, k)),
        exists|last: Expr| #[trigger]
            output_norm_of(c, last) == last_then_norm_of(c, x) && (meaning(w, last).at)(
                place3(b, 0, k),
            ) == (meaning(w, x).at)(place3(b, c.len - 1, k)),
{
    let i = (c.len - 1) as usize;
    let normed = output_norm_of(c, x);
    let one = un(TOp::Select { axis: 1, index: i }, normed);
    mean_un(w, TOp::Select { axis: 1, index: i }, normed);
    mean_un(w, TOp::Unsqueeze { axis: 1 }, one);
    assert(place3(b, 0, k).remove(1) =~= seq![b, k]);
    assert(seq![b, k].insert(1, i as int) =~= place3(b, c.len - 1, k));
    let last = un(TOp::Narrow { axis: 1, start: i, len: 1 }, x);
    mean_un(w, TOp::Narrow { axis: 1, start: i, len: 1 }, x);
    assert(place3(b, 0, k).update(1, 0 + i as int) =~= place3(b, c.len - 1, k));
    assert(output_norm_of(c, last) == last_then_norm_of(c, x));
}

/// A tensor holds, for every position and layer, what the model's projection
/// makes of the position's embedding, over `h`.
pub open spec fn is_projected(
    w: World,
    s: SideEmbedding,
    embeds: Expr,
    h: real,
    proj: Expr,
) -> bool {
    forall|b: int, t: int, l: int, k: int| #[trigger]
        (meaning(w, proj).at)(place4(b, t, l, k)) * h == row_by(
            meaning(w, embeds),
            (w.leaf)(Leaf::Top(TopTensor::PerLayerModelProjection)),
            b,
            t,
            l * s.width + k,
        )
}

/// An element of the auxiliary embeddings, times the root of two, is that of the
/// normalized projection and the token's own.
pub open spec fn is_side_of(
    w: World,
    c: Style,
    s: SideEmbedding,
    embeds: Expr,
    proj: Expr,
    b: int,
    t: int,
    l: int,
    k: int,
) -> bool {
    let row = ((w.leaf)(Leaf::Top(TopTensor::PerLayerTokenEmbedding)).at)(
        seq![(w.token)(seq![b, t]), l * s.width + k],
    );
    let normed = norm_of(
        c.norm,
        c.dtype,
        c.eps,
        s.width,
        proj,
        Leaf::Top(TopTensor::PerLayerProjectionNorm),
    );
    let y = (meaning(w, side_table_of(c, s, embeds)).at)(place4(b, t, l, k));
    &&& is_projected(w, s, embeds, (w.m.sqrt)(c.nominal as real), proj)
    &&& y * (w.m.sqrt)(2real) == (meaning(w, normed).at)(place4(b, t, l, k)) + (if s.rows is None {
        0real
    } else if s.scale_rows {
        row * (w.m.sqrt)(s.width as real)
    } else {
        row
    })
}

/// The auxiliary embeddings of the layers: the projection of the token
/// embeddings, over the root of the hidden size and normalized layer by layer;
/// the tokens' own rows, times the root of the width where they are scaled; and
/// the sum over the root of two.
pub proof fn law_side_table(
    w: World,
    c: Style,
    s: SideEmbedding,
    embeds: Expr,
    b: int,
    t: int,
    l: int,
    k: int,
)
    requires
        w.m.wf(),
        meaning(w, embeds).dims.len() == 3,
        c.nominal > 0,
        inside(
            place4(b, t, l, k),
            seq![meaning(w, embeds).dims[0], meaning(w, embeds).dims[1], s.layers as int, s.width as int],
        ),
        meaning(w, looked_up_of(TopTensor::PerLayerTokenEmbedding)).dims.len() == 3,
        meaning(w, looked_up_of(TopTensor::PerLayerTokenEmbedding)).dims[0] == meaning(
            w,
            embeds,
        ).dims[0],
        meaning(w, looked_up_of(TopTensor::PerLayerTokenEmbedding)).dims[1] == meaning(
            w,
            embeds,
        ).dims[1],
    ensures
        ({
            let (two, h, side) = (
                (w.m.sqrt)(2real),
                (w.m.sqrt)(c.nominal as real),
                (w.m.sqrt)(s.width as real),
            );
            &&& two > 0real && two * two == 2real
            &&& h > 0real && h * h == c.nominal as real
            &&& side >= 0real && side * side == s.width as real
            &&& exists|proj: Expr| #[trigger] is_side_of(w, c, s, embeds, proj, b, t, l, k)
        }),
{
    let (two, h) = ((w.m.sqrt)(2real), (w.m.sqrt)(c.nominal as real));
    assert(two >= 0real && two * two == 2real && h >= 0real && h * h == c.nominal as real);
    if two == 0real {
        assert(two * two == 0real);
    }
    if h == 0real {
        assert(h * h == 0real);
    }
    let side = (w.m.sqrt)(s.width as real);
    assert(side >= 0real && side * side == s.width as real);
    let pl = Leaf::Top(TopTensor::PerLayerModelProjection);
    let nl = Leaf::Top(TopTensor::PerLayerProjectionNorm);
    let tl = Leaf::Top(TopTensor::PerLayerTokenEmbedding);
    let by_layer = TOp::SplitLast { outer: s.layers, inner: s.width };
    let flat = linear(embeds, pl);
    let small = scaled(flat, Scalar::RecipSqrt(c.nominal));
    let proj = un(by_layer, small);
    let normed = norm_of(c.norm, c.dtype, c.eps, s.width, proj, nl);
    let raw = looked_up_of(TopTensor::PerLayerTokenEmbedding);
    let rows = un(by_layer, raw);
    let table = if s.scale_rows {
        scaled(rows, Scalar::Sqrt(s.width))
    } else {
        rows
    };
    let merged = match s.rows {
        Some(_) => bin(TOp::ZipBroadcast(BinOp::Add), normed, table),
        None => normed,
    };
    let halved = scaled(merged, Scalar::RecipSqrt(2));
    let i = place4(b, t, l, k);
    let j = l * s.width + k;
    let i3 = place3(b, t, j);
    lemma_linear3(w, embeds, pl, b, t, j);
    mean_un(w, TOp::Each(MapOp::Mul(Scalar::RecipSqrt(c.nominal))), flat);
    mean_un(w, by_layer, small);
    assert(i.drop_last().drop_last().push(j) =~= i3);
    assert forall|b: int, t: int, l: int, k: int| #[trigger]
        (meaning(w, proj).at)(place4(b, t, l, k)) * h == row_by(
            meaning(w, embeds),
            (w.leaf)(pl),
            b,
            t,
            l * s.width + k,
        ) by {
        let at = place4(b, t, l, k);
        let to = l * s.width + k;
        assert(at.drop_last().drop_last().push(to) =~= place3(b, t, to));
        lemma_linear3(w, embeds, pl, b, t, to);
        let a = (meaning(w, flat).at)(place3(b, t, to));
        assert(a * (1real / h) * h == a) by (nonlinear_arith)
            requires
                h > 0real,
        ;
    }
    assert(is_projected(w, s, embeds, h, proj));
    mean_leaf(w, Leaf::TokenIds);
    mean_leaf(w, tl);
    mean_bin(w, TOp::Embed, leaf(Leaf::TokenIds), leaf(tl));
    assert(i3.drop_last() =~= seq![b, t]);
    mean_un(w, by_layer, raw);
    mean_un(w, TOp::Each(MapOp::Mul(Scalar::Sqrt(s.width))), rows);
    mean_bin(w, TOp::ZipBroadcast(BinOp::Add), normed, table);
    let d = seq![
        meaning(w, embeds).dims[0],
        meaning(w, embeds).dims[1],
        s.layers as int,
        s.width as int,
    ];
    assert(meaning(w, table).dims =~= d);
    assert(spread_to(i, d) =~= i) by {
        assert(0 <= i[0] < d[0] && 0 <= i[1] < d[1] && 0 <= i[2] < d[2] && 0 <= i[3] < d[3]);
    }
    mean_un(w, TOp::Each(MapOp::Mul(Scalar::RecipSqrt(2))), merged);
    mean_un(w, TOp::Each(MapOp::Contiguous), halved);
    assert(2usize as real == 2real);
    let e = (meaning(w, merged).at)(i);
    assert(e * (1real / two) * two == e) by (nonlinear_arith)
        requires
            two > 0real,
    ;
    let row = ((w.leaf)(tl).at)(seq![(w.token)(seq![b, t]), j]);
    assert((meaning(w, rows).at)(i) == row);
    let extra = if s.rows is None {
        0real
    } else if s.scale_rows {
        row * side
    } else {
        row
    };
    assert(e == (meaning(w, normed).at)(i) + extra);
    let y = (meaning(w, side_table_of(c, s, embeds)).at)(i);
    assert(y == e * (1real / two));
    assert(y * two == (meaning(w, normed).at)(i) + extra);
    assert(is_side_of(w, c, s, embeds, proj, b, t, l, k));
}

/// A state holds, at every position, the row of the position's token in the
/// embedding table as it is.
pub open spec fn is_rows(w: World, x: Expr) -> bool {
    forall|b: int, t: int, k: int| #[trigger]
        (meaning(w, x).at)(place3(b, t, k)) == ((w.leaf)(
            Leaf::Top(TopTensor::TokenEmbedding),
        ).at)(seq![(w.token)(seq![b, t]), k])
}

/// The auxiliary embeddings of both quantized models are made of the tokens'
/// rows, not scaled.
pub proof fn law_side_inputs(
    w: World,
    m: &quantized::ModelWeights,
    e: &quantized_e2b::ModelWeights,
    batch: usize,
    len: usize,
    offset: usize,
    caches: Seq<CacheStep>,
)
    ensures
        m.side matches Some(s) ==> exists|x: Expr| #[trigger]
            is_rows(w, x) && m.pass_of(batch, len, offset, caches).side == Some(
                side_table_of(m.spec_style(batch, len), s, x),
            ),
        e.side matches Some(s) ==> exists|x: Expr| #[trigger]
            is_rows(w, x) && e.pass_of(batch, len, offset).side == Some(
                side_table_of(e.spec_style(batch, len), s, x),
            ),
{
    let x = looked_up_of(TopTensor::TokenEmbedding);
    mean_leaf(w, Leaf::TokenIds);
    mean_leaf(w, Leaf::Top(TopTensor::TokenEmbedding));
    mean_bin(w, TOp::Embed, leaf(Leaf::TokenIds), leaf(Leaf::Top(TopTensor::TokenEmbedding)));
    assert forall|b: int, t: int, k: int| #[trigger]
        (meaning(w, x).at)(place3(b, t, k)) == ((w.leaf)(
            Leaf::Top(TopTensor::TokenEmbedding),
        ).at)(seq![(w.token)(seq![b, t]), k]) by {
        assert(place3(b, t, k).drop_last() =~= seq![b, t]);
    }
    assert(is_rows(w, x));
}

/// The logits of the unquantized model are made with the token embeddings'
/// table where words are tied, else with a weight of their own.
pub proof fn law_text_head(w: World, m: &TextModel, x: Expr, b: int, t: int, token: int)
    requires
        w.m.wf(),
        meaning(w, x).dims.len() == 3,
        m.cfg.final_logit_softcapping is None,
    ensures
        (meaning(w, m.logits_formula(x)).at)(place3(b, t, token)) == row_by(
            meaning(w, x),
            if m.cfg.tie_word_embeddings {
                (w.leaf)(Leaf::Top(TopTensor::TokenEmbedding))
            } else {
                (w.leaf)(Leaf::Top(TopTensor::Output))
            },
            b,
            t,
            token,
        ),
{
    law_logits(w, m.spec_head(), None, x, b, t, token);
}

/// A forward pass of the unquantized model goes from the tokens' scaled rows
/// through all layers to the last position, normalized, and to its logits. With
/// parallel streams the rows are spread over streams of one magnitude, and the
/// streams are averaged in the end.
pub proof fn law_text_forward(m: &TextModel, w: World, shape: StepShape, kv_lens: Seq<usize>)
    requires
        w.m.wf(),
    ensures
        exists|x: Expr|
            {
                let v = m.pass_of(shape, kv_lens, None);
                let n = m.layers@.len();
                let head = if m.cfg.tie_word_embeddings {
                    TopTensor::TokenEmbedding
                } else {
                    TopTensor::Output
                };
                let out = match m.streams {
                    Some(s) => averaged_of(
                        v.c,
                        s,
                        text::run_of(v, expanded_of(v.c, s, Rescale::Yes, x), n),
                    ),
                    None => text::run_of(v, x, n),
                };
                &&& #[trigger] is_scaled_rows(w, x, m.cfg.hidden_size)
                &&& m.logits_formula(m.hidden_formula(shape, kv_lens, x, None)) == logits_of(
                    head,
                    m.cfg.final_logit_softcapping,
                    last_then_norm_of(v.c, out),
                )
                &&& x == m.embeds_formula()
            },
{
    lemma_rows(w, m.cfg.hidden_size);
    let x = m.embeds_formula();
    assert(is_scaled_rows(w, x, m.cfg.hidden_size));
}

/// With parallel streams, the quantized model spreads the tokens' scaled rows
/// over its streams as they are projected, and sums the streams in the end.
pub proof fn law_quantized_streams(
    m: &quantized::ModelWeights,
    batch: usize,
    len: usize,
    offset: usize,
    caches: Seq<CacheStep>,
    w: World,
)
    requires
        w.m.wf(),
        m.streams is Some,
    ensures
        exists|x: Expr, entry: Expr|
            {
                let v = m.pass_of(batch, len, offset, caches);
                let s = m.streams->0;
                let out = run_of(v, entry, m.layers@.len()).x;
                &&& #[trigger] is_scaled_rows(w, x, m.cfg.hidden_size)
                &&& #[trigger] meaning(w, entry).dims == meaning(
                    w,
                    expanded_of(v.c, s, Rescale::No, x),
                ).dims
                &&& forall|i: Seq<int>| #[trigger]
                    (meaning(w, entry).at)(i) == (meaning(
                        w,
                        expanded_of(v.c, s, Rescale::No, x),
                    ).at)(i)
                &&& m.logits_formula(batch, len, offset, caches) == logits_of(
                    TopTensor::Output,
                    cap_of(&m.cfg),
                    output_norm_of(v.c, summed_of(s, out, s.n as nat)),
                )
            },
{
    lemma_rows(w, m.cfg.hidden_size);
    let v = m.pass_of(batch, len, offset, caches);
    let s = m.streams->0;
    let x = scaled(looked_up_of(TopTensor::TokenEmbedding), Scalar::Sqrt(m.cfg.hidden_size));
    let entry = m.entry_of(v.c);
    mean_un(w, TOp::Each(MapOp::Contiguous), expanded_of(v.c, s, Rescale::No, x));
    assert(is_scaled_rows(w, x, m.cfg.hidden_size));
    assert(meaning(w, entry).dims == meaning(w, expanded_of(v.c, s, Rescale::No, x)).dims);
}

} // verus!
