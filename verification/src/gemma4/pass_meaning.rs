//! What goes from layer to layer in a pass.

use crate::gemma4::attention::{attention_of, joined_of, key_of, text_attention_of, value_of};
use crate::gemma4::kv_cache::Trim;
use crate::gemma4::layer::{fed_forward_of, layer_norm_of};
use crate::gemma4::layer_meaning::{continues, gain_at, law_classic, side_part};
use crate::gemma4::pass::{
    attention_input_of, first_stop, kv_of, law_no_stop, next_of, run_of, seen_by, side_at, stop_at,
    Between, CacheStep, PassView,
};
use crate::gemma4::text::{self, plain_body, TextPassView};
use crate::tensor::meaning::{mean_un, meaning, place3, place4, World};
use crate::tensor::op::{un, Expr, KvPart, LayerTensor, MapOp, TOp};
use vstd::prelude::*;

verus! {

/// What a layer has put aside, later layers find as it was.
proof fn lemma_kept(v: PassView, x: Expr, n: nat, d: int)
    requires
        n <= v.layers.len(),
        0 <= d < n,
        v.layers[d].donor is None,
    ensures
        run_of(v, x, n).kv.len() == v.layers.len(),
        run_of(v, x, n).kv[d] == Some(
            kv_of(v, d, attention_input_of(v, d, run_of(v, x, d as nat).x)),
        ),
    decreases n,
{
    reveal(next_of);
    lemma_kv_len(v, x, (n - 1) as nat);
    if d < n - 1 {
        lemma_kept(v, x, (n - 1) as nat, d);
    }
}

proof fn lemma_kv_len(v: PassView, x: Expr, n: nat)
    requires
        n <= v.layers.len(),
    ensures
        run_of(v, x, n).kv.len() == v.layers.len(),
    decreases n,
{
    reveal(next_of);
    if n > 0 {
        lemma_kv_len(v, x, (n - 1) as nat);
    }
}

/// In a pass that gets through, a layer that shares keys and values attends to
/// those that its donor, an earlier layer with its own, made of the donor's own
/// input; any other layer attends to those that it makes itself.
pub proof fn law_shared_keys(v: PassView, x: Expr, i: int)
    requires
        0 <= i < v.layers.len(),
        v.layers.len() <= usize::MAX,
        first_stop(v, v.layers.len()) is None,
    ensures
        match v.layers[i].donor {
            Some(d) => d < i && v.layers[d as int].donor is None && seen_by(
                v,
                i,
                run_of(v, x, i as nat),
            ) == kv_of(v, d as int, attention_input_of(v, d as int, run_of(v, x, d as nat).x)),
            None => seen_by(v, i, run_of(v, x, i as nat)) == kv_of(
                v,
                i,
                attention_input_of(v, i, run_of(v, x, i as nat).x),
            ),
        },
{
    law_no_stop(v, v.layers.len());
    assert(stop_at(v, i) is None);
    if let Some(d) = v.layers[i].donor {
        lemma_kept(v, x, i as nat, d as int);
    }
}

/// A layer without parallel streams attends to what it sees from its normalized
/// input, and goes on from its input with what comes of that.
pub proof fn law_layer(w: World, v: PassView, i: int, before: Between)
    requires
        v.streams is None,
    ensures
        ({
            let l = v.layers[i];
            let normed = layer_norm_of(v.c, i as usize, LayerTensor::InputNorm, before.x);
            let attn = attention_of(
                v.c,
                l.attention,
                v.offset,
                v.c.len > 1,
                normed,
                seen_by(v, i, before),
            );
            exists|mid: Expr| #[trigger]
                continues(w, v.c, l.body, before.x, normed, attn, mid) && forall|j: Seq<int>|
                    #[trigger] (meaning(w, next_of(v, i, before).x).at)(j) == (meaning(
                        w,
                        fed_forward_of(v.c, l.body, mid),
                    ).at)(j) * gain_at(w, l.body, j) + side_part(
                        w,
                        v.c,
                        l.body,
                        mid,
                        side_at(v, i),
                        j,
                    ) * gain_at(w, l.body, j)
        }),
{
    reveal(next_of);
    let l = v.layers[i];
    let normed = layer_norm_of(v.c, i as usize, LayerTensor::InputNorm, before.x);
    let kv = seen_by(v, i, before);
    let attn = attention_of(v.c, l.attention, v.offset, v.c.len > 1, normed, kv);
    law_classic(w, v.c, l.body, before.x, normed, attn, side_at(v, i));
}

/// A layer of the unquantized model without parallel streams attends from its
/// normalized input, and goes on from its input with what comes of that; it
/// has neither a low-rank residual nor an auxiliary embedding then.
pub proof fn law_text_layer(w: World, v: TextPassView, i: int, x: Expr)
    requires
        v.streams is None,
    ensures
        ({
            let l = v.layers[i];
            let b = plain_body(l.body);
            let normed = layer_norm_of(v.c, i as usize, LayerTensor::InputNorm, x);
            let attn = text_attention_of(v.c, l.attention, v.offset, v.c.len > 1, normed);
            &&& b.laurel is None && b.side is None && b.gain == l.body.gain && b.z == l.body.z
                && b.layer == l.body.layer
            &&& exists|mid: Expr| #[trigger]
                continues(w, v.c, b, x, normed, attn, mid) && forall|j: Seq<int>| #[trigger]
                    (meaning(w, text::layer_of(v, i, x)).at)(j) == (meaning(
                        w,
                        fed_forward_of(v.c, b, mid),
                    ).at)(j) * gain_at(w, b, j) + side_part(w, v.c, b, mid, None, j) * gain_at(
                        w,
                        b,
                        j,
                    )
        }),
{
    reveal(text::layer_of);
    let l = v.layers[i];
    let b = plain_body(l.body);
    let normed = layer_norm_of(v.c, i as usize, LayerTensor::InputNorm, x);
    let attn = text_attention_of(v.c, l.attention, v.offset, v.c.len > 1, normed);
    law_classic(w, v.c, b, x, normed, attn, None);
}

/// A layer's auxiliary embedding is its own slice of those of all layers, in
/// either way of taking it.
pub proof fn law_side_slice(
    w: World,
    v: PassView,
    u: TextPassView,
    i: int,
    b: int,
    t: int,
    k: int,
)
    requires
        0 <= i <= usize::MAX,
    ensures
        v.side matches Some(e) ==> side_at(v, i) is Some && (meaning(w, side_at(v, i)->0).at)(
            place3(b, t, k),
        ) == (meaning(w, e).at)(place4(b, t, i, k)),
        u.side matches Some(e) ==> text::side_at(u, i) is Some && (meaning(
            w,
            text::side_at(u, i)->0,
        ).at)(place3(b, t, k)) == (meaning(w, e).at)(place4(b, t, i, k)),
{
    if let Some(e) = v.side {
        let one = un(TOp::Select { axis: 2, index: i as usize }, e);
        mean_un(w, TOp::Select { axis: 2, index: i as usize }, e);
        mean_un(w, TOp::Each(MapOp::Contiguous), one);
        assert(place3(b, t, k).insert(2, i) =~= place4(b, t, i, k));
    }
    if let Some(e) = u.side {
        let op = TOp::Narrow { axis: 2, start: i as usize, len: 1 };
        let one = un(op, e);
        mean_un(w, op, e);
        mean_un(w, TOp::Squeeze { axis: 2 }, one);
        assert(place3(b, t, k).insert(2, 0) =~= place4(b, t, 0, k));
        assert(place4(b, t, 0, k).update(2, 0 + i) =~= place4(b, t, i, k));
    }
}

/// What a layer attends to where its cache is joined with a step's keys or
/// values: the cached positions, then those of the step, from the first one on
/// that is kept.
pub proof fn law_joined(
    w: World,
    layer: usize,
    part: KvPart,
    trim: Option<Trim>,
    x: Expr,
    b: int,
    h: int,
    s: int,
    e: int,
)
    ensures
        ({
            let old = (w.cached)(layer, part);
            let p = s + (match trim {
                Some(t) => t.start as int,
                None => 0,
            });
            (meaning(w, joined_of(layer, part, trim, x)).at)(place4(b, h, s, e)) == (if p
                < old.dims[2] {
                (old.at)(place4(b, h, p, e))
            } else {
                (meaning(w, x).at)(place4(b, h, p - old.dims[2], e))
            })
        }),
{
    let old = (w.cached)(layer, part);
    let op = TOp::CacheConcat { layer, part };
    let all = un(op, x);
    mean_un(w, op, x);
    match trim {
        Some(t) => {
            let cut = TOp::Narrow { axis: 2, start: t.start, len: t.len };
            mean_un(w, cut, all);
            mean_un(w, TOp::Each(MapOp::Contiguous), un(cut, all));
            let p = s + t.start;
            assert(place4(b, h, s, e).update(2, p) =~= place4(b, h, p, e));
            assert(place4(b, h, p, e).update(2, p - old.dims[2]) =~= place4(
                b,
                h,
                p - old.dims[2],
                e,
            ));
        },
        None => {
            assert(place4(b, h, s, e).update(2, s - old.dims[2]) =~= place4(
                b,
                h,
                s - old.dims[2],
                e,
            ));
        },
    }
}

/// A layer's keys and values come from its own cache after that was given the
/// layer's keys and values, each with their own; or, where the cache is joined
/// with the step's, from both, as far as they are kept.
pub proof fn law_own_keys(w: World, v: PassView, i: int, x: Expr)
    ensures
        ({
            let m = v.layers[i].attention;
            let kv = kv_of(v, i, x);
            let (k, n) = (key_of(v.c, m.heads, v.offset, x), value_of(v.c, m, x));
            match v.caches[i] {
                CacheStep::Append { .. } => {
                    &&& meaning(w, kv.k) == (w.appended)(
                        m.heads.layer,
                        KvPart::Keys,
                        meaning(w, k),
                    )
                    &&& meaning(w, kv.v) == (w.appended)(
                        m.heads.layer,
                        KvPart::Values,
                        meaning(w, n),
                    )
                },
                CacheStep::Join { trim, .. } => {
                    &&& kv.k == joined_of(m.heads.layer, KvPart::Keys, trim, k)
                    &&& kv.v == joined_of(m.heads.layer, KvPart::Values, trim, n)
                },
            }
        }),
{
    let m = v.layers[i].attention;
    let layer = m.heads.layer;
    let (k, n) = (key_of(v.c, m.heads, v.offset, x), value_of(v.c, m, x));
    mean_un(w, TOp::CacheAppend { layer, part: KvPart::Keys }, k);
    mean_un(w, TOp::CacheAppend { layer, part: KvPart::Values }, n);
}

} // verus!
