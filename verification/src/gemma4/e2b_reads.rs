//! What a forward pass of the small quantized model reads: what was loaded
//! for it.

use crate::dtype::DType;
use crate::gemma4::config::Gemma4TextConfig;
use crate::gemma4::ends::{logits_of, looked_up_of, norm_then_last_of};
use crate::gemma4::gguf_names::{layer_requests_of, lemma_asks_layer};
use crate::gemma4::pass::run_of;
use crate::gemma4::quantized::{cap_of, ends_requests, part_of, side_requests_of, Part};
use crate::gemma4::quantized_e2b::{
    decoder_of, decoder_requests_of, first_required_of, has_side, has_value, holds,
    layers_requests_of, model_requests_of, side_of, then_required_of, ModelWeights,
};
use crate::gemma4::reads::{
    altup_ok, body_ok, kv_ok, lemma_capped, lemma_cast, lemma_embeds, lemma_last, lemma_logits,
    lemma_run, lemma_side_table, query_ok, reads_only, side_ok,
};
use crate::gemma4::weights::{
    asked, bindings, bound, given, law_asked_is_bound, lemma_asked_among, readable, whole,
    TensorInfoView,
};
use crate::tensor::op::{scaled, un, LayerTensor, Leaf, Scalar, TOp, TopTensor};
use vstd::prelude::*;

verus! {

proof fn lemma_asks_decoder(
    cfg: &Gemma4TextConfig,
    dir: Seq<TensorInfoView>,
    donors: Seq<Option<usize>>,
    n: nat,
    i: usize,
    l: Leaf,
)
    requires
        i < n <= usize::MAX,
        asked(decoder_requests_of(cfg, dir, donors[i as int] is Some, i), l),
    ensures
        asked(layers_requests_of(cfg, dir, donors, n), l),
    decreases n,
{
    let before = layers_requests_of(cfg, dir, donors, (n - 1) as nat);
    let own = decoder_requests_of(cfg, dir, donors[n - 1] is Some, (n - 1) as usize);
    if i < n - 1 {
        lemma_asks_decoder(cfg, dir, donors, (n - 1) as nat, i, l);
    }
    lemma_asked_among(before, own, l);
}

/// What one of a layer's lists asks for, the layer asks for.
proof fn lemma_lists_ask(
    cfg: &Gemma4TextConfig,
    dir: Seq<TensorInfoView>,
    receiver: bool,
    i: usize,
    l: Leaf,
)
    requires
        ({
            ||| asked(layer_requests_of(i, first_required_of(receiver)), l)
            ||| has_value(dir, receiver, i) && asked(
                layer_requests_of(i, seq![LayerTensor::AttnV]),
                l,
            )
            ||| asked(layer_requests_of(i, then_required_of(receiver)), l)
            ||| has_side(cfg, dir, i) && asked(layer_requests_of(i, part_of(Part::Side)), l)
            ||| holds(dir, i, part_of(Part::Gain)) && asked(
                layer_requests_of(i, part_of(Part::Gain)),
                l,
            )
        }),
    ensures
        asked(decoder_requests_of(cfg, dir, receiver, i), l),
{
    let a = layer_requests_of(i, first_required_of(receiver));
    let b = given(
        has_value(dir, receiver, i),
        layer_requests_of(i, seq![LayerTensor::AttnV]),
    );
    let c = layer_requests_of(i, then_required_of(receiver));
    let d = given(has_side(cfg, dir, i), layer_requests_of(i, part_of(Part::Side)));
    let e = whole(dir, layer_requests_of(i, part_of(Part::Gain)));
    if asked(a, l) || asked(b, l) {
        lemma_asked_among(a, b, l);
    }
    if asked(a + b, l) || asked(c, l) {
        lemma_asked_among(a + b, c, l);
    }
    if asked(a + b + c, l) || asked(d, l) {
        lemma_asked_among(a + b + c, d, l);
    }
    lemma_asked_among(a + b + c + d, e, l);
}

proof fn lemma_layer_bound(
    cfg: &Gemma4TextConfig,
    dir: Seq<TensorInfoView>,
    donors: Seq<Option<usize>>,
    with_table: bool,
    i: usize,
    l: Leaf,
)
    requires
        i < cfg.num_hidden_layers,
        asked(decoder_requests_of(cfg, dir, donors[i as int] is Some, i), l),
    ensures
        bound(bindings(dir, model_requests_of(cfg, dir, donors, with_table)), l),
{
    let layers = layers_requests_of(cfg, dir, donors, cfg.num_hidden_layers as nat);
    let side = side_requests_of(side_of(cfg, dir, with_table));
    lemma_asks_decoder(cfg, dir, donors, cfg.num_hidden_layers as nat, i, l);
    lemma_asked_among(ends_requests(), layers, l);
    lemma_asked_among(ends_requests() + layers, side, l);
    law_asked_is_bound(dir, model_requests_of(cfg, dir, donors, with_table), l);
}

/// The weights of a list that a layer asks for are found.
proof fn lemma_list_bound(
    cfg: &Gemma4TextConfig,
    dir: Seq<TensorInfoView>,
    donors: Seq<Option<usize>>,
    with_table: bool,
    i: usize,
    ts: Seq<LayerTensor>,
)
    requires
        i < cfg.num_hidden_layers,
        ({
            let receiver = donors[i as int] is Some;
            ||| ts == first_required_of(receiver)
            ||| has_value(dir, receiver, i) && ts == seq![LayerTensor::AttnV]
            ||| ts == then_required_of(receiver)
            ||| has_side(cfg, dir, i) && ts == part_of(Part::Side)
            ||| holds(dir, i, part_of(Part::Gain)) && ts == part_of(Part::Gain)
        }),
    ensures
        forall|k: int|
            0 <= k < ts.len() ==> bound(
                bindings(dir, model_requests_of(cfg, dir, donors, with_table)),
                Leaf::Layer(i, #[trigger] ts[k]),
            ),
{
    let bs = bindings(dir, model_requests_of(cfg, dir, donors, with_table));
    assert forall|k: int| 0 <= k < ts.len() implies bound(bs, Leaf::Layer(i, #[trigger] ts[k])) by {
        lemma_asks_layer(i, ts, k);
        lemma_lists_ask(cfg, dir, donors[i as int] is Some, i, Leaf::Layer(i, ts[k]));
        lemma_layer_bound(cfg, dir, donors, with_table, i, Leaf::Layer(i, ts[k]));
    }
}

proof fn lemma_layer_reads(
    cfg: &Gemma4TextConfig,
    dir: Seq<TensorInfoView>,
    donors: Seq<Option<usize>>,
    with_table: bool,
    i: usize,
)
    requires
        i < cfg.num_hidden_layers,
    ensures
        ({
            let l = decoder_of(cfg, dir, donors[i as int], i);
            let ok = readable(bindings(dir, model_requests_of(cfg, dir, donors, with_table)));
            &&& body_ok(l.body, ok)
            &&& query_ok(l.attention.heads, ok)
            &&& l.donor is None ==> kv_ok(l.attention, ok)
        }),
{
    let receiver = donors[i as int] is Some;
    let a = first_required_of(receiver);
    lemma_list_bound(cfg, dir, donors, with_table, i, a);
    assert(a[0] == LayerTensor::AttnQ);
    assert(a[1] == LayerTensor::AttnOutput);
    if !receiver {
        assert(a[2] == LayerTensor::AttnK);
    }
    let v = seq![LayerTensor::AttnV];
    if has_value(dir, receiver, i) {
        lemma_list_bound(cfg, dir, donors, with_table, i, v);
        assert(v[0] == LayerTensor::AttnV);
    }
    let b = then_required_of(receiver);
    lemma_list_bound(cfg, dir, donors, with_table, i, b);
    let skip = if receiver {
        1int
    } else {
        2
    };
    assert(b[0] == LayerTensor::AttnQNorm);
    if !receiver {
        assert(b[1] == LayerTensor::AttnKNorm);
    }
    assert(b[skip] == LayerTensor::FfnGate);
    assert(b[skip + 1] == LayerTensor::FfnUp);
    assert(b[skip + 2] == LayerTensor::FfnDown);
    assert(b[skip + 3] == LayerTensor::InputNorm);
    assert(b[skip + 4] == LayerTensor::PostAttentionNorm);
    assert(b[skip + 5] == LayerTensor::PreFeedforwardNorm);
    assert(b[skip + 6] == LayerTensor::PostFeedforwardNorm);
    if has_side(cfg, dir, i) {
        let p = part_of(Part::Side);
        lemma_list_bound(cfg, dir, donors, with_table, i, p);
        assert(p[0] == LayerTensor::PerLayerInputGate);
        assert(p[1] == LayerTensor::PerLayerProjection);
        assert(p[2] == LayerTensor::PostPerLayerInputNorm);
    }
    if holds(dir, i, part_of(Part::Gain)) {
        let p = part_of(Part::Gain);
        lemma_list_bound(cfg, dir, donors, with_table, i, p);
        assert(p[0] == LayerTensor::LayerScalar);
    }
}

proof fn lemma_top_reads(
    cfg: &Gemma4TextConfig,
    dir: Seq<TensorInfoView>,
    donors: Seq<Option<usize>>,
    with_table: bool,
)
    ensures
        ({
            let ok = readable(bindings(dir, model_requests_of(cfg, dir, donors, with_table)));
            &&& ok(Leaf::Top(TopTensor::TokenEmbedding))
            &&& ok(Leaf::Top(TopTensor::OutputNorm))
            &&& ok(Leaf::Top(TopTensor::Output))
            &&& side_of(cfg, dir, with_table) matches Some(s) ==> side_ok(s, ok)
        }),
{
    let rs = model_requests_of(cfg, dir, donors, with_table);
    let bs = bindings(dir, rs);
    let ends = ends_requests();
    let layers = layers_requests_of(cfg, dir, donors, cfg.num_hidden_layers as nat);
    let side = side_requests_of(side_of(cfg, dir, with_table));
    assert forall|k: int| 0 <= k < ends.len() implies bound(bs, (#[trigger] ends[k]).leaf) by {
        assert(rs[k] == ends[k]);
        law_asked_is_bound(dir, rs, ends[k].leaf);
    }
    assert(ends[0].leaf == Leaf::Top(TopTensor::TokenEmbedding));
    assert(ends[1].leaf == Leaf::Top(TopTensor::OutputNorm));
    assert(ends[2].leaf == Leaf::Top(TopTensor::Output));
    if let Some(s) = side_of(cfg, dir, with_table) {
        assert forall|k: int| 0 <= k < side.len() implies bound(bs, (#[trigger] side[k]).leaf) by {
            assert(asked(side, side[k].leaf));
            lemma_asked_among(ends + layers, side, side[k].leaf);
            law_asked_is_bound(dir, rs, side[k].leaf);
        }
        assert(side[0].leaf == Leaf::Top(TopTensor::PerLayerModelProjection));
        assert(side[1].leaf == Leaf::Top(TopTensor::PerLayerProjectionNorm));
        if s.rows is Some {
            assert(side[2].leaf == Leaf::Top(TopTensor::PerLayerTokenEmbedding));
        }
    }
}

/// A forward pass of a loaded model reads nothing but the token ids, the
/// masks, and weights that were found when it was loaded.
pub proof fn law_forward_reads_what_was_loaded(
    m: &ModelWeights,
    dir: Seq<TensorInfoView>,
    donors: Seq<Option<usize>>,
    with_table: bool,
    batch: usize,
    len: usize,
    offset: usize,
)
    requires
        m.wf(),
        m.layers@ == Seq::new(
            m.cfg.num_hidden_layers as nat,
            |i: int| decoder_of(&m.cfg, dir, donors[i], i as usize),
        ),
        m.side == side_of(&m.cfg, dir, with_table),
        m.bindings@ == bindings(dir, model_requests_of(&m.cfg, dir, donors, with_table)),
        m.stop_of(batch, len, offset) is None,
    ensures
        reads_only(m.logits_formula(batch, len, offset), readable(m.bindings@)),
{
    let ok = readable(m.bindings@);
    let v = m.pass_of(batch, len, offset);
    let n = m.layers@.len();
    lemma_top_reads(&m.cfg, dir, donors, with_table);
    lemma_embeds(v.c.nominal, ok);
    let embeds = looked_up_of(TopTensor::TokenEmbedding);
    if let Some(s) = m.side {
        lemma_side_table(v.c, s, embeds, ok);
    }
    assert forall|i: int| 0 <= i < v.layers.len() implies {
        let l = #[trigger] v.layers[i];
        &&& l.body.layer == i && l.attention.heads.layer == i
        &&& body_ok(l.body, ok)
        &&& query_ok(l.attention.heads, ok)
        &&& l.donor is None ==> kv_ok(l.attention, ok)
        &&& v.streams is Some ==> altup_ok(i as usize, ok)
    } by {
        lemma_layer_reads(&m.cfg, dir, donors, with_table, i as usize);
    }
    let entry = scaled(embeds, Scalar::Sqrt(v.c.nominal));
    lemma_run(v, entry, n, ok);
    let out = run_of(v, entry, n).x;
    lemma_last(v.c, out, ok);
    let last = norm_then_last_of(v.c, out);
    lemma_logits(TopTensor::Output, None, last, ok);
    let raw = logits_of(TopTensor::Output, None, last);
    lemma_cast(DType::F32, raw, ok);
    if let Some(k) = cap_of(&m.cfg) {
        lemma_capped(k, un(TOp::Cast(DType::F32), raw), ok);
    }
}

} // verus!
