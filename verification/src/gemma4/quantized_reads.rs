//! What a forward pass of the quantized model reads: what was loaded for it.

use crate::gemma4::config::{F64Bits, Gemma4TextConfig};
use crate::gemma4::ends::{looked_up_of, output_norm_of};
use crate::gemma4::gguf_names::{layer_requests_of, lemma_asks_layer, lemma_asks_stream};
use crate::gemma4::pass::{run_of, CacheStep};
use crate::gemma4::quantized::{
    cap_of, decoder_of, decoder_requests_of, ends_requests, has_part, layers_requests_of,
    model_requests_of, part_of, part_requests_of, required_of, side_of, side_requests_of,
    streams_of, streams_requests_of, ModelWeights, Part,
};
use crate::gemma4::reads::{
    altup_ok, body_ok, kv_ok, lemma_embeds, lemma_expanded, lemma_last, lemma_logits, lemma_run,
    lemma_side_table, lemma_summed, query_ok, reads_only, side_ok, streams_ok,
};
use crate::gemma4::streams::Rescale;
use crate::gemma4::weights::{
    asked, bindings, bound, law_asked_is_bound, lemma_asked_among, readable, TensorInfoView,
};
use crate::tensor::op::{scaled, LayerTensor, Leaf, Scalar, TopTensor};
use vstd::prelude::*;

verus! {

proof fn lemma_asks_decoder(
    cfg: &Gemma4TextConfig,
    dir: Seq<TensorInfoView>,
    donors: Seq<Option<usize>>,
    n: nat,
    i: usize,
    l: Leaf,
)
    requires
        i < n <= usize::MAX,
        asked(decoder_requests_of(cfg, dir, donors[i as int] is Some, i), l),
    ensures
        asked(layers_requests_of(cfg, dir, donors, n), l),
    decreases n,
{
    let before = layers_requests_of(cfg, dir, donors, (n - 1) as nat);
    let own = decoder_requests_of(cfg, dir, donors[n - 1] is Some, (n - 1) as usize);
    if i < n - 1 {
        lemma_asks_decoder(cfg, dir, donors, (n - 1) as nat, i, l);
    }
    lemma_asked_among(before, own, l);
}

/// The weights of a layer's part that it has are asked for.
proof fn lemma_asks_part(
    cfg: &Gemma4TextConfig,
    dir: Seq<TensorInfoView>,
    receiver: bool,
    i: usize,
    part: Part,
    k: int,
)
    requires
        has_part(cfg, dir, i, part),
        0 <= k < part_of(part).len(),
    ensures
        asked(decoder_requests_of(cfg, dir, receiver, i), Leaf::Layer(i, part_of(part)[k])),
{
    let l = Leaf::Layer(i, part_of(part)[k]);
    lemma_asks_layer(i, part_of(part), k);
    let a = layer_requests_of(i, required_of(receiver));
    let b = part_requests_of(cfg, dir, i, Part::Laurel);
    let c = part_requests_of(cfg, dir, i, Part::Gain);
    let d = part_requests_of(cfg, dir, i, Part::Side);
    let e = part_requests_of(cfg, dir, i, Part::Altup);
    match part {
        Part::Laurel => lemma_asked_among(a, b, l),
        Part::Gain => {},
        Part::Side => {},
        Part::Altup => {},
    }
    if part is Laurel || part is Gain {
        lemma_asked_among(a + b, c, l);
    }
    if !(part is Altup) {
        lemma_asked_among(a + b + c, d, l);
    }
    lemma_asked_among(a + b + c + d, e, l);
}

/// The weights that a layer must have are asked for.
proof fn lemma_asks_required(
    cfg: &Gemma4TextConfig,
    dir: Seq<TensorInfoView>,
    receiver: bool,
    i: usize,
    k: int,
)
    requires
        0 <= k < required_of(receiver).len(),
    ensures
        asked(
            decoder_requests_of(cfg, dir, receiver, i),
            Leaf::Layer(i, required_of(receiver)[k]),
        ),
{
    let l = Leaf::Layer(i, required_of(receiver)[k]);
    lemma_asks_layer(i, required_of(receiver), k);
    let a = layer_requests_of(i, required_of(receiver));
    let b = part_requests_of(cfg, dir, i, Part::Laurel);
    let c = part_requests_of(cfg, dir, i, Part::Gain);
    let d = part_requests_of(cfg, dir, i, Part::Side);
    let e = part_requests_of(cfg, dir, i, Part::Altup);
    lemma_asked_among(a, b, l);
    lemma_asked_among(a + b, c, l);
    lemma_asked_among(a + b + c, d, l);
    lemma_asked_among(a + b + c + d, e, l);
}

/// What a layer asks for, the model asks for.
proof fn lemma_layer_asks_model(
    cfg: &Gemma4TextConfig,
    dir: Seq<TensorInfoView>,
    donors: Seq<Option<usize>>,
    i: usize,
    l: Leaf,
)
    requires
        i < cfg.num_hidden_layers,
        asked(decoder_requests_of(cfg, dir, donors[i as int] is Some, i), l),
    ensures
        bound(bindings(dir, model_requests_of(cfg, dir, donors)), l),
{
    let layers = layers_requests_of(cfg, dir, donors, cfg.num_hidden_layers as nat);
    lemma_asks_decoder(cfg, dir, donors, cfg.num_hidden_layers as nat, i, l);
    lemma_asked_among(ends_requests(), layers, l);
    lemma_asked_among(ends_requests() + layers, streams_requests_of(cfg, dir), l);
    lemma_asked_among(
        ends_requests() + layers + streams_requests_of(cfg, dir),
        side_requests_of(side_of(cfg, dir)),
        l,
    );
    law_asked_is_bound(dir, model_requests_of(cfg, dir, donors), l);
}

proof fn lemma_required_bound(
    cfg: &Gemma4TextConfig,
    dir: Seq<TensorInfoView>,
    donors: Seq<Option<usize>>,
    i: usize,
)
    requires
        i < cfg.num_hidden_layers,
    ensures
        ({
            let bs = bindings(dir, model_requests_of(cfg, dir, donors));
            &&& bound(bs, Leaf::Layer(i, LayerTensor::AttnQ))
            &&& bound(bs, Leaf::Layer(i, LayerTensor::AttnOutput))
            &&& bound(bs, Leaf::Layer(i, LayerTensor::AttnQNorm))
            &&& donors[i as int] is None ==> {
                &&& bound(bs, Leaf::Layer(i, LayerTensor::AttnK))
                &&& bound(bs, Leaf::Layer(i, LayerTensor::AttnV))
                &&& bound(bs, Leaf::Layer(i, LayerTensor::AttnKNorm))
            }
            &&& bound(bs, Leaf::Layer(i, LayerTensor::FfnGate))
            &&& bound(bs, Leaf::Layer(i, LayerTensor::FfnUp))
            &&& bound(bs, Leaf::Layer(i, LayerTensor::FfnDown))
            &&& bound(bs, Leaf::Layer(i, LayerTensor::InputNorm))
            &&& bound(bs, Leaf::Layer(i, LayerTensor::PostAttentionNorm))
            &&& bound(bs, Leaf::Layer(i, LayerTensor::PreFeedforwardNorm))
            &&& bound(bs, Leaf::Layer(i, LayerTensor::PostFeedforwardNorm))
        }),
{
    let receiver = donors[i as int] is Some;
    let ts = required_of(receiver);
    let bs = bindings(dir, model_requests_of(cfg, dir, donors));
    assert forall|k: int| 0 <= k < ts.len() implies bound(bs, Leaf::Layer(i, #[trigger] ts[k])) by {
        lemma_asks_required(cfg, dir, receiver, i, k);
        lemma_layer_asks_model(cfg, dir, donors, i, Leaf::Layer(i, ts[k]));
    }
    let skip = if receiver {
        3int
    } else {
        6
    };
    assert(ts[0] == LayerTensor::AttnQ);
    assert(ts[1] == LayerTensor::AttnOutput);
    if receiver {
        assert(ts[2] == LayerTensor::AttnQNorm);
    } else {
        assert(ts[2] == LayerTensor::AttnK);
        assert(ts[3] == LayerTensor::AttnV);
        assert(ts[4] == LayerTensor::AttnQNorm);
        assert(ts[5] == LayerTensor::AttnKNorm);
    }
    assert(ts[skip] == LayerTensor::FfnGate);
    assert(ts[skip + 1] == LayerTensor::FfnUp);
    assert(ts[skip + 2] == LayerTensor::FfnDown);
    assert(ts[skip + 3] == LayerTensor::InputNorm);
    assert(ts[skip + 4] == LayerTensor::PostAttentionNorm);
    assert(ts[skip + 5] == LayerTensor::PreFeedforwardNorm);
    assert(ts[skip + 6] == LayerTensor::PostFeedforwardNorm);
}

proof fn lemma_part_bound(
    cfg: &Gemma4TextConfig,
    dir: Seq<TensorInfoView>,
    donors: Seq<Option<usize>>,
    i: usize,
    part: Part,
)
    requires
        i < cfg.num_hidden_layers,
        has_part(cfg, dir, i, part),
    ensures
        forall|k: int|
            0 <= k < part_of(part).len() ==> bound(
                bindings(dir, model_requests_of(cfg, dir, donors)),
                Leaf::Layer(i, #[trigger] part_of(part)[k]),
            ),
{
    let bs = bindings(dir, model_requests_of(cfg, dir, donors));
    assert forall|k: int| 0 <= k < part_of(part).len() implies bound(
        bs,
        Leaf::Layer(i, #[trigger] part_of(part)[k]),
    ) by {
        lemma_asks_part(cfg, dir, donors[i as int] is Some, i, part, k);
        lemma_layer_asks_model(cfg, dir, donors, i, Leaf::Layer(i, part_of(part)[k]));
    }
}

proof fn lemma_layer_reads(
    cfg: &Gemma4TextConfig,
    dir: Seq<TensorInfoView>,
    donors: Seq<Option<usize>>,
    z: F64Bits,
    i: usize,
)
    requires
        i < cfg.num_hidden_layers,
    ensures
        ({
            let l = decoder_of(cfg, dir, donors[i as int], z, i);
            let ok = readable(bindings(dir, model_requests_of(cfg, dir, donors)));
            &&& body_ok(l.body, ok)
            &&& query_ok(l.attention.heads, ok)
            &&& l.donor is None ==> kv_ok(l.attention, ok)
            &&& streams_of(cfg, dir) is Some ==> altup_ok(i, ok)
        }),
{
    lemma_required_bound(cfg, dir, donors, i);
    if has_part(cfg, dir, i, Part::Laurel) {
        lemma_part_bound(cfg, dir, donors, i, Part::Laurel);
        let p = part_of(Part::Laurel);
        assert(p[0] == LayerTensor::LaurelLeft);
        assert(p[1] == LayerTensor::LaurelRight);
        assert(p[2] == LayerTensor::PostLaurelNorm);
    }
    if has_part(cfg, dir, i, Part::Gain) {
        lemma_part_bound(cfg, dir, donors, i, Part::Gain);
        assert(part_of(Part::Gain)[0] == LayerTensor::LayerScalar);
    }
    if has_part(cfg, dir, i, Part::Side) {
        lemma_part_bound(cfg, dir, donors, i, Part::Side);
        let p = part_of(Part::Side);
        assert(p[0] == LayerTensor::PerLayerInputGate);
        assert(p[1] == LayerTensor::PerLayerProjection);
        assert(p[2] == LayerTensor::PostPerLayerInputNorm);
    }
    if streams_of(cfg, dir) is Some {
        assert(has_part(cfg, dir, (i as int) as usize, Part::Altup));
        lemma_part_bound(cfg, dir, donors, i, Part::Altup);
        let p = part_of(Part::Altup);
        assert(p[0] == LayerTensor::AltupCorrectOutputScale);
        assert(p[1] == LayerTensor::AltupCorrectionCoefs);
        assert(p[2] == LayerTensor::AltupPredictionCoefs);
        assert(p[3] == LayerTensor::AltupModalityRouter);
        assert(p[4] == LayerTensor::AltupRouterNorm);
    }
}

/// The weights that the whole model has once, as far as it has them, are
/// found.
proof fn lemma_top_reads(
    cfg: &Gemma4TextConfig,
    dir: Seq<TensorInfoView>,
    donors: Seq<Option<usize>>,
)
    ensures
        ({
            let ok = readable(bindings(dir, model_requests_of(cfg, dir, donors)));
            &&& ok(Leaf::Top(TopTensor::TokenEmbedding))
            &&& ok(Leaf::Top(TopTensor::OutputNorm))
            &&& ok(Leaf::Top(TopTensor::Output))
            &&& side_of(cfg, dir) matches Some(s) ==> side_ok(s, ok)
            &&& streams_of(cfg, dir) matches Some(s) ==> streams_ok(s, ok)
        }),
{
    let rs = model_requests_of(cfg, dir, donors);
    let bs = bindings(dir, rs);
    let ok = readable(bs);
    let ends = ends_requests();
    let layers = layers_requests_of(cfg, dir, donors, cfg.num_hidden_layers as nat);
    let streams = streams_requests_of(cfg, dir);
    let side = side_requests_of(side_of(cfg, dir));
    assert forall|k: int| 0 <= k < ends.len() implies bound(bs, (#[trigger] ends[k]).leaf) by {
        assert(rs[k] == ends[k]);
        law_asked_is_bound(dir, rs, ends[k].leaf);
    }
    assert(ends[0].leaf == Leaf::Top(TopTensor::TokenEmbedding));
    assert(ends[1].leaf == Leaf::Top(TopTensor::OutputNorm));
    assert(ends[2].leaf == Leaf::Top(TopTensor::Output));
    if let Some(s) = side_of(cfg, dir) {
        assert forall|k: int| 0 <= k < side.len() implies bound(bs, (#[trigger] side[k]).leaf) by {
            assert(asked(side, side[k].leaf));
            lemma_asked_among(ends + layers + streams, side, side[k].leaf);
            law_asked_is_bound(dir, rs, side[k].leaf);
        }
        assert(side[0].leaf == Leaf::Top(TopTensor::PerLayerModelProjection));
        assert(side[1].leaf == Leaf::Top(TopTensor::PerLayerProjectionNorm));
        if s.rows is Some {
            assert(side[2].leaf == Leaf::Top(TopTensor::PerLayerTokenEmbedding));
        }
    }
    if let Some(s) = streams_of(cfg, dir) {
        let n = (cfg.altup_num_inputs - 1) as nat;
        assert forall|l: Leaf| (l matches Leaf::Stream(k, _) && k < s.n - 1) implies #[trigger] ok(
            l,
        ) by {
            if let Leaf::Stream(k, t) = l {
                lemma_asks_stream(n, k, t);
                lemma_asked_among(ends + layers, streams, l);
                lemma_asked_among(ends + layers + streams, side, l);
                law_asked_is_bound(dir, rs, l);
            }
        }
    }
}

/// A forward pass of a loaded model reads nothing but the token ids, the
/// masks, and weights that were found when it was loaded.
pub proof fn law_forward_reads_what_was_loaded(
    m: &ModelWeights,
    dir: Seq<TensorInfoView>,
    donors: Seq<Option<usize>>,
    z: Seq<F64Bits>,
    batch: usize,
    len: usize,
    offset: usize,
    caches: Seq<CacheStep>,
)
    requires
        m.wf(),
        m.layers@ == Seq::new(
            m.cfg.num_hidden_layers as nat,
            |i: int| decoder_of(&m.cfg, dir, donors[i], z[i], i as usize),
        ),
        m.side == side_of(&m.cfg, dir),
        m.streams == streams_of(&m.cfg, dir),
        m.bindings@ == bindings(dir, model_requests_of(&m.cfg, dir, donors)),
        m.step_refusal(batch, len, offset, caches) is None,
    ensures
        reads_only(m.logits_formula(batch, len, offset, caches), readable(m.bindings@)),
{
    let ok = readable(m.bindings@);
    let v = m.pass_of(batch, len, offset, caches);
    let n = m.layers@.len();
    lemma_top_reads(&m.cfg, dir, donors);
    lemma_embeds(v.c.nominal, ok);
    let embeds = looked_up_of(TopTensor::TokenEmbedding);
    if let Some(s) = m.side {
        lemma_side_table(v.c, s, embeds, ok);
    }
    let hidden = scaled(embeds, Scalar::Sqrt(v.c.nominal));
    if let Some(s) = m.streams {
        lemma_expanded(v.c, s, Rescale::No, hidden, ok);
    }
    assert forall|i: int| 0 <= i < v.layers.len() implies {
        let l = #[trigger] v.layers[i];
        &&& l.body.layer == i && l.attention.heads.layer == i
        &&& body_ok(l.body, ok)
        &&& query_ok(l.attention.heads, ok)
        &&& l.donor is None ==> kv_ok(l.attention, ok)
        &&& v.streams is Some ==> altup_ok(i as usize, ok)
    } by {
        lemma_layer_reads(&m.cfg, dir, donors, z[i], i as usize);
    }
    lemma_run(v, m.entry_of(v.c), n, ok);
    let out = run_of(v, m.entry_of(v.c), n).x;
    if let Some(s) = m.streams {
        lemma_summed(s, out, s.n as nat, ok);
    }
    lemma_last(v.c, m.exit_of(out), ok);
    lemma_logits(
        TopTensor::Output,
        cap_of(&m.cfg),
        output_norm_of(v.c, m.exit_of(out)),
        ok,
    );
}

} // verus!
