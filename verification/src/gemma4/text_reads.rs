//! What a forward pass of the unquantized model reads: what was loaded for
//! it.

use crate::gemma4::checkpoint_names::{
    layer_requests_of, lemma_asks_layer, lemma_asks_stream, stream_requests_of, top_request_of,
    widths_of,
};
use crate::gemma4::config::{F64Bits, Gemma4TextConfig};
use crate::gemma4::ends::side_table_of;
use crate::gemma4::layer::streams_refusal;
use crate::gemma4::quantized::{part_of, Part};
use crate::gemma4::reads::{
    altup_ok, body_ok, lemma_averaged, lemma_embeds, lemma_expanded, lemma_last, lemma_logits,
    lemma_side_table, lemma_text_run, reads_only, side_ok, side_reads, streams_ok,
    text_attention_ok, text_pass_ok,
};
use crate::gemma4::streams::Rescale;
use crate::gemma4::text::{
    decoder_of, decoder_requests_of, has_laurel, layers_requests_of, model_requests_of, required_of,
    run_of, side_of, side_requests_of, streams_of, style_of, StepShape, TextModel,
};
use crate::gemma4::weights::{
    asked, bindings, bound, given, law_asked_is_bound, lemma_asked_among, readable, Binding,
    TensorInfoView,
};
use crate::tensor::op::{leaf, Expr, LayerTensor, Leaf, TopTensor};
use vstd::prelude::*;

verus! {

/// What a pass from embeddings may read: the embeddings, the auxiliary ones,
/// the masks, and the weights that were found.
pub open spec fn readable_from_embeddings(bs: Seq<Binding>) -> spec_fn(Leaf) -> bool {
    |l: Leaf| l is Embeddings || l is PerLayerInputs || l is Mask || bound(bs, l)
}

proof fn lemma_asks_decoder(
    cfg: &Gemma4TextConfig,
    dir: Seq<TensorInfoView>,
    n: nat,
    i: usize,
    l: Leaf,
)
    requires
        i < n <= usize::MAX,
        asked(decoder_requests_of(cfg, dir, i), l),
    ensures
        asked(layers_requests_of(cfg, dir, n), l),
    decreases n,
{
    let before = layers_requests_of(cfg, dir, (n - 1) as nat);
    let own = decoder_requests_of(cfg, dir, (n - 1) as usize);
    if i < n - 1 {
        lemma_asks_decoder(cfg, dir, (n - 1) as nat, i, l);
    }
    lemma_asked_among(before, own, l);
}

/// Whether a layer asks for a list of weights.
spec fn is_list(
    cfg: &Gemma4TextConfig,
    dir: Seq<TensorInfoView>,
    i: usize,
    ts: Seq<LayerTensor>,
) -> bool {
    ||| ts == required_of(cfg.attention_bias)
    ||| cfg.altup_num_inputs > 1 && ts == part_of(Part::Altup)
    ||| has_laurel(cfg, dir, i) && ts == part_of(Part::Laurel)
    ||| cfg.hidden_size_per_layer_input is Some && ts == part_of(Part::Side)
}

/// The weights of a list are asked for.
proof fn lemma_list_asked(
    cfg: &Gemma4TextConfig,
    dir: Seq<TensorInfoView>,
    i: usize,
    ts: Seq<LayerTensor>,
    k: int,
)
    requires
        is_list(cfg, dir, i, ts),
        0 <= k < ts.len(),
    ensures
        asked(decoder_requests_of(cfg, dir, i), Leaf::Layer(i, ts[k])),
{
    let l = Leaf::Layer(i, ts[k]);
    let s = widths_of(cfg, i as int);
    lemma_asks_layer(s, i, ts, k);
    let a = layer_requests_of(s, i, required_of(cfg.attention_bias));
    let b = given(cfg.altup_num_inputs > 1, layer_requests_of(s, i, part_of(Part::Altup)));
    let c = given(has_laurel(cfg, dir, i), layer_requests_of(s, i, part_of(Part::Laurel)));
    let d = given(
        cfg.hidden_size_per_layer_input is Some,
        layer_requests_of(s, i, part_of(Part::Side)),
    );
    if asked(a, l) || asked(b, l) {
        lemma_asked_among(a, b, l);
    }
    if asked(a + b, l) || asked(c, l) {
        lemma_asked_among(a + b, c, l);
    }
    lemma_asked_among(a + b + c, d, l);
}

/// What one of the model's lists asks for is found.
proof fn lemma_model_bound(cfg: &Gemma4TextConfig, dir: Seq<TensorInfoView>, l: Leaf)
    requires
        ({
            let h = cfg.hidden_size;
            ||| l == Leaf::Top(TopTensor::TokenEmbedding)
            ||| asked(layers_requests_of(cfg, dir, cfg.num_hidden_layers as nat), l)
            ||| l == Leaf::Top(TopTensor::OutputNorm)
            ||| !cfg.tie_word_embeddings && l == Leaf::Top(TopTensor::Output)
            ||| asked(side_requests_of(side_of(cfg, dir), h), l)
            ||| cfg.altup_num_inputs > 1 && asked(
                stream_requests_of(h, (cfg.altup_num_inputs - 1) as nat),
                l,
            )
        }),
    ensures
        bound(bindings(dir, model_requests_of(cfg, dir)), l),
{
    let h = cfg.hidden_size;
    let a = seq![top_request_of(TopTensor::TokenEmbedding, Some(cfg.vocab_size), h)];
    let b = layers_requests_of(cfg, dir, cfg.num_hidden_layers as nat);
    let c = seq![top_request_of(TopTensor::OutputNorm, None, h)];
    let output = seq![top_request_of(TopTensor::Output, Some(cfg.vocab_size), h)];
    let d = given(!cfg.tie_word_embeddings, output);
    let e = side_requests_of(side_of(cfg, dir), h);
    let f = given(
        cfg.altup_num_inputs > 1,
        stream_requests_of(h, (cfg.altup_num_inputs - 1) as nat),
    );
    assert(asked(a, a[0].leaf));
    assert(asked(c, c[0].leaf));
    assert(asked(output, output[0].leaf));
    if asked(a, l) || asked(b, l) {
        lemma_asked_among(a, b, l);
    }
    if asked(a + b, l) || asked(c, l) {
        lemma_asked_among(a + b, c, l);
    }
    if asked(a + b + c, l) || asked(d, l) {
        lemma_asked_among(a + b + c, d, l);
    }
    if asked(a + b + c + d, l) || asked(e, l) {
        lemma_asked_among(a + b + c + d, e, l);
    }
    lemma_asked_among(a + b + c + d + e, f, l);
    law_asked_is_bound(dir, model_requests_of(cfg, dir), l);
}

/// The weights of a list that a layer asks for are found.
proof fn lemma_list_bound(
    cfg: &Gemma4TextConfig,
    dir: Seq<TensorInfoView>,
    i: usize,
    ts: Seq<LayerTensor>,
)
    requires
        i < cfg.num_hidden_layers,
        is_list(cfg, dir, i, ts),
    ensures
        forall|k: int|
            0 <= k < ts.len() ==> bound(
                bindings(dir, model_requests_of(cfg, dir)),
                Leaf::Layer(i, #[trigger] ts[k]),
            ),
{
    let bs = bindings(dir, model_requests_of(cfg, dir));
    assert forall|k: int| 0 <= k < ts.len() implies bound(bs, Leaf::Layer(i, #[trigger] ts[k])) by {
        lemma_list_asked(cfg, dir, i, ts, k);
        lemma_asks_decoder(cfg, dir, cfg.num_hidden_layers as nat, i, Leaf::Layer(i, ts[k]));
        lemma_model_bound(cfg, dir, Leaf::Layer(i, ts[k]));
    }
}

/// All masks and all weights that were found are among `ok`.
spec fn covers(ok: spec_fn(Leaf) -> bool, bs: Seq<Binding>) -> bool {
    forall|l: Leaf| l is Mask || bound(bs, l) ==> #[trigger] ok(l)
}

proof fn lemma_layer_reads(
    cfg: &Gemma4TextConfig,
    dir: Seq<TensorInfoView>,
    z: F64Bits,
    i: usize,
    ok: spec_fn(Leaf) -> bool,
)
    requires
        i < cfg.num_hidden_layers,
        covers(ok, bindings(dir, model_requests_of(cfg, dir))),
    ensures
        ({
            let l = decoder_of(cfg, dir, z, i);
            &&& body_ok(l.body, ok)
            &&& text_attention_ok(l.attention, ok)
            &&& cfg.altup_num_inputs > 1 ==> altup_ok(i, ok)
        }),
{
    let a = required_of(cfg.attention_bias);
    lemma_list_bound(cfg, dir, i, a);
    let at = if cfg.attention_bias {
        assert(a[0] == LayerTensor::AttnQ);
        assert(a[1] == LayerTensor::AttnQBias);
        assert(a[2] == LayerTensor::AttnK);
        assert(a[3] == LayerTensor::AttnKBias);
        assert(a[4] == LayerTensor::AttnV);
        assert(a[5] == LayerTensor::AttnVBias);
        assert(a[6] == LayerTensor::AttnOutput);
        assert(a[7] == LayerTensor::AttnOutputBias);
        8int
    } else {
        assert(a[0] == LayerTensor::AttnQ);
        assert(a[1] == LayerTensor::AttnK);
        assert(a[2] == LayerTensor::AttnV);
        assert(a[3] == LayerTensor::AttnOutput);
        4
    };
    assert(a[at] == LayerTensor::AttnQNorm);
    assert(a[at + 1] == LayerTensor::AttnKNorm);
    assert(a[at + 2] == LayerTensor::FfnGate);
    assert(a[at + 3] == LayerTensor::FfnUp);
    assert(a[at + 4] == LayerTensor::FfnDown);
    assert(a[at + 5] == LayerTensor::InputNorm);
    assert(a[at + 6] == LayerTensor::PostAttentionNorm);
    assert(a[at + 7] == LayerTensor::PreFeedforwardNorm);
    assert(a[at + 8] == LayerTensor::PostFeedforwardNorm);
    if cfg.altup_num_inputs > 1 {
        let p = part_of(Part::Altup);
        lemma_list_bound(cfg, dir, i, p);
        assert(p[0] == LayerTensor::AltupCorrectOutputScale);
        assert(p[1] == LayerTensor::AltupCorrectionCoefs);
        assert(p[2] == LayerTensor::AltupPredictionCoefs);
        assert(p[3] == LayerTensor::AltupModalityRouter);
        assert(p[4] == LayerTensor::AltupRouterNorm);
    }
    if has_laurel(cfg, dir, i) {
        let p = part_of(Part::Laurel);
        lemma_list_bound(cfg, dir, i, p);
        assert(p[0] == LayerTensor::LaurelLeft);
        assert(p[1] == LayerTensor::LaurelRight);
        assert(p[2] == LayerTensor::PostLaurelNorm);
    }
    if cfg.hidden_size_per_layer_input is Some {
        let p = part_of(Part::Side);
        lemma_list_bound(cfg, dir, i, p);
        assert(p[0] == LayerTensor::PerLayerInputGate);
        assert(p[1] == LayerTensor::PerLayerProjection);
        assert(p[2] == LayerTensor::PostPerLayerInputNorm);
    }
}

/// The model is the one that a checkpoint with the given tensors holds.
pub open spec fn is_loaded_from(
    m: &TextModel,
    dir: Seq<TensorInfoView>,
    z: Seq<F64Bits>,
) -> bool {
    &&& m.wf()
    &&& m.layers@ == Seq::new(
        m.cfg.num_hidden_layers as nat,
        |i: int| decoder_of(&m.cfg, dir, z[i], i as usize),
    )
    &&& m.side == side_of(&m.cfg, dir)
    &&& m.streams == streams_of(&m.cfg)
    &&& m.bindings@ == bindings(dir, model_requests_of(&m.cfg, dir))
}

proof fn lemma_hidden_reads(
    m: &TextModel,
    dir: Seq<TensorInfoView>,
    z: Seq<F64Bits>,
    w: StepShape,
    kv_lens: Seq<usize>,
    xs: Expr,
    side: Option<Expr>,
    ok: spec_fn(Leaf) -> bool,
)
    requires
        is_loaded_from(m, dir, z),
        streams_refusal(m.streams) is None,
        covers(ok, m.bindings@),
        reads_only(xs, ok),
        side_reads(side, ok),
    ensures
        reads_only(m.hidden_formula(w, kv_lens, xs, side), ok),
        reads_only(m.logits_formula(m.hidden_formula(w, kv_lens, xs, side)), ok),
{
    let v = m.pass_of(w, kv_lens, side);
    let n = m.layers@.len();
    assert forall|i: int| 0 <= i < v.layers.len() implies {
        let l = #[trigger] v.layers[i];
        &&& l.body.layer == i && l.attention.heads.layer == i
        &&& body_ok(l.body, ok)
        &&& text_attention_ok(l.attention, ok)
        &&& v.streams is Some ==> altup_ok(i as usize, ok)
    } by {
        lemma_layer_reads(&m.cfg, dir, z[i], i as usize, ok);
    }
    assert(text_pass_ok(v, ok));
    if let Some(s) = m.streams {
        assert forall|l: Leaf| (l matches Leaf::Stream(k, _) && k < s.n - 1) implies #[trigger] ok(
            l,
        ) by {
            if let Leaf::Stream(k, t) = l {
                lemma_asks_stream(m.cfg.hidden_size, (s.n - 1) as nat, k, t);
                lemma_model_bound(&m.cfg, dir, l);
            }
        }
        assert(streams_ok(s, ok));
        lemma_expanded(v.c, s, Rescale::Yes, xs, ok);
    }
    let entry = m.entry_of(v.c, xs);
    lemma_text_run(v, entry, n, ok);
    let out = run_of(v, entry, n);
    if let Some(s) = m.streams {
        lemma_averaged(v.c, s, out, ok);
    }
    lemma_model_bound(&m.cfg, dir, Leaf::Top(TopTensor::OutputNorm));
    lemma_model_bound(&m.cfg, dir, Leaf::Top(TopTensor::TokenEmbedding));
    if !m.cfg.tie_word_embeddings {
        lemma_model_bound(&m.cfg, dir, Leaf::Top(TopTensor::Output));
    }
    lemma_last(v.c, m.exit_of(v.c, out), ok);
    let hidden = m.hidden_formula(w, kv_lens, xs, side);
    lemma_logits(m.spec_head(), m.cfg.final_logit_softcapping, hidden, ok);
}

/// A forward pass of a loaded model reads nothing but the token ids, the
/// masks, and weights that were found when it was loaded.
pub proof fn law_forward_reads_what_was_loaded(
    m: &TextModel,
    dir: Seq<TensorInfoView>,
    z: Seq<F64Bits>,
    w: StepShape,
    kv_lens: Seq<usize>,
)
    requires
        is_loaded_from(m, dir, z),
        m.step_refusal(w, kv_lens) is None,
    ensures
        reads_only(
            m.logits_formula(m.hidden_formula(w, kv_lens, m.embeds_formula(), None)),
            readable(m.bindings@),
        ),
{
    let ok = readable(m.bindings@);
    lemma_model_bound(&m.cfg, dir, Leaf::Top(TopTensor::TokenEmbedding));
    lemma_embeds(m.cfg.hidden_size, ok);
    lemma_hidden_reads(m, dir, z, w, kv_lens, m.embeds_formula(), None, ok);
}

/// A forward pass from embeddings reads nothing but those, the auxiliary ones,
/// the masks, and weights that were found when the model was loaded.
pub proof fn law_forward_embeds_reads_what_was_loaded(
    m: &TextModel,
    dir: Seq<TensorInfoView>,
    z: Seq<F64Bits>,
    w: StepShape,
    kv_lens: Seq<usize>,
    per_layer_inputs: bool,
)
    requires
        is_loaded_from(m, dir, z),
        m.step_refusal(w, kv_lens) is None,
    ensures
        ({
            let hidden = m.hidden_formula(
                w,
                kv_lens,
                leaf(Leaf::Embeddings),
                m.given_side(per_layer_inputs),
            );
            &&& reads_only(hidden, readable_from_embeddings(m.bindings@))
            &&& reads_only(m.logits_formula(hidden), readable_from_embeddings(m.bindings@))
        }),
{
    let ok = readable_from_embeddings(m.bindings@);
    let side = m.given_side(per_layer_inputs);
    assert(reads_only(leaf(Leaf::Embeddings), ok));
    assert(reads_only(leaf(Leaf::PerLayerInputs), ok));
    lemma_hidden_reads(m, dir, z, w, kv_lens, leaf(Leaf::Embeddings), side, ok);
}

/// The auxiliary embeddings are computed from nothing but the embeddings, the
/// token ids, and weights that were found when the model was loaded.
pub proof fn law_per_layer_inputs_read_what_was_loaded(
    m: &TextModel,
    dir: Seq<TensorInfoView>,
    z: Seq<F64Bits>,
    batch: usize,
    len: usize,
)
    requires
        is_loaded_from(m, dir, z),
        m.side is Some,
    ensures
        reads_only(
            side_table_of(
                style_of(&m.cfg, m.dtype, batch, len),
                m.side->0,
                leaf(Leaf::Embeddings),
            ),
            |l: Leaf| l is Embeddings || l is TokenIds || bound(m.bindings@, l),
        ),
{
    let ok = |l: Leaf| l is Embeddings || l is TokenIds || bound(m.bindings@, l);
    let s = m.side->0;
    let rs = side_requests_of(m.side, m.cfg.hidden_size);
    assert forall|k: int| 0 <= k < rs.len() implies bound(m.bindings@, (#[trigger] rs[k]).leaf) by {
        assert(asked(rs, rs[k].leaf));
        lemma_model_bound(&m.cfg, dir, rs[k].leaf);
    }
    let at = if s.rows is Some {
        assert(rs[0].leaf == Leaf::Top(TopTensor::PerLayerTokenEmbedding));
        1int
    } else {
        0
    };
    assert(rs[at].leaf == Leaf::Top(TopTensor::PerLayerModelProjection));
    assert(rs[at + 1].leaf == Leaf::Top(TopTensor::PerLayerProjectionNorm));
    assert(side_ok(s, ok));
    assert(reads_only(leaf(Leaf::Embeddings), ok));
    lemma_side_table(style_of(&m.cfg, m.dtype, batch, len), s, leaf(Leaf::Embeddings), ok);
}

} // verus!
