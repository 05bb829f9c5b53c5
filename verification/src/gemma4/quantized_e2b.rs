//! The small quantized model: no low-rank residual, no parallel streams, no
//! thresholds; a gain on full-attention layers only; caches that grow by
//! concatenation; values that may be the keys.

use crate::dtype::DType;
use crate::error::Error;
use crate::gemma4::attention::{DecodePath, Heads, QAttention};
use crate::gemma4::block::Style;
use crate::gemma4::config::Gemma4TextConfig;
use crate::gemma4::embedding::{stored_table_refusal, QEmbedding};
use crate::gemma4::ends::{
    capped, capped_of, logits, logits_of, logits_type, look_up, looked_up_of, norm_then_last,
    norm_then_last_of, side_table, side_table_of, SideEmbedding,
};
use crate::gemma4::fit::{
    entry_misfit, entry_shapes_of, exit_misfit, exit_shapes_of, fit_of, fits, gate_width,
    gate_width_of, sizes, sizes_of, stored_dim, stored_dim_of, stored_spread, stored_spread_of, Fit,
    Sizes,
};
use crate::gemma4::gguf_names::{
    layer_request, layer_request_of, layer_requests, layer_requests_of, top_request, top_request_of,
};
use crate::gemma4::kv_cache::{
    accepts, cache_after, kept, law_append_in_steps, trim, trim_of, KvCache, KvCacheView,
};
use crate::gemma4::layer::{LayerBody, Spread};
use crate::gemma4::pass::{
    early_refusal, first_stop, late_refusal, law_no_stop, run_of, stop_at, tail_refusal, CacheStep,
    Pass, PassView, Stop,
};
use crate::gemma4::quantized::{
    addressable, cap, cap_of, ends_requests, extend, load_side, part_of, part_tensors,
    side_requests_of, side_weights, style, style_of, DecoderLayer, Part, Plan,
};
use crate::gemma4::weights::{
    bindings, can_resolve, chosen, given, refusal, request_refusal, requests, resolve, resolve_all,
    whole, Binding, Directory, Request, RequestView, TensorInfo, TensorInfoView,
};
use crate::tensor::op::{scaled, un, Expr, LayerTensor, MapOp, Scalar, TOp, TopTensor};
use crate::tensor::program::{is, Program};
use vstd::prelude::*;

verus! {

/// The weights that a layer must have before those that its file may lack.
pub open spec fn first_required_of(receiver: bool) -> Seq<LayerTensor> {
    if receiver {
        seq![LayerTensor::AttnQ, LayerTensor::AttnOutput]
    } else {
        seq![LayerTensor::AttnQ, LayerTensor::AttnOutput, LayerTensor::AttnK]
    }
}

/// The norms of a layer's queries and of its own keys.
pub open spec fn head_norms_of(receiver: bool) -> Seq<LayerTensor> {
    if receiver {
        seq![LayerTensor::AttnQNorm]
    } else {
        seq![LayerTensor::AttnQNorm, LayerTensor::AttnKNorm]
    }
}

/// The other weights that a layer must have.
pub open spec fn then_required_of(receiver: bool) -> Seq<LayerTensor> {
    head_norms_of(receiver) + seq![
        LayerTensor::FfnGate,
        LayerTensor::FfnUp,
        LayerTensor::FfnDown,
        LayerTensor::InputNorm,
        LayerTensor::PostAttentionNorm,
        LayerTensor::PreFeedforwardNorm,
        LayerTensor::PostFeedforwardNorm,
    ]
}

fn first_required(receiver: bool) -> (r: Vec<LayerTensor>)
    ensures
        r@ == first_required_of(receiver),
{
    let mut r: Vec<LayerTensor> = Vec::new();
    r.push(LayerTensor::AttnQ);
    r.push(LayerTensor::AttnOutput);
    if !receiver {
        r.push(LayerTensor::AttnK);
    }
    proof {
        assert(r@ =~= first_required_of(receiver));
    }
    r
}

fn then_required(receiver: bool) -> (r: Vec<LayerTensor>)
    ensures
        r@ == then_required_of(receiver),
{
    let mut r: Vec<LayerTensor> = Vec::new();
    r.push(LayerTensor::AttnQNorm);
    if !receiver {
        r.push(LayerTensor::AttnKNorm);
    }
    r.push(LayerTensor::FfnGate);
    r.push(LayerTensor::FfnUp);
    r.push(LayerTensor::FfnDown);
    r.push(LayerTensor::InputNorm);
    r.push(LayerTensor::PostAttentionNorm);
    r.push(LayerTensor::PreFeedforwardNorm);
    r.push(LayerTensor::PostFeedforwardNorm);
    proof {
        assert(r@ =~= then_required_of(receiver));
    }
    r
}

/// Whether the file has all of the given weights of layer `i`.
pub open spec fn holds(dir: Seq<TensorInfoView>, i: usize, ts: Seq<LayerTensor>) -> bool {
    refusal(dir, layer_requests_of(i, ts)) is None
}

/// Whether layer `i` has a projection for its values.
pub open spec fn has_value(dir: Seq<TensorInfoView>, receiver: bool, i: usize) -> bool {
    !receiver && holds(dir, i, seq![LayerTensor::AttnV])
}

/// Whether layer `i` takes in the auxiliary embedding.
pub open spec fn has_side(cfg: &Gemma4TextConfig, dir: Seq<TensorInfoView>, i: usize) -> bool {
    cfg.hidden_size_per_layer_input is Some && holds(dir, i, part_of(Part::Side))
}

/// The requests for the weights of layer `i`.
pub open spec fn decoder_requests_of(
    cfg: &Gemma4TextConfig,
    dir: Seq<TensorInfoView>,
    receiver: bool,
    i: usize,
) -> Seq<RequestView> {
    layer_requests_of(i, first_required_of(receiver)) + given(
        has_value(dir, receiver, i),
        layer_requests_of(i, seq![LayerTensor::AttnV]),
    ) + layer_requests_of(i, then_required_of(receiver)) + given(
        has_side(cfg, dir, i),
        layer_requests_of(i, part_of(Part::Side)),
    ) + whole(dir, layer_requests_of(i, part_of(Part::Gain)))
}

/// Layer `i` of the model that a file holds.
pub open spec fn decoder_of(
    cfg: &Gemma4TextConfig,
    dir: Seq<TensorInfoView>,
    donor: Option<usize>,
    i: usize,
) -> DecoderLayer {
    let heads = Heads::spec_of(cfg, i as int);
    DecoderLayer {
        attention: QAttention {
            heads,
            has_value: has_value(dir, donor is Some, i),
            decode: DecodePath::Plain,
        },
        donor,
        body: LayerBody {
            layer: i,
            inner: stored_dim_of(dir, layer_request_of(i, LayerTensor::FfnGate), 0),
            z: None,
            laurel: None,
            side: if has_side(cfg, dir, i) {
                cfg.hidden_size_per_layer_input
            } else {
                None
            },
            gate: gate_width_of(cfg, dir, i),
            scale: Spread::spec_vector(1),
            gain: if !heads.sliding && holds(dir, i, part_of(Part::Gain)) {
                Some(stored_spread_of(dir, layer_request_of(i, LayerTensor::LayerScalar)))
            } else {
                None
            },
        },
        altup: false,
    }
}

/// The window of layer `i`'s cache.
pub open spec fn window_of(cfg: &Gemma4TextConfig, i: int) -> Option<usize> {
    if cfg.spec_is_sliding(i) {
        Some(cfg.spec_effective_sliding_window() as usize)
    } else {
        None
    }
}

/// Appends requests that can all be met, and says whether they can.
fn add_if_held(out: &mut Vec<Request>, dir: &Directory, rs: Vec<Request>) -> (r: bool)
    ensures
        r == (refusal(dir@, requests(rs@)) is None),
        requests(final(out)@) == requests(old(out)@) + whole(dir@, requests(rs@)),
{
    if can_resolve(dir, &rs) {
        extend(out, rs);
        true
    } else {
        proof {
            assert(requests(out@) + Seq::<RequestView>::empty() =~= requests(out@));
        }
        false
    }
}

/// Appends the requests for a layer's weights, and says what the layer is.
fn load_layer(
    out: &mut Vec<Request>,
    cfg: &Gemma4TextConfig,
    dir: &Directory,
    donor: Option<usize>,
    i: usize,
) -> (r: DecoderLayer)
    ensures
        r == decoder_of(cfg, dir@, donor, i),
        requests(final(out)@) == requests(old(out)@) + decoder_requests_of(
            cfg,
            dir@,
            donor is Some,
            i,
        ),
{
    let ghost before = requests(out@);
    let heads: Heads = Heads::of(cfg, i);
    let receiver: bool = donor.is_some();
    extend(out, layer_requests(i, &first_required(receiver)));
    let mut value: bool = false;
    if !receiver {
        let mut v: Vec<LayerTensor> = Vec::new();
        v.push(LayerTensor::AttnV);
        proof {
            assert(v@ =~= seq![LayerTensor::AttnV]);
        }
        value = add_if_held(out, dir, layer_requests(i, &v));
    }
    extend(out, layer_requests(i, &then_required(receiver)));
    let mut side: Option<usize> = None;
    if cfg.hidden_size_per_layer_input.is_some() {
        if add_if_held(out, dir, layer_requests(i, &part_tensors(Part::Side))) {
            side = cfg.hidden_size_per_layer_input;
        }
    }
    let has_gain: bool = add_if_held(out, dir, layer_requests(i, &part_tensors(Part::Gain)));
    proof {
        assert(requests(out@) =~= before + decoder_requests_of(cfg, dir@, receiver, i));
    }
    DecoderLayer {
        attention: QAttention { heads, has_value: value, decode: DecodePath::Plain },
        donor,
        body: LayerBody {
            layer: i,
            inner: stored_dim(dir, &layer_request(i, LayerTensor::FfnGate), 0),
            z: None,
            laurel: None,
            side,
            gate: gate_width(cfg, dir, i),
            scale: Spread::vector(1),
            gain: if has_gain && !heads.sliding {
                Some(stored_spread(dir, &layer_request(i, LayerTensor::LayerScalar)))
            } else {
                None
            },
        },
        altup: false,
    }
}

/// The requests for the weights of the first `n` layers.
pub open spec fn layers_requests_of(
    cfg: &Gemma4TextConfig,
    dir: Seq<TensorInfoView>,
    donors: Seq<Option<usize>>,
    n: nat,
) -> Seq<RequestView>
    decreases n,
{
    if n == 0 {
        Seq::empty()
    } else {
        layers_requests_of(cfg, dir, donors, (n - 1) as nat) + decoder_requests_of(
            cfg,
            dir,
            donors[n - 1] is Some,
            (n - 1) as usize,
        )
    }
}

/// The rows of the auxiliary embeddings' table, where it is wanted and the
/// file has one that rows can be looked up in.
pub open spec fn side_rows_of(dir: Seq<TensorInfoView>, with_table: bool) -> Option<usize> {
    match chosen(dir, top_request_of(TopTensor::PerLayerTokenEmbedding)) {
        Some(i) if with_table && stored_table_refusal(
            dir[i].dims,
            dir[i].dtype,
            dir[i].bytes,
        ) is None => Some(dir[i].dims[0]),
        _ => None,
    }
}

/// The auxiliary embeddings of the model that a file holds.
pub open spec fn side_of(
    cfg: &Gemma4TextConfig,
    dir: Seq<TensorInfoView>,
    with_table: bool,
) -> Option<SideEmbedding> {
    if cfg.hidden_size_per_layer_input is Some && refusal(dir, side_weights()) is None {
        Some(
            SideEmbedding {
                layers: cfg.num_hidden_layers,
                width: cfg.hidden_size_per_layer_input->0,
                rows: side_rows_of(dir, with_table),
                scale_rows: true,
            },
        )
    } else {
        None
    }
}

/// The requests for all weights of the model that a file holds.
pub open spec fn model_requests_of(
    cfg: &Gemma4TextConfig,
    dir: Seq<TensorInfoView>,
    donors: Seq<Option<usize>>,
    with_table: bool,
) -> Seq<RequestView> {
    ends_requests() + layers_requests_of(cfg, dir, donors, cfg.num_hidden_layers as nat)
        + side_requests_of(side_of(cfg, dir, with_table))
}

/// Why the token embeddings cannot be looked up, if they cannot.
pub open spec fn embedding_refusal(dir: Seq<TensorInfoView>) -> Option<Error> {
    let token = top_request_of(TopTensor::TokenEmbedding);
    match request_refusal(dir, token) {
        Some(e) => Some(e),
        None => {
            let t = dir[chosen(dir, token)->0];
            stored_table_refusal(t.dims, t.dtype, t.bytes)
        },
    }
}

/// Why a file does not hold the model, if it does not; the first of several
/// reasons counts.
pub open spec fn gguf_refusal(
    cfg: &Gemma4TextConfig,
    dir: Seq<TensorInfoView>,
    donors: Seq<Option<usize>>,
    with_table: bool,
) -> Option<Error> {
    match embedding_refusal(dir) {
        Some(e) => Some(e),
        None => refusal(dir, model_requests_of(cfg, dir, donors, with_table)),
    }
}

/// The requests for the weights of a layer's attention.
pub open spec fn attention_requests_of(
    dir: Seq<TensorInfoView>,
    receiver: bool,
    i: usize,
) -> Seq<RequestView> {
    layer_requests_of(i, first_required_of(receiver)) + given(
        has_value(dir, receiver, i),
        layer_requests_of(i, seq![LayerTensor::AttnV]),
    ) + layer_requests_of(i, head_norms_of(receiver))
}

/// Every layer whose attention is read has keys for its queries to share.
pub open spec fn keyed(
    cfg: &Gemma4TextConfig,
    dir: Seq<TensorInfoView>,
    donors: Seq<Option<usize>>,
) -> bool {
    forall|i: int|
        0 <= i < cfg.num_hidden_layers && embedding_refusal(dir) is None && refusal(
            dir,
            ends_requests() + layers_requests_of(cfg, dir, donors, i as nat)
                + attention_requests_of(dir, donors[i] is Some, i as usize),
        ) is None ==> (#[trigger] Heads::spec_of(cfg, i)).kv_heads > 0
}

fn check_embedding(dir: &Directory) -> (r: Option<Error>)
    requires
        addressable(dir@),
    ensures
        r == embedding_refusal(dir@),
{
    match resolve(dir, &top_request(TopTensor::TokenEmbedding)) {
        Ok(i) => {
            proof {
                assert(dir@[i as int] == dir.tensors@[i as int]@);
            }
            let t: &TensorInfo = &dir.tensors[i];
            match QEmbedding::with_storage(&t.dims, t.dtype, t.bytes) {
                Ok(_) => None,
                Err(e) => Some(e),
            }
        },
        Err(e) => Some(e),
    }
}

fn side_rows(dir: &Directory, with_table: bool) -> (r: Option<usize>)
    requires
        addressable(dir@),
    ensures
        r == side_rows_of(dir@, with_table),
{
    if !with_table {
        return None;
    }
    match resolve(dir, &top_request(TopTensor::PerLayerTokenEmbedding)) {
        Ok(i) => {
            proof {
                assert(dir@[i as int] == dir.tensors@[i as int]@);
            }
            let t: &TensorInfo = &dir.tensors[i];
            match QEmbedding::with_storage(&t.dims, t.dtype, t.bytes) {
                Ok(_) => Some(t.dims[0]),
                Err(_) => None,
            }
        },
        Err(_) => None,
    }
}

/// The small quantized model.
#[derive(Clone, Debug)]
pub struct ModelWeights {
    pub cfg: Gemma4TextConfig,
    pub layers: Vec<DecoderLayer>,
    pub caches: Vec<KvCache>,
    pub side: Option<SideEmbedding>,
    pub sizes: Sizes,
    /// Whether each layer's weights fit.
    pub fits: Vec<Fit>,
    /// Why the weights before the first layer do not fit, if they do not.
    pub entry: Option<Error>,
    /// Why the weights behind the last layer do not fit, if they do not.
    pub exit: Option<Error>,
    /// The tensors that the weights are.
    pub bindings: Vec<Binding>,
}

impl ModelWeights {
    /// The layers are those that the configuration speaks of, and can be
    /// planned with; every cache has its layer's window.
    pub open spec fn wf(&self) -> bool {
        &&& self.layers@.len() == self.cfg.num_hidden_layers
        &&& self.caches@.len() == self.layers@.len()
        &&& self.fits@.len() == self.layers@.len()
        &&& self.side matches Some(s) ==> s.wf() && s.layers == self.layers@.len()
        &&& forall|i: int|
            0 <= i < self.layers@.len() ==> {
                let l = #[trigger] self.layers@[i];
                &&& l.attention.heads.layer == i
                &&& l.body.layer == i
                &&& !l.altup
                &&& l.attention.heads.addressable()
                &&& l.body.wf()
                &&& l.body.side matches Some(w) ==> (self.side matches Some(s) ==> s.width == w)
            }
        &&& forall|i: int|
            0 <= i < self.caches@.len() ==> {
                &&& (#[trigger] self.caches@[i]).wf()
                &&& self.caches@[i]@.sliding_window == window_of(&self.cfg, i)
            }
    }

    /// The model that a file with the given tensors holds, its caches empty.
    /// `donors` says for each layer whose keys and values it uses, if not its
    /// own; `with_table` whether there is room for the auxiliary embeddings'
    /// table.
    pub fn from_gguf(
        dir: &Directory,
        cfg: Gemma4TextConfig,
        donors: &Vec<Option<usize>>,
        with_table: bool,
    ) -> (r: Result<ModelWeights, Error>)
        requires
            cfg.sound(),
            keyed(&cfg, dir@, donors@),
            side_of(&cfg, dir@, with_table) matches Some(s) ==> s.wf(),
            addressable(dir@),
            donors@.len() == cfg.num_hidden_layers,
        ensures
            match r {
                Ok(m) => {
                    &&& gguf_refusal(&cfg, dir@, donors@, with_table) is None
                    &&& m.wf()
                    &&& m.cfg == cfg
                    &&& m.layers@ == Seq::new(
                        cfg.num_hidden_layers as nat,
                        |i: int| decoder_of(&cfg, dir@, donors@[i], i as usize),
                    )
                    &&& forall|i: int|
                        0 <= i < m.caches@.len() ==> {
                            let c = (#[trigger] m.caches@[i])@;
                            c.entries == Seq::<u64>::empty() && c.batch is None
                        }
                    &&& m.side == side_of(&cfg, dir@, with_table)
                    &&& m.sizes == sizes_of(dir@)
                    &&& m.fits@ == Seq::new(
                        cfg.num_hidden_layers as nat,
                        |i: int| fit_of(&cfg, dir@, m.layers@[i], m.side is Some, i as usize),
                    )
                    &&& m.entry == refusal(dir@, entry_shapes_of(m.sizes.hidden, m.side, None))
                    &&& m.exit == refusal(dir@, exit_shapes_of(m.sizes, None))
                    &&& m.bindings@ == bindings(
                        dir@,
                        model_requests_of(&cfg, dir@, donors@, with_table),
                    )
                },
                Err(e) => gguf_refusal(&cfg, dir@, donors@, with_table) == Some(e),
            },
    {
        if let Some(e) = check_embedding(dir) {
            return Err(e);
        }
        let mut asked: Vec<Request> = Vec::new();
        asked.push(top_request(TopTensor::TokenEmbedding));
        asked.push(top_request(TopTensor::OutputNorm));
        asked.push(top_request(TopTensor::Output));
        let n: usize = cfg.num_hidden_layers;
        let mut layers: Vec<DecoderLayer> = Vec::new();
        let mut caches: Vec<KvCache> = Vec::new();
        let mut i: usize = 0;
        proof {
            assert(requests(asked@) =~= ends_requests() + layers_requests_of(
                &cfg,
                dir@,
                donors@,
                0,
            ));
        }
        while i < n
            invariant
                n == cfg.num_hidden_layers,
                cfg.sound(),
                donors@.len() == n,
                0 <= i <= n,
                layers@.len() == i,
                caches@.len() == i,
                forall|j: int|
                    0 <= j < i ==> {
                        &&& (#[trigger] caches@[j]).wf()
                        &&& caches@[j]@.sliding_window == window_of(&cfg, j)
                        &&& caches@[j]@.entries == Seq::<u64>::empty()
                        &&& caches@[j]@.batch is None
                    },
                forall|j: int|
                    0 <= j < i ==> #[trigger] layers@[j] == decoder_of(
                        &cfg,
                        dir@,
                        donors@[j],
                        j as usize,
                    ),
                requests(asked@) == ends_requests() + layers_requests_of(
                    &cfg,
                    dir@,
                    donors@,
                    i as nat,
                ),
            decreases n - i,
        {
            let layer: DecoderLayer = load_layer(&mut asked, &cfg, dir, donors[i], i);
            let window: Option<usize> = if cfg.is_sliding(i) {
                Some(cfg.effective_sliding_window())
            } else {
                None
            };
            layers.push(layer);
            caches.push(KvCache::new(window));
            proof {
                assert(requests(asked@) =~= ends_requests() + layers_requests_of(
                    &cfg,
                    dir@,
                    donors@,
                    (i + 1) as nat,
                ));
            }
            i = i + 1;
        }
        let rows: Option<usize> = side_rows(dir, with_table);
        let on: bool = cfg.hidden_size_per_layer_input.is_some();
        let side: Option<SideEmbedding> = load_side(&mut asked, on, &cfg, dir, rows);
        proof {
            assert(requests(asked@) =~= model_requests_of(&cfg, dir@, donors@, with_table));
            assert(layers@ =~= Seq::new(
                cfg.num_hidden_layers as nat,
                |i: int| decoder_of(&cfg, dir@, donors@[i], i as usize),
            ));
            assert forall|i: int| 0 <= i < layers@.len() implies {
                let l = #[trigger] layers@[i];
                &&& l.attention.heads == Heads::spec_of(&cfg, i)
                &&& l.attention.heads.layer == i
                &&& l.body.layer == i
                &&& !l.altup
                &&& l.attention.heads.addressable()
                &&& l.body.wf()
                &&& l.body.side matches Some(w) ==> (side matches Some(s) ==> s.width == w)
            } by {
                assert(layers@[i].attention.heads == Heads::spec_of(&cfg, i));
            }
        }
        let sizes: Sizes = sizes(dir);
        let fits: Vec<Fit> = fits(&cfg, dir, &layers, side.is_some());
        let entry: Option<Error> = entry_misfit(dir, sizes.hidden, &side, &None);
        let exit: Option<Error> = exit_misfit(dir, &sizes, &None);
        match resolve_all(dir, &asked) {
            Ok(bound) => Ok(
                ModelWeights {
                    cfg,
                    layers,
                    caches,
                    side,
                    sizes,
                    fits,
                    entry,
                    exit,
                    bindings: bound,
                },
            ),
            Err(e) => Err(e),
        }
    }
}

/// The positions of a step.
pub open spec fn positions(offset: nat, len: nat) -> Seq<u64> {
    Seq::new(len, |i: int| (offset + i) as u64)
}

fn step_positions(offset: usize, len: usize) -> (r: Vec<u64>)
    requires
        offset + len <= usize::MAX,
    ensures
        r@ == positions(offset as nat, len as nat),
{
    let mut out: Vec<u64> = Vec::new();
    let mut i: usize = 0;
    while i < len
        invariant
            0 <= i <= len,
            offset + len <= usize::MAX,
            out@ == positions(offset as nat, i as nat),
        decreases len - i,
    {
        out.push((offset + i) as u64);
        proof {
            assert(out@ =~= positions(offset as nat, (i + 1) as nat));
        }
        i = i + 1;
    }
    out
}

/// What a cache does with a step of `len` positions.
pub open spec fn join_step(c: KvCacheView, len: usize) -> CacheStep {
    CacheStep::Join {
        cached: c.entries.len() as usize,
        batch: c.batch,
        trim: trim_of((c.entries.len() + len) as nat, c.sliding_window),
    }
}

/// What the caches do with a step of `len` positions.
pub open spec fn join_steps(caches: Seq<KvCache>, len: usize) -> Seq<CacheStep> {
    caches.map_values(|c: KvCache| join_step(c@, len))
}

/// How many layers' caches a pass reaches.
pub open spec fn reached(stop: Option<Stop>, n: nat) -> nat {
    match stop {
        None => n,
        Some(s) => if s.late {
            (s.layer + 1) as nat
        } else {
            s.layer as nat
        },
    }
}

/// The caches after a step: those of the layers with keys and values of their
/// own that the pass reached have taken in its positions.
pub open spec fn caches_after(
    m: &ModelWeights,
    after: Seq<KvCache>,
    reach: nat,
    batch: usize,
    offset: usize,
    len: usize,
) -> bool {
    &&& after.len() == m.caches@.len()
    &&& forall|j: int|
        0 <= j < after.len() ==> (#[trigger] after[j])@ == if j < reach && m.layers@[j].donor is None {
            cache_after(m.caches@[j]@, batch, positions(offset as nat, len as nat))
        } else {
            m.caches@[j]@
        }
}

impl ModelWeights {
    /// What the blocks of a step have in common.
    pub open spec fn spec_style(&self, batch: usize, len: usize) -> Style {
        style_of(&self.cfg, self.sizes.hidden, batch, len)
    }

    /// The way of a step of `len` positions through the layers.
    pub open spec fn pass_of(&self, batch: usize, len: usize, offset: usize) -> PassView {
        let c = self.spec_style(batch, len);
        PassView {
            c,
            layers: self.layers@,
            fits: self.fits@,
            caches: join_steps(self.caches@, len),
            streams: None,
            offset,
            max: self.cfg.max_position_embeddings,
            side: match self.side {
                Some(s) => Some(side_table_of(c, s, looked_up_of(TopTensor::TokenEmbedding))),
                None => None,
            },
        }
    }

    /// Where a step stops, if it does.
    pub open spec fn stop_of(&self, batch: usize, len: usize, offset: usize) -> Option<Stop> {
        first_stop(self.pass_of(batch, len, offset), self.layers@.len())
    }

    /// Why a step is refused, if it is; the first of several reasons counts.
    pub open spec fn step_refusal(&self, batch: usize, len: usize, offset: usize) -> Option<Error> {
        match self.entry {
            Some(e) => Some(e),
            None => match self.stop_of(batch, len, offset) {
                Some(s) => Some(s.error),
                None => self.exit,
            },
        }
    }

    /// How many layers' caches a step reaches.
    pub open spec fn reach_of(&self, batch: usize, len: usize, offset: usize) -> nat {
        match self.entry {
            Some(_) => 0,
            None => reached(self.stop_of(batch, len, offset), self.layers@.len()),
        }
    }

    /// The logits of a step's last position.
    pub open spec fn logits_formula(&self, batch: usize, len: usize, offset: usize) -> Expr {
        let v = self.pass_of(batch, len, offset);
        let entry = scaled(looked_up_of(TopTensor::TokenEmbedding), Scalar::Sqrt(v.c.nominal));
        let out = run_of(v, entry, self.layers@.len()).x;
        let raw = logits_of(TopTensor::Output, None, norm_then_last_of(v.c, out));
        match cap_of(&self.cfg) {
            Some(k) => capped_of(k, un(TOp::Cast(DType::F32), raw)),
            None => raw,
        }
    }

    fn joins(&self, len: usize) -> (r: Vec<CacheStep>)
        requires
            forall|i: int|
                0 <= i < self.caches@.len() ==> (#[trigger] self.caches@[i])@.entries.len() + len
                    <= usize::MAX,
        ensures
            r@ == join_steps(self.caches@, len),
            forall|i: int| 0 <= i < r@.len() ==> (#[trigger] r@[i]).wf(len),
    {
        let mut out: Vec<CacheStep> = Vec::new();
        let n: usize = self.caches.len();
        let mut i: usize = 0;
        while i < n
            invariant
                n == self.caches@.len(),
                0 <= i <= n,
                forall|i: int|
                    0 <= i < self.caches@.len() ==> (#[trigger] self.caches@[i])@.entries.len()
                        + len <= usize::MAX,
                out@.len() == i,
                forall|j: int|
                    0 <= j < i ==> #[trigger] out@[j] == join_step(self.caches@[j]@, len),
            decreases n - i,
        {
            let cached: usize = self.caches[i].len();
            let window: Option<usize> = self.caches[i].window();
            let batch: Option<usize> = self.caches[i].batch();
            out.push(CacheStep::Join { cached, batch, trim: trim(cached + len, window) });
            i = i + 1;
        }
        proof {
            assert(out@ =~= join_steps(self.caches@, len));
        }
        out
    }

    /// Hands a step's positions to the caches that the pass reached.
    fn advance(&mut self, reach: usize, batch: usize, offset: usize, len: usize)
        requires
            old(self).wf(),
            reach <= old(self).layers@.len(),
            forall|i: int|
                0 <= i < reach && old(self).layers@[i].donor is None ==> accepts(
                    (#[trigger] old(self).caches@[i])@,
                    batch,
                ),
            offset + len <= usize::MAX,
            forall|i: int|
                0 <= i < old(self).caches@.len() ==> (#[trigger] old(self).caches@[i])@.entries.len() + len <= usize::MAX,
        ensures
            final(self).wf(),
            final(self).cfg == old(self).cfg,
            final(self).layers == old(self).layers,
            final(self).side == old(self).side,
            final(self).sizes == old(self).sizes,
            final(self).fits == old(self).fits,
            final(self).entry == old(self).entry,
            final(self).exit == old(self).exit,
            final(self).bindings == old(self).bindings,
            caches_after(old(self), final(self).caches@, reach as nat, batch, offset, len),
    {
        let new: Vec<u64> = step_positions(offset, len);
        let ghost m = *self;
        let mut i: usize = 0;
        while i < reach
            invariant
                0 <= i <= reach,
                m.wf(),
                reach <= m.layers@.len(),
                forall|i: int|
                    0 <= i < reach && m.layers@[i].donor is None ==> accepts(
                        (#[trigger] m.caches@[i])@,
                        batch,
                    ),
                new@ == positions(offset as nat, len as nat),
                forall|i: int|
                    0 <= i < m.caches@.len() ==> (#[trigger] m.caches@[i])@.entries.len() + len
                        <= usize::MAX,
                self.cfg == m.cfg,
                self.layers == m.layers,
                self.side == m.side,
                self.sizes == m.sizes,
                self.fits == m.fits,
                self.entry == m.entry,
                self.exit == m.exit,
                self.bindings == m.bindings,
                caches_after(&m, self.caches@, i as nat, batch, offset, len),
                forall|j: int| 0 <= j < self.caches@.len() ==> (#[trigger] self.caches@[j]).wf(),
            decreases reach - i,
        {
            if self.layers[i].donor.is_none() {
                proof {
                    assert(self.caches@[i as int]@ == m.caches@[i as int]@);
                }
                let _ = self.caches[i].append(batch, new.as_slice());
            }
            i = i + 1;
        }
        proof {
            assert forall|i: int| 0 <= i < self.caches@.len() implies {
                &&& (#[trigger] self.caches@[i]).wf()
                &&& self.caches@[i]@.sliding_window == window_of(&self.cfg, i)
            } by {
                assert(m.caches@[i].wf());
            }
        }
    }

    /// Adds the whole step to a program.
    fn plan(&self, batch: usize, len: usize, offset: usize) -> (r: Result<Plan, Stop>)
        requires
            self.wf(),
            len > 0,
            offset + len <= usize::MAX,
            forall|i: int|
                0 <= i < self.caches@.len() ==> (#[trigger] self.caches@[i])@.entries.len() + len
                    <= usize::MAX,
        ensures
            match r {
                Ok(plan) => {
                    &&& self.stop_of(batch, len, offset) is None
                    &&& plan.program.wf()
                    &&& is(
                        plan.program@,
                        plan.output,
                        self.logits_formula(batch, len, offset),
                        logits_type(self.spec_style(batch, len), 1, self.sizes.vocab),
                    )
                },
                Err(s) => self.stop_of(batch, len, offset) == Some(s),
            },
    {
        let c: Style = style(&self.cfg, self.sizes.hidden, batch, len);
        let caches: Vec<CacheStep> = self.joins(len);
        let mut p: Program = Program::new();
        let embeds: usize = look_up(
            &mut p,
            &c,
            TopTensor::TokenEmbedding,
            self.sizes.rows,
            self.sizes.hidden,
        );
        let hidden: usize = p.each(MapOp::Mul(Scalar::Sqrt(self.cfg.hidden_size)), embeds);
        let side_step: Option<usize> = match &self.side {
            Some(s) => Some(side_table(&mut p, &c, s, embeds)),
            None => None,
        };
        let pass: Pass = Pass {
            c,
            layers: &self.layers,
            caches: &caches,
            fits: &self.fits,
            streams: None,
            offset,
            max: self.cfg.max_position_embeddings,
            side: self.side,
            side_step,
        };
        proof {
            assert(pass.within(&p) == self.pass_of(batch, len, offset));
        }
        let y: usize = match pass.run(&mut p, hidden) {
            Ok(y) => y,
            Err(s) => {
                return Err(s);
            },
        };
        let last: usize = norm_then_last(&mut p, &c, y);
        let raw: usize = logits(
            &mut p,
            &c,
            TopTensor::Output,
            1,
            self.sizes.vocab,
            None,
            last,
        );
        let out: usize = match cap(&self.cfg) {
            Some(k) => {
                let wide: usize = p.cast(raw, DType::F32);
                capped(&mut p, k, wide)
            },
            None => raw,
        };
        Ok(Plan { program: p, output: out })
    }

    /// One forward step: the logits of the last of `len` positions of `batch`
    /// sequences, which `offset` positions came before. The caches of the
    /// layers that the pass reaches take in the step's positions, also where
    /// it stops later on.
    pub fn forward(&mut self, batch: usize, len: usize, offset: usize) -> (r: Result<Plan, Error>)
        requires
            old(self).wf(),
            len > 0,
            offset + len <= usize::MAX,
            forall|i: int|
                0 <= i < old(self).caches@.len() ==> (#[trigger] old(self).caches@[i])@.entries.len() + len <= usize::MAX,
        ensures
            final(self).wf(),
            final(self).cfg == old(self).cfg,
            final(self).layers == old(self).layers,
            final(self).side == old(self).side,
            final(self).sizes == old(self).sizes,
            final(self).fits == old(self).fits,
            final(self).entry == old(self).entry,
            final(self).exit == old(self).exit,
            final(self).bindings == old(self).bindings,
            caches_after(
                old(self),
                final(self).caches@,
                old(self).reach_of(batch, len, offset),
                batch,
                offset,
                len,
            ),
            match r {
                Ok(plan) => {
                    &&& old(self).step_refusal(batch, len, offset) is None
                    &&& plan.program.wf()
                    &&& is(
                        plan.program@,
                        plan.output,
                        old(self).logits_formula(batch, len, offset),
                        logits_type(old(self).spec_style(batch, len), 1, old(self).sizes.vocab),
                    )
                },
                Err(e) => old(self).step_refusal(batch, len, offset) == Some(e),
            },
    {
        if let Some(e) = self.entry {
            return Err(e);
        }
        let exit: Option<Error> = self.exit;
        let n: usize = self.layers.len();
        match self.plan(batch, len, offset) {
            Ok(plan) => {
                proof {
                    lemma_reached_accept(self, batch, len, offset);
                }
                self.advance(n, batch, offset, len);
                match exit {
                    Some(e) => Err(e),
                    None => Ok(plan),
                }
            },
            Err(s) => {
                proof {
                    lemma_stop_in_range(self.pass_of(batch, len, offset), n as nat);
                    lemma_reached_accept(self, batch, len, offset);
                }
                let reach: usize = if s.late {
                    s.layer + 1
                } else {
                    s.layer
                };
                self.advance(reach, batch, offset, len);
                Err(s.error)
            },
        }
    }

    /// Empties all caches.
    pub fn clear_kv_cache(&mut self)
        requires
            old(self).wf(),
        ensures
            final(self).wf(),
            final(self).cfg == old(self).cfg,
            final(self).layers == old(self).layers,
            final(self).side == old(self).side,
            final(self).sizes == old(self).sizes,
            final(self).fits == old(self).fits,
            final(self).entry == old(self).entry,
            final(self).exit == old(self).exit,
            final(self).bindings == old(self).bindings,
            final(self).caches@.len() == old(self).caches@.len(),
            forall|i: int|
                0 <= i < final(self).caches@.len() ==> {
                    let c = (#[trigger] final(self).caches@[i])@;
                    c.entries == Seq::<u64>::empty() && c.batch is None
                },
    {
        let ghost m = *self;
        let n: usize = self.caches.len();
        let mut i: usize = 0;
        while i < n
            invariant
                n == self.caches@.len(),
                n == m.caches@.len(),
                0 <= i <= n,
                m.wf(),
                self.cfg == m.cfg,
                self.layers == m.layers,
                self.side == m.side,
                self.sizes == m.sizes,
                self.fits == m.fits,
                self.entry == m.entry,
                self.exit == m.exit,
                self.bindings == m.bindings,
                forall|j: int|
                    0 <= j < n ==> {
                        &&& (#[trigger] self.caches@[j]).wf()
                        &&& self.caches@[j]@.sliding_window == window_of(&m.cfg, j)
                        &&& j < i ==> self.caches@[j]@.entries == Seq::<u64>::empty()
                            && self.caches@[j]@.batch is None
                    },
            decreases n - i,
        {
            self.caches[i].reset();
            i = i + 1;
        }
    }
}

proof fn lemma_stop_in_range(v: PassView, n: nat)
    requires
        n <= usize::MAX,
    ensures
        first_stop(v, n) matches Some(s) ==> {
            &&& s.layer < n
            &&& first_stop(v, s.layer as nat) is None
            &&& stop_at(v, s.layer as int) == Some(s)
        },
    decreases n,
{
    if n > 0 {
        lemma_stop_in_range(v, (n - 1) as nat);
    }
}

/// The caches that a step reaches take its keys and values.
proof fn lemma_reached_accept(m: &ModelWeights, batch: usize, len: usize, offset: usize)
    requires
        m.wf(),
    ensures
        forall|i: int|
            0 <= i < reached(m.stop_of(batch, len, offset), m.layers@.len())
                && m.layers@[i].donor is None ==> accepts((#[trigger] m.caches@[i])@, batch),
{
    let v = m.pass_of(batch, len, offset);
    let n = m.layers@.len();
    lemma_stop_in_range(v, n);
    let free = match first_stop(v, n) {
        Some(s) => s.layer as nat,
        None => n,
    };
    law_no_stop(v, free);
    assert forall|i: int|
        0 <= i < reached(m.stop_of(batch, len, offset), n) && m.layers@[i].donor is None implies
        accepts((#[trigger] m.caches@[i])@, batch) by {
        if i < free {
            assert(stop_at(v, i) is None);
        }
        assert(early_refusal(v, i) is None);
        assert(v.caches[i] == join_step(m.caches@[i]@, len));
    }
}

/// Steps that follow each other fill a cache as one long step would: where a
/// cache holds what its window keeps of the first `offset` positions, it holds
/// after the next `len` what it keeps of all of them.
pub proof fn law_cache_follows_sequence(c: KvCacheView, batch: usize, offset: nat, len: nat)
    requires
        c.entries == kept(positions(0, offset), c.sliding_window),
    ensures
        cache_after(c, batch, positions(offset, len)).entries == kept(
            positions(0, offset + len),
            c.sliding_window,
        ),
{
    let none = Seq::<u64>::empty();
    law_append_in_steps(none, positions(0, offset), positions(offset, len), c.sliding_window);
    assert(none + positions(0, offset) =~= positions(0, offset));
    assert(positions(0, offset) + positions(offset, len) =~= positions(0, offset + len));
}

/// A step fits the masks on a layer whose cache has held every position so
/// far exactly where the layer's window, if it has one, keeps all positions;
/// the layer's heads and weights fitting otherwise.
pub proof fn law_window_must_cover_prefill(
    m: &ModelWeights,
    batch: usize,
    len: usize,
    offset: usize,
    i: int,
)
    requires
        0 <= i < m.layers@.len(),
        m.caches@.len() == m.layers@.len(),
        m.layers@[i].donor is None,
        len > 1,
        offset + len <= usize::MAX,
        m.caches@[i]@.entries.len() == offset,
        m.layers@[i].attention.heads.kv_heads * m.layers@[i].attention.heads.groups
            == m.layers@[i].attention.heads.heads,
        m.fits@[i].late is None,
        tail_refusal(m.pass_of(batch, len, offset), i) is None,
    ensures
        late_refusal(m.pass_of(batch, len, offset), i) is None <==> match m.caches@[i]@.sliding_window {
            Some(w) => offset + len <= w,
            None => true,
        },
{
    assert(m.pass_of(batch, len, offset).caches[i] == join_step(m.caches@[i]@, len));
}

/// A step is the same on two models that differ in nothing but how they came
/// by what their caches hold.
pub proof fn law_same_caches_same_step(
    m: &ModelWeights,
    n: &ModelWeights,
    batch: usize,
    len: usize,
    offset: usize,
)
    requires
        m.cfg == n.cfg,
        m.layers@ == n.layers@,
        m.side == n.side,
        m.sizes == n.sizes,
        m.fits@ == n.fits@,
        m.entry == n.entry,
        m.exit == n.exit,
        m.caches@.len() == n.caches@.len(),
        forall|i: int| 0 <= i < m.caches@.len() ==> (#[trigger] m.caches@[i])@ == n.caches@[i]@,
    ensures
        m.step_refusal(batch, len, offset) == n.step_refusal(batch, len, offset),
        m.logits_formula(batch, len, offset) == n.logits_formula(batch, len, offset),
{
    assert(join_steps(m.caches@, len) =~= join_steps(n.caches@, len));
}

/// After its caches were emptied, a model does what it did when it was
/// loaded.
pub proof fn law_cleared_is_fresh(
    cleared: &ModelWeights,
    fresh: &ModelWeights,
    batch: usize,
    len: usize,
    offset: usize,
)
    requires
        cleared.wf(),
        fresh.wf(),
        cleared.cfg == fresh.cfg,
        cleared.layers@ == fresh.layers@,
        cleared.side == fresh.side,
        cleared.sizes == fresh.sizes,
        cleared.fits@ == fresh.fits@,
        cleared.entry == fresh.entry,
        cleared.exit == fresh.exit,
        forall|i: int|
            0 <= i < cleared.caches@.len() ==> {
                let c = (#[trigger] cleared.caches@[i])@;
                c.entries == Seq::<u64>::empty() && c.batch is None
            },
        forall|i: int|
            0 <= i < fresh.caches@.len() ==> {
                let c = (#[trigger] fresh.caches@[i])@;
                c.entries == Seq::<u64>::empty() && c.batch is None
            },
    ensures
        cleared.step_refusal(batch, len, offset) == fresh.step_refusal(batch, len, offset),
        cleared.logits_formula(batch, len, offset) == fresh.logits_formula(batch, len, offset),
{
    assert forall|i: int| 0 <= i < cleared.caches@.len() implies (#[trigger] cleared.caches@[i])@
        == fresh.caches@[i]@ by {
        assert(cleared.caches@[i]@ =~= fresh.caches@[i]@);
    }
    law_same_caches_same_step(cleared, fresh, batch, len, offset);
}

} // verus!
