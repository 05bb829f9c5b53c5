//! The quantized model: its weights, as a GGUF file has them, and its forward
//! pass. Layers may share keys and values, have a low-rank residual, an
//! auxiliary embedding, a learned gain, and parallel streams; what a file
//! lacks of these is left out.

use crate::dtype::DType;
use crate::error::Error;
use crate::gemma4::attention::{DecodePath, Heads, QAttention};
use crate::gemma4::block::{Norm, Style};
use crate::gemma4::config::{F64Bits, Gemma4TextConfig};
use crate::gemma4::embedding::{table_fits, table_refusal, QEmbedding};
use crate::gemma4::ends::{
    is_positive, logits, logits_of, logits_type, look_up, looked_up_of, output_norm, output_norm_of,
    positive, side_table, side_table_of, SideEmbedding,
};
use crate::gemma4::fit::{
    entry_misfit, entry_shapes_of, exit_misfit, exit_shapes_of, fit_of, fits, gate_width,
    gate_width_of, sizes, sizes_of, stored_dim, stored_dim_of, stored_spread, stored_spread_of, Fit,
    Sizes,
};
use crate::gemma4::gguf_names::{
    layer_request, layer_request_of, layer_requests, layer_requests_of, stream_requests,
    stream_requests_of, top_request, top_request_of,
};
use crate::gemma4::kv_cache::all_layers;
use crate::gemma4::layer::{check_streams, streams_refusal, LayerBody, Streams};
use crate::gemma4::pass::{first_stop, run_of, CacheStep, Pass, PassView};
use crate::gemma4::streams::{expand, expanded_of, sum_streams, summed_of, Rescale};
use crate::gemma4::weights::{
    asked, bindings, bound, can_resolve, chosen, refusal, request_refusal, requests, resolve,
    resolve_all, whole, Binding, Directory, Request, RequestView, TensorInfoView,
};
use crate::tensor::op::{contiguous, scaled, Expr, LayerTensor, MapOp, Scalar, TopTensor};
use crate::tensor::program::{expr, is, Program};
use vstd::prelude::*;

verus! {

/// The most positions that the cache of a full-attention layer starts with
/// room for.
pub const KV_CACHE_INITIAL_CAP: usize = 4096;

/// One.
pub const ONE: u64 = 0x3ff0_0000_0000_0000;

/// The cache of a layer.
#[derive(Clone, Copy, Debug, PartialEq, Eq, Structural)]
pub enum LayerCache {
    /// It keeps the last positions only.
    Rotating { window: usize },
    /// It grows, and starts with room for some positions.
    Growing { initial: usize },
}

/// A layer of the quantized model.
#[derive(Clone, Copy, Debug, PartialEq, Eq, Structural)]
pub struct DecoderLayer {
    pub attention: QAttention,
    /// The layer whose keys and values this one uses, where it has none of its
    /// own.
    pub donor: Option<usize>,
    pub body: LayerBody,
    /// Whether the layer works on parallel streams.
    pub altup: bool,
}

/// The threshold of a layer's gate values: `z` where the share that is cut is
/// between none and all.
pub open spec fn threshold_of(share: F64Bits, z: F64Bits) -> Option<F64Bits> {
    if 0 < share.bits < ONE {
        Some(z)
    } else {
        None
    }
}

/// The threshold of a layer's gate values.
pub fn threshold(share: F64Bits, z: F64Bits) -> (r: Option<F64Bits>)
    ensures
        r == threshold_of(share, z),
{
    if 0 < share.bits && share.bits < ONE {
        Some(z)
    } else {
        None
    }
}

impl Gemma4TextConfig {
    /// Whether layers may have a low-rank residual.
    pub open spec fn spec_has_laurel(&self) -> bool {
        self.laurel_rank > 0 && !self.disable_laurel
    }

    /// Whether layers may take in an auxiliary embedding.
    pub open spec fn spec_has_side(&self) -> bool {
        self.hidden_size_per_layer_input is Some && !self.disable_per_layer_input_gate
    }

    /// Whether there may be parallel streams.
    pub open spec fn spec_has_streams(&self) -> bool {
        self.altup_num_inputs > 1 && !self.disable_altup
    }

    /// The share of layer `i`'s gate values that is cut.
    pub open spec fn spec_activation_sparsity_at(&self, i: int) -> F64Bits {
        match self.activation_sparsity_pattern {
            Some(v) if i < v@.len() => v@[i],
            _ => F64Bits { bits: 0 },
        }
    }

    /// The heads of every layer can be addressed.
    pub open spec fn sound(&self) -> bool {
        forall|i: int|
            0 <= i < self.num_hidden_layers ==> (#[trigger] Heads::spec_of(self, i)).addressable()
    }
}

/// The weights that a layer must have.
pub open spec fn required_of(receiver: bool) -> Seq<LayerTensor> {
    seq![LayerTensor::AttnQ, LayerTensor::AttnOutput] + (if receiver {
        seq![LayerTensor::AttnQNorm]
    } else {
        seq![
            LayerTensor::AttnK,
            LayerTensor::AttnV,
            LayerTensor::AttnQNorm,
            LayerTensor::AttnKNorm,
        ]
    }) + seq![
        LayerTensor::FfnGate,
        LayerTensor::FfnUp,
        LayerTensor::FfnDown,
        LayerTensor::InputNorm,
        LayerTensor::PostAttentionNorm,
        LayerTensor::PreFeedforwardNorm,
        LayerTensor::PostFeedforwardNorm,
    ]
}

fn required(receiver: bool) -> (r: Vec<LayerTensor>)
    ensures
        r@ == required_of(receiver),
{
    let mut r: Vec<LayerTensor> = Vec::new();
    r.push(LayerTensor::AttnQ);
    r.push(LayerTensor::AttnOutput);
    if !receiver {
        r.push(LayerTensor::AttnK);
        r.push(LayerTensor::AttnV);
    }
    r.push(LayerTensor::AttnQNorm);
    if !receiver {
        r.push(LayerTensor::AttnKNorm);
    }
    r.push(LayerTensor::FfnGate);
    r.push(LayerTensor::FfnUp);
    r.push(LayerTensor::FfnDown);
    r.push(LayerTensor::InputNorm);
    r.push(LayerTensor::PostAttentionNorm);
    r.push(LayerTensor::PreFeedforwardNorm);
    r.push(LayerTensor::PostFeedforwardNorm);
    proof {
        assert(r@ =~= required_of(receiver));
    }
    r
}

/// The parts of a layer that a file has all tensors of, or does without.
#[derive(Clone, Copy, Debug, PartialEq, Eq, Structural)]
pub enum Part {
    Laurel,
    Gain,
    Side,
    Altup,
}

/// The weights of a part.
pub open spec fn part_of(part: Part) -> Seq<LayerTensor> {
    match part {
        Part::Laurel => seq![
            LayerTensor::LaurelLeft,
            LayerTensor::LaurelRight,
            LayerTensor::PostLaurelNorm,
        ],
        Part::Gain => seq![LayerTensor::LayerScalar],
        Part::Side => seq![
            LayerTensor::PerLayerInputGate,
            LayerTensor::PerLayerProjection,
            LayerTensor::PostPerLayerInputNorm,
        ],
        Part::Altup => seq![
            LayerTensor::AltupCorrectOutputScale,
            LayerTensor::AltupCorrectionCoefs,
            LayerTensor::AltupPredictionCoefs,
            LayerTensor::AltupModalityRouter,
            LayerTensor::AltupRouterNorm,
        ],
    }
}

pub(crate) fn part_tensors(part: Part) -> (r: Vec<LayerTensor>)
    ensures
        r@ == part_of(part),
{
    let mut r: Vec<LayerTensor> = Vec::new();
    match part {
        Part::Laurel => {
            r.push(LayerTensor::LaurelLeft);
            r.push(LayerTensor::LaurelRight);
            r.push(LayerTensor::PostLaurelNorm);
        },
        Part::Gain => {
            r.push(LayerTensor::LayerScalar);
        },
        Part::Side => {
            r.push(LayerTensor::PerLayerInputGate);
            r.push(LayerTensor::PerLayerProjection);
            r.push(LayerTensor::PostPerLayerInputNorm);
        },
        Part::Altup => {
            r.push(LayerTensor::AltupCorrectOutputScale);
            r.push(LayerTensor::AltupCorrectionCoefs);
            r.push(LayerTensor::AltupPredictionCoefs);
            r.push(LayerTensor::AltupModalityRouter);
            r.push(LayerTensor::AltupRouterNorm);
        },
    }
    proof {
        assert(r@ =~= part_of(part));
    }
    r
}

/// Whether the configuration allows for a part.
pub open spec fn allowed(cfg: &Gemma4TextConfig, part: Part) -> bool {
    match part {
        Part::Laurel => cfg.spec_has_laurel(),
        Part::Gain => true,
        Part::Side => cfg.spec_has_side(),
        Part::Altup => cfg.spec_has_streams(),
    }
}

/// Whether layer `i` has a part: the configuration allows for it, and the file
/// has all its tensors.
pub open spec fn has_part(
    cfg: &Gemma4TextConfig,
    dir: Seq<TensorInfoView>,
    i: usize,
    part: Part,
) -> bool {
    allowed(cfg, part) && refusal(dir, layer_requests_of(i, part_of(part))) is None
}

/// The requests for a part that layer `i` has.
pub open spec fn part_requests_of(
    cfg: &Gemma4TextConfig,
    dir: Seq<TensorInfoView>,
    i: usize,
    part: Part,
) -> Seq<RequestView> {
    if has_part(cfg, dir, i, part) {
        layer_requests_of(i, part_of(part))
    } else {
        Seq::empty()
    }
}

/// Appends requests.
pub(crate) fn extend(out: &mut Vec<Request>, more: Vec<Request>)
    ensures
        requests(final(out)@) == requests(old(out)@) + requests(more@),
{
    let ghost before = out@;
    let ghost added = more@;
    let mut more: Vec<Request> = more;
    out.append(&mut more);
    proof {
        assert(requests(out@) =~= requests(before) + requests(added));
    }
}

/// Appends the requests for a part that the layer has, and says whether it
/// has it.
fn add_part(
    out: &mut Vec<Request>,
    cfg: &Gemma4TextConfig,
    dir: &Directory,
    i: usize,
    part: Part,
) -> (r: bool)
    ensures
        r == has_part(cfg, dir@, i, part),
        requests(final(out)@) == requests(old(out)@) + part_requests_of(cfg, dir@, i, part),
{
    let on: bool = match part {
        Part::Laurel => cfg.laurel_rank > 0 && !cfg.disable_laurel,
        Part::Gain => true,
        Part::Side => cfg.hidden_size_per_layer_input.is_some()
            && !cfg.disable_per_layer_input_gate,
        Part::Altup => cfg.altup_num_inputs > 1 && !cfg.disable_altup,
    };
    if on {
        let rs: Vec<Request> = layer_requests(i, &part_tensors(part));
        if can_resolve(dir, &rs) {
            extend(out, rs);
            return true;
        }
    }
    proof {
        assert(requests(out@) + Seq::<RequestView>::empty() =~= requests(out@));
    }
    false
}

/// The requests for the weights of layer `i`.
pub open spec fn decoder_requests_of(
    cfg: &Gemma4TextConfig,
    dir: Seq<TensorInfoView>,
    receiver: bool,
    i: usize,
) -> Seq<RequestView> {
    layer_requests_of(i, required_of(receiver)) + part_requests_of(cfg, dir, i, Part::Laurel)
        + part_requests_of(cfg, dir, i, Part::Gain) + part_requests_of(cfg, dir, i, Part::Side)
        + part_requests_of(cfg, dir, i, Part::Altup)
}

/// Layer `i` of the model that a file holds.
pub open spec fn decoder_of(
    cfg: &Gemma4TextConfig,
    dir: Seq<TensorInfoView>,
    donor: Option<usize>,
    z: F64Bits,
    i: usize,
) -> DecoderLayer {
    let heads = Heads::spec_of(cfg, i as int);
    let window = cfg.spec_effective_sliding_window() as usize;
    DecoderLayer {
        attention: QAttention {
            heads,
            has_value: true,
            decode: DecodePath::Fused {
                window: if heads.sliding {
                    Some(window as u32)
                } else {
                    None
                },
            },
        },
        donor,
        body: LayerBody {
            layer: i,
            inner: stored_dim_of(dir, layer_request_of(i, LayerTensor::FfnGate), 0),
            z: threshold_of(cfg.spec_activation_sparsity_at(i as int), z),
            laurel: if has_part(cfg, dir, i, Part::Laurel) {
                Some(stored_dim_of(dir, layer_request_of(i, LayerTensor::LaurelLeft), 0))
            } else {
                None
            },
            side: if has_part(cfg, dir, i, Part::Side) {
                cfg.hidden_size_per_layer_input
            } else {
                None
            },
            gate: gate_width_of(cfg, dir, i),
            scale: stored_spread_of(
                dir,
                layer_request_of(i, LayerTensor::AltupCorrectOutputScale),
            ),
            gain: if has_part(cfg, dir, i, Part::Gain) {
                Some(stored_spread_of(dir, layer_request_of(i, LayerTensor::LayerScalar)))
            } else {
                None
            },
        },
        altup: is_wired(cfg, dir),
    }
}

/// The cache of layer `i`.
pub open spec fn cache_of(cfg: &Gemma4TextConfig, i: int) -> LayerCache {
    if cfg.spec_is_sliding(i) {
        LayerCache::Rotating { window: cfg.spec_effective_sliding_window() as usize }
    } else {
        LayerCache::Growing {
            initial: if cfg.max_position_embeddings < KV_CACHE_INITIAL_CAP {
                cfg.max_position_embeddings
            } else {
                KV_CACHE_INITIAL_CAP
            },
        }
    }
}

fn layer_cache(cfg: &Gemma4TextConfig, i: usize) -> (r: LayerCache)
    ensures
        r == cache_of(cfg, i as int),
{
    if cfg.is_sliding(i) {
        LayerCache::Rotating { window: cfg.effective_sliding_window() }
    } else if cfg.max_position_embeddings < KV_CACHE_INITIAL_CAP {
        LayerCache::Growing { initial: cfg.max_position_embeddings }
    } else {
        LayerCache::Growing { initial: KV_CACHE_INITIAL_CAP }
    }
}

/// The cut of a number to 32 bits.
fn low_word(n: usize) -> (r: u32)
    ensures
        r == n as u32,
{
    #[verifier::truncate]
    (n as u32)
}

/// Appends the requests for a layer's weights, and says what the layer is.
fn load_layer(
    out: &mut Vec<Request>,
    cfg: &Gemma4TextConfig,
    dir: &Directory,
    donor: Option<usize>,
    z: F64Bits,
    wired: bool,
    i: usize,
) -> (r: DecoderLayer)
    requires
        wired == is_wired(cfg, dir@),
    ensures
        r == decoder_of(cfg, dir@, donor, z, i),
        requests(final(out)@) == requests(old(out)@) + decoder_requests_of(
            cfg,
            dir@,
            donor is Some,
            i,
        ),
{
    let ghost before = requests(out@);
    let heads: Heads = Heads::of(cfg, i);
    let window: usize = cfg.effective_sliding_window();
    let receiver: bool = donor.is_some();
    let own: Vec<Request> = layer_requests(i, &required(receiver));
    extend(out, own);
    let has_laurel: bool = add_part(out, cfg, dir, i, Part::Laurel);
    let has_gain: bool = add_part(out, cfg, dir, i, Part::Gain);
    let has_side: bool = add_part(out, cfg, dir, i, Part::Side);
    add_part(out, cfg, dir, i, Part::Altup);
    proof {
        assert(requests(out@) =~= before + decoder_requests_of(cfg, dir@, receiver, i));
    }
    let body: LayerBody = LayerBody {
        layer: i,
        inner: stored_dim(dir, &layer_request(i, LayerTensor::FfnGate), 0),
        z: threshold(cfg.activation_sparsity_at(i), z),
        laurel: if has_laurel {
            Some(stored_dim(dir, &layer_request(i, LayerTensor::LaurelLeft), 0))
        } else {
            None
        },
        side: if has_side {
            cfg.hidden_size_per_layer_input
        } else {
            None
        },
        gate: gate_width(cfg, dir, i),
        scale: stored_spread(dir, &layer_request(i, LayerTensor::AltupCorrectOutputScale)),
        gain: if has_gain {
            Some(stored_spread(dir, &layer_request(i, LayerTensor::LayerScalar)))
        } else {
            None
        },
    };
    let decode: DecodePath = DecodePath::Fused {
        window: if heads.sliding {
            Some(low_word(window))
        } else {
            None
        },
    };
    DecoderLayer {
        attention: QAttention { heads, has_value: true, decode },
        donor,
        body,
        altup: wired,
    }
}

/// The requests for the weights of the first `n` layers.
pub open spec fn layers_requests_of(
    cfg: &Gemma4TextConfig,
    dir: Seq<TensorInfoView>,
    donors: Seq<Option<usize>>,
    n: nat,
) -> Seq<RequestView>
    decreases n,
{
    if n == 0 {
        Seq::empty()
    } else {
        layers_requests_of(cfg, dir, donors, (n - 1) as nat) + decoder_requests_of(
            cfg,
            dir,
            donors[n - 1] is Some,
            (n - 1) as usize,
        )
    }
}

/// The requests for the projections of the parallel streams, where the file
/// has them.
pub open spec fn streams_requests_of(cfg: &Gemma4TextConfig, dir: Seq<TensorInfoView>) -> Seq<
    RequestView,
> {
    if cfg.spec_has_streams() {
        whole(dir, stream_requests_of((cfg.altup_num_inputs - 1) as nat))
    } else {
        Seq::empty()
    }
}

/// Whether the model that a file holds works on parallel streams: the
/// configuration allows for it, and the file has the projections of all
/// streams and what every layer needs for them. Otherwise the model works on
/// one stream.
pub open spec fn is_wired(cfg: &Gemma4TextConfig, dir: Seq<TensorInfoView>) -> bool {
    &&& cfg.spec_has_streams()
    &&& refusal(dir, stream_requests_of((cfg.altup_num_inputs - 1) as nat)) is None
    &&& forall|i: int|
        0 <= i < cfg.num_hidden_layers ==> has_part(
            cfg,
            dir,
            #[trigger] (i as usize),
            Part::Altup,
        )
}

/// Whether the model that a file holds works on parallel streams.
fn wired(cfg: &Gemma4TextConfig, dir: &Directory) -> (r: bool)
    ensures
        r == is_wired(cfg, dir@),
{
    if cfg.altup_num_inputs <= 1 || cfg.disable_altup {
        return false;
    }
    if !can_resolve(dir, &stream_requests(cfg.altup_num_inputs - 1)) {
        return false;
    }
    let n: usize = cfg.num_hidden_layers;
    let mut i: usize = 0;
    while i < n
        invariant
            n == cfg.num_hidden_layers,
            0 <= i <= n,
            cfg.spec_has_streams(),
            forall|j: int|
                0 <= j < i ==> has_part(cfg, dir@, #[trigger] (j as usize), Part::Altup),
        decreases n - i,
    {
        if !can_resolve(dir, &layer_requests(i, &part_tensors(Part::Altup))) {
            proof {
                assert(!has_part(cfg, dir@, (i as int) as usize, Part::Altup));
            }
            return false;
        }
        i = i + 1;
    }
    true
}

/// The parallel streams of the model that a file holds.
pub open spec fn streams_of(cfg: &Gemma4TextConfig, dir: Seq<TensorInfoView>) -> Option<Streams> {
    if is_wired(cfg, dir) {
        Some(
            Streams {
                n: cfg.altup_num_inputs,
                active: cfg.altup_active_idx,
                correct_scale: cfg.altup_correct_scale,
            },
        )
    } else {
        None
    }
}

/// The weights that the auxiliary embeddings are computed with.
pub open spec fn side_weights() -> Seq<RequestView> {
    seq![
        top_request_of(TopTensor::PerLayerModelProjection),
        top_request_of(TopTensor::PerLayerProjectionNorm),
    ]
}

/// The rows of the auxiliary embeddings' table, where the file has one that
/// rows can be looked up in.
pub open spec fn side_rows_of(dir: Seq<TensorInfoView>) -> Option<usize> {
    match chosen(dir, top_request_of(TopTensor::PerLayerTokenEmbedding)) {
        Some(i) if table_refusal(dir[i].dims, dir[i].dtype) is None => Some(dir[i].dims[0]),
        _ => None,
    }
}

/// The auxiliary embeddings of the model that a file holds.
pub open spec fn side_of(cfg: &Gemma4TextConfig, dir: Seq<TensorInfoView>) -> Option<
    SideEmbedding,
> {
    if cfg.spec_has_side() && refusal(dir, side_weights()) is None {
        Some(
            SideEmbedding {
                layers: cfg.num_hidden_layers,
                width: cfg.hidden_size_per_layer_input->0,
                rows: side_rows_of(dir),
                scale_rows: true,
            },
        )
    } else {
        None
    }
}

/// The requests for the weights that the auxiliary embeddings are computed
/// with, where the model has them.
pub open spec fn side_requests_of(side: Option<SideEmbedding>) -> Seq<RequestView> {
    match side {
        Some(s) => side_weights() + (if s.rows is Some {
            seq![top_request_of(TopTensor::PerLayerTokenEmbedding)]
        } else {
            Seq::empty()
        }),
        None => Seq::empty(),
    }
}

/// The requests for the weights at both ends of the model.
pub open spec fn ends_requests() -> Seq<RequestView> {
    seq![
        top_request_of(TopTensor::TokenEmbedding),
        top_request_of(TopTensor::OutputNorm),
        top_request_of(TopTensor::Output),
    ]
}

/// The requests for all weights of the model that a file holds.
pub open spec fn model_requests_of(
    cfg: &Gemma4TextConfig,
    dir: Seq<TensorInfoView>,
    donors: Seq<Option<usize>>,
) -> Seq<RequestView> {
    ends_requests() + layers_requests_of(cfg, dir, donors, cfg.num_hidden_layers as nat)
        + streams_requests_of(cfg, dir) + side_requests_of(side_of(cfg, dir))
}

/// Why the token embeddings cannot be looked up, if they cannot.
pub open spec fn embedding_refusal(dir: Seq<TensorInfoView>) -> Option<Error> {
    let token = top_request_of(TopTensor::TokenEmbedding);
    match request_refusal(dir, token) {
        Some(e) => Some(e),
        None => {
            let t = dir[chosen(dir, token)->0];
            table_refusal(t.dims, t.dtype)
        },
    }
}

/// Why a file does not hold the model, if it does not; the first of several
/// reasons counts.
pub open spec fn gguf_refusal(
    cfg: &Gemma4TextConfig,
    dir: Seq<TensorInfoView>,
    donors: Seq<Option<usize>>,
) -> Option<Error> {
    match embedding_refusal(dir) {
        Some(e) => Some(e),
        None => refusal(dir, model_requests_of(cfg, dir, donors)),
    }
}

/// Every layer that reading the file comes to has keys for its queries to
/// share.
pub open spec fn keyed(
    cfg: &Gemma4TextConfig,
    dir: Seq<TensorInfoView>,
    donors: Seq<Option<usize>>,
) -> bool {
    forall|i: int|
        0 <= i < cfg.num_hidden_layers && embedding_refusal(dir) is None && refusal(
            dir,
            ends_requests() + layers_requests_of(cfg, dir, donors, i as nat),
        ) is None ==> (#[trigger] Heads::spec_of(cfg, i)).kv_heads > 0
}

/// Every tensor can be addressed.
pub open spec fn addressable(dir: Seq<TensorInfoView>) -> bool {
    forall|i: int| 0 <= i < dir.len() ==> table_fits((#[trigger] dir[i]).dims, dir[i].dtype)
}

/// Finds the table of the token embeddings.
pub(crate) fn check_embedding(dir: &Directory) -> (r: Result<usize, Error>)
    requires
        addressable(dir@),
    ensures
        match r {
            Ok(i) => embedding_refusal(dir@) is None && i < dir@.len() && chosen(
                dir@,
                top_request_of(TopTensor::TokenEmbedding),
            ) == Some(i as int),
            Err(e) => embedding_refusal(dir@) == Some(e),
        },
{
    match resolve(dir, &top_request(TopTensor::TokenEmbedding)) {
        Ok(i) => {
            proof {
                assert(dir@[i as int] == dir.tensors@[i as int]@);
            }
            match QEmbedding::new(&dir.tensors[i].dims, dir.tensors[i].dtype) {
                Ok(_) => Ok(i),
                Err(e) => Err(e),
            }
        },
        Err(e) => Err(e),
    }
}

/// The rows of the auxiliary embeddings' table.
pub(crate) fn side_rows(dir: &Directory) -> (r: Option<usize>)
    requires
        addressable(dir@),
    ensures
        r == side_rows_of(dir@),
{
    match resolve(dir, &top_request(TopTensor::PerLayerTokenEmbedding)) {
        Ok(i) => {
            proof {
                assert(dir@[i as int] == dir.tensors@[i as int]@);
            }
            match QEmbedding::new(&dir.tensors[i].dims, dir.tensors[i].dtype) {
                Ok(_) => Some(dir.tensors[i].dims[0]),
                Err(_) => None,
            }
        },
        Err(_) => None,
    }
}

/// Appends the requests for what the auxiliary embeddings are computed with,
/// where there are any, and says what they are.
pub(crate) fn load_side(
    out: &mut Vec<Request>,
    allowed: bool,
    cfg: &Gemma4TextConfig,
    dir: &Directory,
    rows: Option<usize>,
) -> (r: Option<SideEmbedding>)
    requires
        allowed ==> cfg.hidden_size_per_layer_input is Some,
    ensures
        r == if allowed && refusal(dir@, side_weights()) is None {
            Some(
                SideEmbedding {
                    layers: cfg.num_hidden_layers,
                    width: cfg.hidden_size_per_layer_input->0,
                    rows,
                    scale_rows: true,
                },
            )
        } else {
            None
        },
        requests(final(out)@) == requests(old(out)@) + side_requests_of(r),
{
    let ghost before = requests(out@);
    if allowed {
        let mut rs: Vec<Request> = Vec::new();
        rs.push(top_request(TopTensor::PerLayerModelProjection));
        rs.push(top_request(TopTensor::PerLayerProjectionNorm));
        proof {
            assert(requests(rs@) =~= side_weights());
        }
        if can_resolve(dir, &rs) {
            extend(out, rs);
            if rows.is_some() {
                let ghost mid = out@;
                out.push(top_request(TopTensor::PerLayerTokenEmbedding));
                proof {
                    assert(requests(out@) =~= requests(mid).push(
                        top_request_of(TopTensor::PerLayerTokenEmbedding),
                    ));
                }
            }
            let width: usize = match cfg.hidden_size_per_layer_input {
                Some(w) => w,
                None => 0,
            };
            let s: SideEmbedding = SideEmbedding {
                layers: cfg.num_hidden_layers,
                width,
                rows,
                scale_rows: true,
            };
            proof {
                assert(requests(out@) =~= before + side_requests_of(Some(s)));
            }
            return Some(s);
        }
    }
    proof {
        assert(requests(out@) =~= before + side_requests_of(None));
    }
    None
}

/// The quantized model.
#[derive(Clone, Debug)]
pub struct ModelWeights {
    pub cfg: Gemma4TextConfig,
    pub layers: Vec<DecoderLayer>,
    pub caches: Vec<LayerCache>,
    pub side: Option<SideEmbedding>,
    pub streams: Option<Streams>,
    pub sizes: Sizes,
    /// Whether each layer's weights fit.
    pub fits: Vec<Fit>,
    /// Why the weights before the first layer do not fit, if they do not.
    pub entry: Option<Error>,
    /// Why the weights behind the last layer do not fit, if they do not.
    pub exit: Option<Error>,
    /// The tensors that the weights are.
    pub bindings: Vec<Binding>,
}

impl ModelWeights {
    /// The model that a file with the given tensors holds. `donors` says for
    /// each layer whose keys and values it uses, if not its own; `z` how many
    /// standard deviations its gate values' threshold lies above their mean,
    /// where they have one.
    pub fn from_gguf(
        dir: &Directory,
        cfg: Gemma4TextConfig,
        donors: &Vec<Option<usize>>,
        z: &Vec<F64Bits>,
    ) -> (r: Result<ModelWeights, Error>)
        requires
            cfg.sound(),
            keyed(&cfg, dir@, donors@),
            streams_of(&cfg, dir@) matches Some(s) ==> s.countable(),
            side_of(&cfg, dir@) matches Some(s) ==> s.wf(),
            addressable(dir@),
            donors@.len() == cfg.num_hidden_layers,
            z@.len() == cfg.num_hidden_layers,
        ensures
            match r {
                Ok(m) => {
                    &&& gguf_refusal(&cfg, dir@, donors@) is None
                    &&& m.cfg == cfg
                    &&& m.layers@ == Seq::new(
                        cfg.num_hidden_layers as nat,
                        |i: int| decoder_of(&cfg, dir@, donors@[i], z@[i], i as usize),
                    )
                    &&& m.caches@ == Seq::new(
                        cfg.num_hidden_layers as nat,
                        |i: int| cache_of(&cfg, i),
                    )
                    &&& m.wf()
                    &&& m.side == side_of(&cfg, dir@)
                    &&& m.streams == streams_of(&cfg, dir@)
                    &&& m.sizes == sizes_of(dir@)
                    &&& m.fits@ == Seq::new(
                        cfg.num_hidden_layers as nat,
                        |i: int| fit_of(&cfg, dir@, m.layers@[i], m.side is Some, i as usize),
                    )
                    &&& m.entry == refusal(
                        dir@,
                        entry_shapes_of(m.sizes.hidden, m.side, m.streams),
                    )
                    &&& m.exit == refusal(dir@, exit_shapes_of(m.sizes, m.streams))
                    &&& m.bindings@ == bindings(dir@, model_requests_of(&cfg, dir@, donors@))
                },
                Err(e) => gguf_refusal(&cfg, dir@, donors@) == Some(e),
            },
    {
        match check_embedding(dir) {
            Ok(_) => {},
            Err(e) => {
                return Err(e);
            },
        }
        let mut asked: Vec<Request> = Vec::new();
        asked.push(top_request(TopTensor::TokenEmbedding));
        asked.push(top_request(TopTensor::OutputNorm));
        asked.push(top_request(TopTensor::Output));
        let n: usize = cfg.num_hidden_layers;
        let on_streams: bool = wired(&cfg, dir);
        let mut layers: Vec<DecoderLayer> = Vec::new();
        let mut caches: Vec<LayerCache> = Vec::new();
        let mut i: usize = 0;
        proof {
            assert(requests(asked@) =~= ends_requests() + layers_requests_of(
                &cfg,
                dir@,
                donors@,
                0,
            ));
        }
        while i < n
            invariant
                n == cfg.num_hidden_layers,
                on_streams == is_wired(&cfg, dir@),
                cfg.sound(),
                donors@.len() == n,
                z@.len() == n,
                0 <= i <= n,
                layers@.len() == i,
                caches@ == Seq::new(i as nat, |j: int| cache_of(&cfg, j)),
                forall|j: int|
                    0 <= j < i ==> #[trigger] layers@[j] == decoder_of(
                        &cfg,
                        dir@,
                        donors@[j],
                        z@[j],
                        j as usize,
                    ),
                requests(asked@) == ends_requests() + layers_requests_of(
                    &cfg,
                    dir@,
                    donors@,
                    i as nat,
                ),
            decreases n - i,
        {
            let layer: DecoderLayer = load_layer(
                &mut asked,
                &cfg,
                dir,
                donors[i],
                z[i],
                on_streams,
                i,
            );
            layers.push(layer);
            caches.push(layer_cache(&cfg, i));
            proof {
                assert(requests(asked@) =~= ends_requests() + layers_requests_of(
                    &cfg,
                    dir@,
                    donors@,
                    (i + 1) as nat,
                ));
                assert(caches@ =~= Seq::new((i + 1) as nat, |j: int| cache_of(&cfg, j)));
            }
            i = i + 1;
        }
        let ghost so_far = requests(asked@);
        let mut streams: Option<Streams> = None;
        if cfg.altup_num_inputs > 1 && !cfg.disable_altup {
            let rs: Vec<Request> = stream_requests(cfg.altup_num_inputs - 1);
            if can_resolve(dir, &rs) {
                extend(&mut asked, rs);
            }
        }
        if on_streams {
            streams = Some(
                Streams {
                    n: cfg.altup_num_inputs,
                    active: cfg.altup_active_idx,
                    correct_scale: cfg.altup_correct_scale,
                },
            );
        }
        proof {
            assert(requests(asked@) =~= so_far + streams_requests_of(&cfg, dir@));
        }
        let has_side: bool = cfg.hidden_size_per_layer_input.is_some()
            && !cfg.disable_per_layer_input_gate;
        let side: Option<SideEmbedding> = load_side(&mut asked, has_side, &cfg, dir, side_rows(dir));
        proof {
            assert(requests(asked@) =~= model_requests_of(&cfg, dir@, donors@));
            assert(layers@ =~= Seq::new(
                cfg.num_hidden_layers as nat,
                |i: int| decoder_of(&cfg, dir@, donors@[i], z@[i], i as usize),
            ));
        }
        proof {
            assert forall|i: int| 0 <= i < layers@.len() implies {
                &&& (#[trigger] layers@[i]).attention.heads == Heads::spec_of(&cfg, i)
                &&& layers@[i].attention.heads.addressable()
            } by {
                assert(Heads::spec_of(&cfg, i).addressable());
            }
        }
        let sizes: Sizes = sizes(dir);
        let fits: Vec<Fit> = fits(&cfg, dir, &layers, side.is_some());
        let entry: Option<Error> = entry_misfit(dir, sizes.hidden, &side, &streams);
        let exit: Option<Error> = exit_misfit(dir, &sizes, &streams);
        match resolve_all(dir, &asked) {
            Ok(bound) => {
                let m: ModelWeights = ModelWeights {
                    cfg,
                    layers,
                    caches,
                    side,
                    streams,
                    sizes,
                    fits,
                    entry,
                    exit,
                    bindings: bound,
                };
                proof {
                    lemma_loaded_model_is_sound(m, dir@, donors@, z@);
                }
                Ok(m)
            },
            Err(e) => Err(e),
        }
    }
}

proof fn lemma_loaded_model_is_sound(
    m: ModelWeights,
    dir: Seq<TensorInfoView>,
    donors: Seq<Option<usize>>,
    z: Seq<F64Bits>,
)
    requires
        m.cfg.sound(),
        m.streams matches Some(s) ==> s.countable(),
        m.side matches Some(s) ==> s.wf(),
        m.layers@ == Seq::new(
            m.cfg.num_hidden_layers as nat,
            |i: int| decoder_of(&m.cfg, dir, donors[i], z[i], i as usize),
        ),
        m.fits@.len() == m.layers@.len(),
        m.side == side_of(&m.cfg, dir),
        m.streams == streams_of(&m.cfg, dir),
    ensures
        m.wf(),
{
    assert forall|i: int| 0 <= i < m.layers@.len() implies {
        let l = #[trigger] m.layers@[i];
        &&& l.attention.heads.layer == i
        &&& l.body.layer == i
        &&& l.attention.heads.addressable()
        &&& l.body.wf()
        &&& l.body.side matches Some(w) ==> (m.side matches Some(s) ==> s.width == w)
    } by {
        assert(m.layers@[i].attention.heads == Heads::spec_of(&m.cfg, i));
    }
}

/// The steps of a computation, and the one that holds its result.
#[derive(Clone, Debug)]
pub struct Plan {
    pub program: Program,
    pub output: usize,
}

/// What the blocks of a pass have in common.
pub open spec fn style_of(cfg: &Gemma4TextConfig, hidden: usize, batch: usize, len: usize) -> Style {
    Style {
        norm: Norm::Fused,
        dtype: DType::F32,
        batch,
        len,
        hidden,
        nominal: cfg.hidden_size,
        eps: cfg.rms_norm_eps,
        act: cfg.hidden_activation,
    }
}

pub(crate) fn style(cfg: &Gemma4TextConfig, hidden: usize, batch: usize, len: usize) -> (r: Style)
    ensures
        r == style_of(cfg, hidden, batch, len),
{
    Style {
        norm: Norm::Fused,
        dtype: DType::F32,
        batch,
        len,
        hidden,
        nominal: cfg.hidden_size,
        eps: cfg.rms_norm_eps,
        act: cfg.hidden_activation,
    }
}

/// What a layer's cache does where it gives back `kv_lens` positions.
pub open spec fn append_steps(kv_lens: Seq<usize>) -> Seq<CacheStep> {
    kv_lens.map_values(|n: usize| CacheStep::Append { kv_len: n })
}

fn appends(kv_lens: &Vec<usize>) -> (r: Vec<CacheStep>)
    ensures
        r@ == append_steps(kv_lens@),
{
    let mut out: Vec<CacheStep> = Vec::new();
    let n: usize = kv_lens.len();
    let mut i: usize = 0;
    while i < n
        invariant
            n == kv_lens@.len(),
            0 <= i <= n,
            out@ == append_steps(kv_lens@.take(i as int)),
        decreases n - i,
    {
        out.push(CacheStep::Append { kv_len: kv_lens[i] });
        proof {
            assert(out@ =~= append_steps(kv_lens@.take(i + 1)));
        }
        i = i + 1;
    }
    proof {
        assert(kv_lens@.take(n as int) =~= kv_lens@);
    }
    out
}

/// The cap of the logits, where there is one above zero.
pub open spec fn cap_of(cfg: &Gemma4TextConfig) -> Option<F64Bits> {
    match cfg.final_logit_softcapping {
        Some(v) if is_positive(v) => Some(v),
        _ => None,
    }
}

pub(crate) fn cap(cfg: &Gemma4TextConfig) -> (r: Option<F64Bits>)
    ensures
        r == cap_of(cfg),
{
    match cfg.final_logit_softcapping {
        Some(v) => if positive(v) {
            Some(v)
        } else {
            None
        },
        None => None,
    }
}

impl ModelWeights {
    /// The layers are those that the configuration speaks of, and can be
    /// planned with.
    pub open spec fn wf(&self) -> bool {
        &&& self.layers@.len() == self.cfg.num_hidden_layers
        &&& self.fits@.len() == self.layers@.len()
        &&& self.streams matches Some(s) ==> s.countable()
        &&& forall|i: int|
            0 <= i < self.layers@.len() ==> (#[trigger] self.layers@[i]).altup == (
            self.streams is Some)
        &&& self.side matches Some(s) ==> s.wf() && s.layers == self.layers@.len()
        &&& forall|i: int|
            0 <= i < self.layers@.len() ==> {
                let l = #[trigger] self.layers@[i];
                &&& l.attention.heads.layer == i
                &&& l.body.layer == i
                &&& l.attention.heads.addressable()
                &&& l.body.wf()
                &&& l.body.side matches Some(w) ==> (self.side matches Some(s) ==> s.width == w)
            }
    }

    /// What the blocks of a step have in common.
    pub open spec fn spec_style(&self, batch: usize, len: usize) -> Style {
        style_of(&self.cfg, self.sizes.hidden, batch, len)
    }

    /// The way of a step of `len` positions through the layers.
    pub open spec fn pass_of(
        &self,
        batch: usize,
        len: usize,
        offset: usize,
        caches: Seq<CacheStep>,
    ) -> PassView {
        let c = self.spec_style(batch, len);
        PassView {
            c,
            layers: self.layers@,
            caches,
            fits: self.fits@,
            streams: self.streams,
            offset,
            max: self.cfg.max_position_embeddings,
            side: match self.side {
                Some(s) => Some(side_table_of(c, s, looked_up_of(TopTensor::TokenEmbedding))),
                None => None,
            },
        }
    }

    /// The state before the first layer.
    pub open spec fn entry_of(&self, c: Style) -> Expr {
        let hidden = scaled(looked_up_of(TopTensor::TokenEmbedding), Scalar::Sqrt(c.nominal));
        match self.streams {
            Some(s) => contiguous(expanded_of(c, s, Rescale::No, hidden)),
            None => hidden,
        }
    }

    /// The state behind the last layer, as one stream.
    pub open spec fn exit_of(&self, x: Expr) -> Expr {
        match self.streams {
            Some(s) => summed_of(s, x, s.n as nat),
            None => x,
        }
    }

    /// The logits of a step's positions.
    pub open spec fn logits_formula(
        &self,
        batch: usize,
        len: usize,
        offset: usize,
        caches: Seq<CacheStep>,
    ) -> Expr {
        let v = self.pass_of(batch, len, offset, caches);
        let out = run_of(v, self.entry_of(v.c), self.layers@.len()).x;
        logits_of(TopTensor::Output, cap_of(&self.cfg), output_norm_of(v.c, self.exit_of(out)))
    }

    /// Why a step is refused, if it is; the first of several reasons counts.
    pub open spec fn step_refusal(
        &self,
        batch: usize,
        len: usize,
        offset: usize,
        caches: Seq<CacheStep>,
    ) -> Option<Error> {
        match self.entry {
            Some(e) => Some(e),
            None => match streams_refusal(self.streams) {
                Some(e) => Some(e),
                None => match first_stop(
                    self.pass_of(batch, len, offset, caches),
                    self.layers@.len(),
                ) {
                    Some(s) => Some(s.error),
                    None => self.exit,
                },
            },
        }
    }

    /// One forward step: the logits of all of `len` positions of `batch`
    /// sequences, which `offset` positions came before. `kv_lens` are the
    /// positions that each layer's cache gives back when it is given its keys
    /// and values.
    pub fn forward(&self, batch: usize, len: usize, offset: usize, kv_lens: &Vec<usize>) -> (r:
        Result<Plan, Error>)
        requires
            self.wf(),
            len > 0,
            offset + len <= usize::MAX,
            kv_lens@.len() == self.layers@.len(),
        ensures
            match r {
                Ok(plan) => {
                    &&& self.step_refusal(batch, len, offset, append_steps(kv_lens@)) is None
                    &&& plan.program.wf()
                    &&& is(
                        plan.program@,
                        plan.output,
                        self.logits_formula(batch, len, offset, append_steps(kv_lens@)),
                        logits_type(self.spec_style(batch, len), len, self.sizes.vocab),
                    )
                },
                Err(e) => self.step_refusal(batch, len, offset, append_steps(kv_lens@)) == Some(e),
            },
    {
        if let Some(e) = self.entry {
            return Err(e);
        }
        if let Some(e) = check_streams(&self.streams) {
            return Err(e);
        }
        let c: Style = style(&self.cfg, self.sizes.hidden, batch, len);
        let caches: Vec<CacheStep> = appends(kv_lens);
        let mut p: Program = Program::new();
        let embeds: usize = look_up(
            &mut p,
            &c,
            TopTensor::TokenEmbedding,
            self.sizes.rows,
            self.sizes.hidden,
        );
        let hidden: usize = p.each(MapOp::Mul(Scalar::Sqrt(self.cfg.hidden_size)), embeds);
        let side_step: Option<usize> = match &self.side {
            Some(s) => Some(side_table(&mut p, &c, s, embeds)),
            None => None,
        };
        let x: usize = match self.streams {
            Some(s) => {
                let all: usize = expand(&mut p, &c, &s, Rescale::No, hidden);
                p.each(MapOp::Contiguous, all)
            },
            None => hidden,
        };
        let pass: Pass = Pass {
            c,
            layers: &self.layers,
            caches: &caches,
            fits: &self.fits,
            streams: self.streams,
            offset,
            max: self.cfg.max_position_embeddings,
            side: self.side,
            side_step,
        };
        let ghost v = self.pass_of(batch, len, offset, append_steps(kv_lens@));
        proof {
            assert(pass.within(&p) == v);
            assert(expr(p@, x as nat) == self.entry_of(c));
        }
        let y: usize = match pass.run(&mut p, x) {
            Ok(y) => y,
            Err(s) => {
                return Err(s.error);
            },
        };
        if let Some(e) = self.exit {
            return Err(e);
        }
        let out: usize = match self.streams {
            Some(s) => sum_streams(&mut p, &c, &s, y),
            None => y,
        };
        let normed: usize = output_norm(&mut p, &c, out);
        let output: usize = logits(
            &mut p,
            &c,
            TopTensor::Output,
            len,
            self.sizes.vocab,
            cap(&self.cfg),
            normed,
        );
        Ok(Plan { program: p, output })
    }

    /// The layers whose caches are emptied for a new sequence: all of them.
    pub fn clear_kv_cache(&self) -> (r: Vec<usize>)
        ensures
            r@ == Seq::new(self.layers@.len(), |i: int| i as usize),
    {
        all_layers(self.layers.len())
    }
}

} // verus!
