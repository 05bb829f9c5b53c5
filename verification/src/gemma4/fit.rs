//! Whether the weights of a quantized model fit each other, in the shapes that
//! its file has them in. The widths of the feed-forward block, of the low-rank
//! residual, of the hidden states and of the logits are those of the file; all
//! others are the configuration's.

use crate::error::Error;
use crate::gemma4::attention::Heads;
use crate::gemma4::checkpoint_names::{layer_shape, layer_shape_of, one, side_width_of, two, Widths};
use crate::gemma4::config::Gemma4TextConfig;
use crate::gemma4::ends::SideEmbedding;
use crate::gemma4::gguf_names::{
    layer_request, layer_request_of, stream_request, stream_request_of, top_request, top_request_of,
};
use crate::gemma4::block::go_together;
use crate::gemma4::layer::{Spread, Streams};
use crate::gemma4::quantized::{part_of, DecoderLayer, Part};
use crate::gemma4::weights::{
    chosen, refusal, requests, resolve, resolve_all, Directory, Request, RequestView,
    TensorInfoView,
};
use crate::tensor::op::{LayerTensor, StreamTensor, TopTensor};
use vstd::prelude::*;

verus! {

/// The extent of a weight along an axis, as the file has it; zero where the
/// file has no such weight or the weight no such axis.
pub open spec fn stored_dim_of(dir: Seq<TensorInfoView>, r: RequestView, axis: int) -> usize {
    match chosen(dir, r) {
        Some(i) if axis < dir[i].dims.len() => dir[i].dims[axis],
        _ => 0,
    }
}

pub(crate) fn stored_dim(dir: &Directory, r: &Request, axis: usize) -> (n: usize)
    requires
        r.dims is None,
    ensures
        n == stored_dim_of(dir@, r@, axis as int),
{
    match resolve(dir, r) {
        Ok(i) => {
            proof {
                assert(dir@[i as int] == dir.tensors@[i as int]@);
            }
            let dims: &Vec<usize> = &dir.tensors[i].dims;
            if axis < dims.len() {
                dims[axis]
            } else {
                0
            }
        },
        Err(_) => 0,
    }
}

/// Extents of the weights at both ends of a model.
#[derive(Clone, Copy, Debug, PartialEq, Eq, Structural)]
pub struct Sizes {
    /// Rows of the token embeddings' table.
    pub rows: usize,
    /// Its columns, which are those of the hidden states.
    pub hidden: usize,
    /// Rows of the output projection.
    pub vocab: usize,
}

/// The extents of the model that a file holds.
pub open spec fn sizes_of(dir: Seq<TensorInfoView>) -> Sizes {
    Sizes {
        rows: stored_dim_of(dir, top_request_of(TopTensor::TokenEmbedding), 0),
        hidden: stored_dim_of(dir, top_request_of(TopTensor::TokenEmbedding), 1),
        vocab: stored_dim_of(dir, top_request_of(TopTensor::Output), 0),
    }
}

/// The extents of the model that a file holds.
pub fn sizes(dir: &Directory) -> (r: Sizes)
    ensures
        r == sizes_of(dir@),
{
    let table: Request = top_request(TopTensor::TokenEmbedding);
    let output: Request = top_request(TopTensor::Output);
    Sizes {
        rows: stored_dim(dir, &table, 0),
        hidden: stored_dim(dir, &table, 1),
        vocab: stored_dim(dir, &output, 0),
    }
}

/// The number of pairs; zero where they cannot be counted.
pub open spec fn pairs_of(n: usize) -> usize {
    if n * n <= usize::MAX {
        (n * n) as usize
    } else {
        0
    }
}

/// How many gate values layer `i`'s auxiliary embedding has: as in the file, where
/// that goes together with the embedding's width.
pub open spec fn gate_width_of(
    cfg: &Gemma4TextConfig,
    dir: Seq<TensorInfoView>,
    i: usize,
) -> usize {
    let stored = stored_dim_of(dir, layer_request_of(i, LayerTensor::PerLayerInputGate), 0);
    let side = side_width_of(cfg);
    if go_together(stored, side) {
        stored
    } else {
        side
    }
}

/// How many gate values layer `i`'s auxiliary embedding has.
pub(crate) fn gate_width(cfg: &Gemma4TextConfig, dir: &Directory, i: usize) -> (r: usize)
    ensures
        r == gate_width_of(cfg, dir@, i),
        go_together(r, side_width_of(cfg)),
{
    let side: usize = match cfg.hidden_size_per_layer_input {
        Some(w) => w,
        None => 0,
    };
    let stored: usize = stored_dim(dir, &layer_request(i, LayerTensor::PerLayerInputGate), 0);
    if stored == side || stored == 1 || side == 1 {
        stored
    } else {
        side
    }
}

/// The shape of a weight, as the file has it.
pub open spec fn stored_spread_of(dir: Seq<TensorInfoView>, r: RequestView) -> Spread {
    let rank = match chosen(dir, r) {
        Some(i) => dir[i].dims.len() as usize,
        None => 0,
    };
    Spread {
        rank,
        d0: stored_dim_of(dir, r, 0),
        d1: stored_dim_of(dir, r, 1),
        d2: stored_dim_of(dir, r, 2),
    }
}

/// The shape of a weight, as the file has it.
pub(crate) fn stored_spread(dir: &Directory, r: &Request) -> (s: Spread)
    requires
        r.dims is None,
    ensures
        s == stored_spread_of(dir@, r@),
{
    let rank: usize = match resolve(dir, r) {
        Ok(i) => {
            proof {
                assert(dir@[i as int] == dir.tensors@[i as int]@);
            }
            dir.tensors[i].dims.len()
        },
        Err(_) => 0,
    };
    Spread {
        rank,
        d0: stored_dim(dir, r, 0),
        d1: stored_dim(dir, r, 1),
        d2: stored_dim(dir, r, 2),
    }
}

/// The widths of layer `i`'s weights.
pub open spec fn stored_widths_of(
    cfg: &Gemma4TextConfig,
    dir: Seq<TensorInfoView>,
    i: usize,
) -> Widths {
    let a = Heads::spec_of(cfg, i as int);
    Widths {
        h: sizes_of(dir).hidden,
        q: (a.heads * a.head_dim) as usize,
        kv: (a.kv_heads * a.head_dim) as usize,
        d: a.head_dim,
        inner: stored_dim_of(dir, layer_request_of(i, LayerTensor::FfnGate), 0),
        rank: stored_dim_of(dir, layer_request_of(i, LayerTensor::LaurelLeft), 0),
        side: side_width_of(cfg),
        gate: gate_width_of(cfg, dir, i),
        n: cfg.altup_num_inputs,
        n2: pairs_of(cfg.altup_num_inputs),
    }
}

/// The widths of layer `i`'s weights, the layer having the given heads.
pub fn stored_widths(cfg: &Gemma4TextConfig, dir: &Directory, a: &Heads, i: usize) -> (r: Widths)
    requires
        *a == Heads::spec_of(cfg, i as int),
        a.addressable(),
    ensures
        r == stored_widths_of(cfg, dir@, i),
{
    let side: usize = match cfg.hidden_size_per_layer_input {
        Some(w) => w,
        None => 0,
    };
    let n: usize = cfg.altup_num_inputs;
    let n2: usize = match n.checked_mul(n) {
        Some(p) => p,
        None => 0,
    };
    Widths {
        h: sizes(dir).hidden,
        q: a.heads * a.head_dim,
        kv: a.kv_heads * a.head_dim,
        d: a.head_dim,
        inner: stored_dim(dir, &layer_request(i, LayerTensor::FfnGate), 0),
        rank: stored_dim(dir, &layer_request(i, LayerTensor::LaurelLeft), 0),
        side,
        gate: gate_width(cfg, dir, i),
        n,
        n2,
    }
}

/// The request with the given shape.
pub open spec fn shaped_of(r: RequestView, dims: Seq<usize>) -> RequestView {
    RequestView { dims: Some(dims), ..r }
}

fn shaped(r: Request, dims: Vec<usize>) -> (s: Request)
    ensures
        s@ == shaped_of(r@, dims@),
{
    Request { leaf: r.leaf, name: r.name, fallback: r.fallback, dims: Some(dims) }
}

/// The requests for weights of layer `i`, with the shapes that the widths give
/// them.
pub open spec fn shaped_layer_of(w: Widths, i: usize, ts: Seq<LayerTensor>) -> Seq<RequestView> {
    ts.map_values(|t: LayerTensor| shaped_of(layer_request_of(i, t), layer_shape_of(w, t)))
}

/// Why weights of layer `i` do not fit, if they do not; the first counts.
pub fn layer_misfit(dir: &Directory, w: &Widths, i: usize, ts: &Vec<LayerTensor>) -> (r: Option<
    Error,
>)
    ensures
        r == refusal(dir@, shaped_layer_of(*w, i, ts@)),
{
    let mut rs: Vec<Request> = Vec::new();
    let n: usize = ts.len();
    let mut j: usize = 0;
    proof {
        assert(requests(rs@) =~= shaped_layer_of(*w, i, ts@.take(0)));
    }
    while j < n
        invariant
            n == ts@.len(),
            0 <= j <= n,
            requests(rs@) == shaped_layer_of(*w, i, ts@.take(j as int)),
        decreases n - j,
    {
        let t: LayerTensor = ts[j];
        let r: Request = shaped(layer_request(i, t), layer_shape(w, t));
        let ghost so_far = requests(rs@);
        rs.push(r);
        proof {
            assert(requests(rs@) =~= so_far.push(r@));
            assert(requests(rs@) =~= shaped_layer_of(*w, i, ts@.take(j + 1)));
        }
        j = j + 1;
    }
    proof {
        assert(ts@.take(n as int) =~= ts@);
    }
    misfit(dir, &rs)
}

fn misfit(dir: &Directory, rs: &Vec<Request>) -> (r: Option<Error>)
    ensures
        r == refusal(dir@, requests(rs@)),
{
    match resolve_all(dir, rs) {
        Ok(_) => None,
        Err(e) => Some(e),
    }
}

/// The elements, if the condition holds.
pub open spec fn only_if(condition: bool, ts: Seq<LayerTensor>) -> Seq<LayerTensor> {
    if condition {
        ts
    } else {
        Seq::empty()
    }
}

/// The weights that a layer uses before its cache has seen anything, in order.
pub open spec fn used_before_cache(l: DecoderLayer) -> Seq<LayerTensor> {
    only_if(
        l.altup,
        seq![
            LayerTensor::AltupRouterNorm,
            LayerTensor::AltupModalityRouter,
            LayerTensor::AltupPredictionCoefs,
        ],
    ) + seq![LayerTensor::InputNorm] + only_if(
        l.altup && l.body.laurel is Some,
        part_of(Part::Laurel),
    ) + seq![LayerTensor::AttnQ, LayerTensor::AttnQNorm] + only_if(
        l.donor is None,
        seq![LayerTensor::AttnK] + only_if(l.attention.has_value, seq![LayerTensor::AttnV]) + seq![
            LayerTensor::AttnKNorm,
        ],
    )
}

/// The weights that a layer uses after its cache has seen its keys and values,
/// and before the auxiliary embedding, in order.
pub open spec fn used_after_cache(l: DecoderLayer) -> Seq<LayerTensor> {
    seq![LayerTensor::AttnOutput, LayerTensor::PostAttentionNorm] + only_if(
        !l.altup && l.body.laurel is Some,
        part_of(Part::Laurel),
    ) + seq![
        LayerTensor::PreFeedforwardNorm,
        LayerTensor::FfnGate,
        LayerTensor::FfnUp,
        LayerTensor::FfnDown,
        LayerTensor::PostFeedforwardNorm,
    ] + only_if(l.altup, seq![LayerTensor::AltupCorrectionCoefs])
}

/// The weights that a layer uses on the auxiliary embedding, where `side` says
/// that there is one. Those that are spread over a state are not among them.
pub open spec fn used_on_side(l: DecoderLayer, side: bool) -> Seq<LayerTensor> {
    only_if(side && l.body.side is Some, part_of(Part::Side))
}

fn push_laurel(r: &mut Vec<LayerTensor>)
    ensures
        final(r)@ == old(r)@ + part_of(Part::Laurel),
{
    r.push(LayerTensor::LaurelLeft);
    r.push(LayerTensor::LaurelRight);
    r.push(LayerTensor::PostLaurelNorm);
    proof {
        assert(r@ =~= old(r)@ + part_of(Part::Laurel));
    }
}

fn before_cache(l: &DecoderLayer) -> (r: Vec<LayerTensor>)
    ensures
        r@ == used_before_cache(*l),
{
    let mut r: Vec<LayerTensor> = Vec::new();
    if l.altup {
        r.push(LayerTensor::AltupRouterNorm);
        r.push(LayerTensor::AltupModalityRouter);
        r.push(LayerTensor::AltupPredictionCoefs);
    }
    r.push(LayerTensor::InputNorm);
    if l.altup && l.body.laurel.is_some() {
        push_laurel(&mut r);
    }
    r.push(LayerTensor::AttnQ);
    r.push(LayerTensor::AttnQNorm);
    if l.donor.is_none() {
        r.push(LayerTensor::AttnK);
        if l.attention.has_value {
            r.push(LayerTensor::AttnV);
        }
        r.push(LayerTensor::AttnKNorm);
    }
    proof {
        assert(r@ =~= used_before_cache(*l));
    }
    r
}

fn after_cache(l: &DecoderLayer) -> (r: Vec<LayerTensor>)
    ensures
        r@ == used_after_cache(*l),
{
    let mut r: Vec<LayerTensor> = Vec::new();
    r.push(LayerTensor::AttnOutput);
    r.push(LayerTensor::PostAttentionNorm);
    if !l.altup && l.body.laurel.is_some() {
        push_laurel(&mut r);
    }
    r.push(LayerTensor::PreFeedforwardNorm);
    r.push(LayerTensor::FfnGate);
    r.push(LayerTensor::FfnUp);
    r.push(LayerTensor::FfnDown);
    r.push(LayerTensor::PostFeedforwardNorm);
    if l.altup {
        r.push(LayerTensor::AltupCorrectionCoefs);
    }
    proof {
        assert(r@ =~= used_after_cache(*l));
    }
    r
}

fn on_side(l: &DecoderLayer, side: bool) -> (r: Vec<LayerTensor>)
    ensures
        r@ == used_on_side(*l, side),
{
    let mut r: Vec<LayerTensor> = Vec::new();
    if side && l.body.side.is_some() {
        r.push(LayerTensor::PerLayerInputGate);
        r.push(LayerTensor::PerLayerProjection);
        r.push(LayerTensor::PostPerLayerInputNorm);
    }
    proof {
        assert(r@ =~= used_on_side(*l, side));
    }
    r
}

/// Why a layer's weights do not fit, if they do not.
#[derive(Clone, Copy, Debug, PartialEq, Eq, Structural)]
pub struct Fit {
    /// Among those that it uses before its cache has seen anything.
    pub early: Option<Error>,
    /// Among those that it uses after that.
    pub late: Option<Error>,
    /// Among those that it uses on the auxiliary embedding.
    pub side: Option<Error>,
}

/// Why the weights of a layer do not fit, if they do not.
pub open spec fn fit_of(
    cfg: &Gemma4TextConfig,
    dir: Seq<TensorInfoView>,
    l: DecoderLayer,
    side: bool,
    i: usize,
) -> Fit {
    let w = stored_widths_of(cfg, dir, i);
    Fit {
        early: refusal(dir, shaped_layer_of(w, i, used_before_cache(l))),
        late: refusal(dir, shaped_layer_of(w, i, used_after_cache(l))),
        side: refusal(dir, shaped_layer_of(w, i, used_on_side(l, side))),
    }
}

/// Why the weights of the layers do not fit, if they do not.
pub fn fits(cfg: &Gemma4TextConfig, dir: &Directory, layers: &Vec<DecoderLayer>, side: bool) -> (r:
    Vec<Fit>)
    requires
        forall|i: int|
            0 <= i < layers@.len() ==> {
                &&& (#[trigger] layers@[i]).attention.heads == Heads::spec_of(cfg, i)
                &&& layers@[i].attention.heads.addressable()
            },
    ensures
        r@ == Seq::new(
            layers@.len(),
            |i: int| fit_of(cfg, dir@, layers@[i], side, i as usize),
        ),
{
    let mut out: Vec<Fit> = Vec::new();
    let n: usize = layers.len();
    let mut i: usize = 0;
    while i < n
        invariant
            n == layers@.len(),
            0 <= i <= n,
            forall|i: int|
                0 <= i < layers@.len() ==> {
                    &&& (#[trigger] layers@[i]).attention.heads == Heads::spec_of(cfg, i)
                    &&& layers@[i].attention.heads.addressable()
                },
            out@ == Seq::new(i as nat, |j: int| fit_of(cfg, dir@, layers@[j], side, j as usize)),
        decreases n - i,
    {
        let l: DecoderLayer = layers[i];
        let w: Widths = stored_widths(cfg, dir, &l.attention.heads, i);
        out.push(
            Fit {
                early: layer_misfit(dir, &w, i, &before_cache(&l)),
                late: layer_misfit(dir, &w, i, &after_cache(&l)),
                side: layer_misfit(dir, &w, i, &on_side(&l, side)),
            },
        );
        proof {
            assert(out@ =~= Seq::new(
                (i + 1) as nat,
                |j: int| fit_of(cfg, dir@, layers@[j], side, j as usize),
            ));
        }
        i = i + 1;
    }
    proof {
        assert(out@ =~= Seq::new(
            layers@.len(),
            |i: int| fit_of(cfg, dir@, layers@[i], side, i as usize),
        ));
    }
    out
}

/// The requests for one kind of the streams' projections, `n` of them, which
/// keep the hidden size `h`.
pub open spec fn shaped_streams_of(t: StreamTensor, h: usize, n: nat) -> Seq<RequestView> {
    Seq::new(n, |k: int| shaped_of(stream_request_of(k as usize, t), seq![h, h]))
}

/// The projections that parallel streams have of one kind.
pub open spec fn projections_of(streams: Option<Streams>) -> nat {
    match streams {
        Some(s) if s.n > 0 => (s.n - 1) as nat,
        _ => 0,
    }
}

/// The requests for the weights that are used before the first layer, in
/// order, with the shapes that they must have.
pub open spec fn entry_shapes_of(
    h: usize,
    side: Option<SideEmbedding>,
    streams: Option<Streams>,
) -> Seq<RequestView> {
    (match side {
        Some(s) => {
            let total = (s.layers * s.width) as usize;
            seq![
                shaped_of(top_request_of(TopTensor::PerLayerModelProjection), seq![total, h]),
                shaped_of(top_request_of(TopTensor::PerLayerProjectionNorm), seq![s.width]),
            ] + match s.rows {
                Some(rows) => seq![
                    shaped_of(top_request_of(TopTensor::PerLayerTokenEmbedding), seq![rows, total]),
                ],
                None => Seq::empty(),
            }
        },
        None => Seq::empty(),
    }) + shaped_streams_of(StreamTensor::Projection, h, projections_of(streams))
}

/// The requests for the weights that are used after the last layer, in order,
/// with the shapes that they must have.
pub open spec fn exit_shapes_of(z: Sizes, streams: Option<Streams>) -> Seq<RequestView> {
    shaped_streams_of(StreamTensor::UnembedProjection, z.hidden, projections_of(streams)) + seq![
        shaped_of(top_request_of(TopTensor::OutputNorm), seq![z.hidden]),
        shaped_of(top_request_of(TopTensor::Output), seq![z.vocab, z.hidden]),
    ]
}

fn push_streams(out: &mut Vec<Request>, t: StreamTensor, h: usize, streams: &Option<Streams>)
    ensures
        requests(final(out)@) == requests(old(out)@) + shaped_streams_of(
            t,
            h,
            projections_of(*streams),
        ),
{
    let n: usize = match streams {
        Some(s) => if s.n > 0 {
            s.n - 1
        } else {
            0
        },
        None => 0,
    };
    let ghost before = requests(out@);
    let mut k: usize = 0;
    proof {
        assert(requests(out@) =~= before + shaped_streams_of(t, h, 0));
    }
    while k < n
        invariant
            0 <= k <= n,
            requests(out@) == before + shaped_streams_of(t, h, k as nat),
        decreases n - k,
    {
        let r: Request = shaped(stream_request(k, t), two(h, h));
        let ghost so_far = requests(out@);
        out.push(r);
        proof {
            assert(requests(out@) =~= so_far.push(r@));
            assert(requests(out@) =~= before + shaped_streams_of(t, h, (k + 1) as nat));
        }
        k = k + 1;
    }
}

/// Why the weights that are used before the first layer do not fit, if they do
/// not.
pub fn entry_misfit(
    dir: &Directory,
    h: usize,
    side: &Option<SideEmbedding>,
    streams: &Option<Streams>,
) -> (r: Option<Error>)
    requires
        side matches Some(s) ==> s.wf(),
    ensures
        r == refusal(dir@, entry_shapes_of(h, *side, *streams)),
{
    let mut rs: Vec<Request> = Vec::new();
    if let Some(s) = side {
        let total: usize = s.layers * s.width;
        rs.push(shaped(top_request(TopTensor::PerLayerModelProjection), two(total, h)));
        rs.push(shaped(top_request(TopTensor::PerLayerProjectionNorm), one(s.width)));
        if let Some(rows) = s.rows {
            rs.push(shaped(top_request(TopTensor::PerLayerTokenEmbedding), two(rows, total)));
        }
    }
    push_streams(&mut rs, StreamTensor::Projection, h, streams);
    proof {
        assert(requests(rs@) =~= entry_shapes_of(h, *side, *streams));
    }
    misfit(dir, &rs)
}

/// Why the weights that are used after the last layer do not fit, if they do
/// not.
pub fn exit_misfit(dir: &Directory, z: &Sizes, streams: &Option<Streams>) -> (r: Option<Error>)
    ensures
        r == refusal(dir@, exit_shapes_of(*z, *streams)),
{
    let mut rs: Vec<Request> = Vec::new();
    push_streams(&mut rs, StreamTensor::UnembedProjection, z.hidden, streams);
    rs.push(shaped(top_request(TopTensor::OutputNorm), one(z.hidden)));
    rs.push(shaped(top_request(TopTensor::Output), two(z.vocab, z.hidden)));
    proof {
        assert(requests(rs@) =~= exit_shapes_of(*z, *streams));
    }
    misfit(dir, &rs)
}

} // verus!
