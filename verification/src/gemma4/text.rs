//! The unquantized text model: its weights, as a checkpoint has them, and its
//! forward pass.

use crate::dtype::DType;
use crate::error::Error;
use crate::gemma4::attention::{text_attention, text_attention_of, Heads, TextAttention};
use crate::gemma4::block::{hidden_type, predict_of, Norm, Style};
use crate::gemma4::checkpoint_names::{
    layer_requests, layer_requests_of, side_width_of, stream_requests, stream_requests_of, top_name,
    top_name_of, top_request, top_request_of, widths, widths_of, Widths,
};
use crate::gemma4::config::{F64Bits, Gemma4TextConfig};
use crate::gemma4::ends::{
    last_then_norm, last_then_norm_of, last_type, logits, logits_of, logits_type, look_up,
    looked_up_of, side_table, side_table_of, side_table_type, SideEmbedding,
};
use crate::gemma4::kv_cache::all_layers;
use crate::gemma4::layer::{
    active_of, altup, altup_begin, altup_of, check_streams, classic, classic_of, formula_of,
    layer_norm, layer_norm_of, streams_refusal, LayerBody, Spread, Streams,
};
use crate::gemma4::pass::state_type;
use crate::gemma4::quantized::{
    extend, part_of, part_tensors, threshold, threshold_of, LayerCache, Part, Plan,
};
use crate::gemma4::streams::{average, averaged_of, expand, expanded_of, Rescale};
use crate::gemma4::weights::{
    bindings, can_resolve, find, given, refusal, requests, resolve_all, Binding, Directory, Request,
    RequestView, TensorInfoView,
};
use crate::tensor::op::{leaf, scaled, un, Expr, LayerTensor, Leaf, MapOp, Scalar, TOp, TopTensor};
use crate::tensor::program::{expr, extends, is, ty, Program, TypeView};
use vstd::prelude::*;

verus! {

/// A layer of the unquantized model.
#[derive(Clone, Copy, Debug, PartialEq, Eq, Structural)]
pub struct TextLayer {
    pub attention: TextAttention,
    pub body: LayerBody,
}

/// The weights that every layer must have.
pub open spec fn required_of(bias: bool) -> Seq<LayerTensor> {
    (if bias {
        seq![
            LayerTensor::AttnQ,
            LayerTensor::AttnQBias,
            LayerTensor::AttnK,
            LayerTensor::AttnKBias,
            LayerTensor::AttnV,
            LayerTensor::AttnVBias,
            LayerTensor::AttnOutput,
            LayerTensor::AttnOutputBias,
        ]
    } else {
        seq![
            LayerTensor::AttnQ,
            LayerTensor::AttnK,
            LayerTensor::AttnV,
            LayerTensor::AttnOutput,
        ]
    }) + seq![
        LayerTensor::AttnQNorm,
        LayerTensor::AttnKNorm,
        LayerTensor::FfnGate,
        LayerTensor::FfnUp,
        LayerTensor::FfnDown,
        LayerTensor::InputNorm,
        LayerTensor::PostAttentionNorm,
        LayerTensor::PreFeedforwardNorm,
        LayerTensor::PostFeedforwardNorm,
    ]
}

fn required(bias: bool) -> (r: Vec<LayerTensor>)
    ensures
        r@ == required_of(bias),
{
    let mut r: Vec<LayerTensor> = Vec::new();
    r.push(LayerTensor::AttnQ);
    if bias {
        r.push(LayerTensor::AttnQBias);
    }
    r.push(LayerTensor::AttnK);
    if bias {
        r.push(LayerTensor::AttnKBias);
    }
    r.push(LayerTensor::AttnV);
    if bias {
        r.push(LayerTensor::AttnVBias);
    }
    r.push(LayerTensor::AttnOutput);
    if bias {
        r.push(LayerTensor::AttnOutputBias);
    }
    r.push(LayerTensor::AttnQNorm);
    r.push(LayerTensor::AttnKNorm);
    r.push(LayerTensor::FfnGate);
    r.push(LayerTensor::FfnUp);
    r.push(LayerTensor::FfnDown);
    r.push(LayerTensor::InputNorm);
    r.push(LayerTensor::PostAttentionNorm);
    r.push(LayerTensor::PreFeedforwardNorm);
    r.push(LayerTensor::PostFeedforwardNorm);
    proof {
        assert(r@ =~= required_of(bias));
    }
    r
}

/// Whether layer `i` has a low-rank residual: the configuration allows for it,
/// and the checkpoint has all its tensors.
pub open spec fn has_laurel(cfg: &Gemma4TextConfig, dir: Seq<TensorInfoView>, i: usize) -> bool {
    cfg.laurel_rank > 0 && refusal(
        dir,
        layer_requests_of(widths_of(cfg, i as int), i, part_of(Part::Laurel)),
    ) is None
}

/// The requests for the weights of layer `i`.
pub open spec fn decoder_requests_of(
    cfg: &Gemma4TextConfig,
    dir: Seq<TensorInfoView>,
    i: usize,
) -> Seq<RequestView> {
    let s = widths_of(cfg, i as int);
    layer_requests_of(s, i, required_of(cfg.attention_bias)) + given(
        cfg.altup_num_inputs > 1,
        layer_requests_of(s, i, part_of(Part::Altup)),
    ) + given(has_laurel(cfg, dir, i), layer_requests_of(s, i, part_of(Part::Laurel))) + given(
        cfg.hidden_size_per_layer_input is Some,
        layer_requests_of(s, i, part_of(Part::Side)),
    )
}

/// Layer `i` of the model that a checkpoint holds.
pub open spec fn decoder_of(
    cfg: &Gemma4TextConfig,
    dir: Seq<TensorInfoView>,
    z: F64Bits,
    i: usize,
) -> TextLayer {
    TextLayer {
        attention: TextAttention {
            heads: Heads::spec_of(cfg, i as int),
            bias: cfg.attention_bias,
            query_pre_attn_scalar: cfg.query_pre_attn_scalar,
            use_flash_attn: cfg.use_flash_attn,
        },
        body: LayerBody {
            layer: i,
            inner: cfg.spec_intermediate_size_at(i as int),
            z: threshold_of(cfg.spec_activation_sparsity_at(i as int), z),
            laurel: if has_laurel(cfg, dir, i) {
                Some(cfg.laurel_rank)
            } else {
                None
            },
            side: cfg.hidden_size_per_layer_input,
            gate: side_width_of(cfg),
            scale: Spread::spec_vector(cfg.hidden_size),
            gain: None,
        },
    }
}

/// Appends the requests for a layer's weights, and says what the layer is.
fn load_layer(
    out: &mut Vec<Request>,
    cfg: &Gemma4TextConfig,
    dir: &Directory,
    z: F64Bits,
    i: usize,
) -> (r: TextLayer)
    requires
        Heads::spec_of(cfg, i as int).addressable(),
        cfg.altup_num_inputs * cfg.altup_num_inputs <= usize::MAX,
    ensures
        r == decoder_of(cfg, dir@, z, i),
        requests(final(out)@) == requests(old(out)@) + decoder_requests_of(cfg, dir@, i),
{
    let ghost before = requests(out@);
    let heads: Heads = Heads::of(cfg, i);
    let s: Widths = widths(cfg, &heads, i);
    extend(out, layer_requests(&s, i, &required(cfg.attention_bias)));
    if cfg.altup_num_inputs > 1 {
        extend(out, layer_requests(&s, i, &part_tensors(Part::Altup)));
    }
    let mut laurel: Option<usize> = None;
    if cfg.laurel_rank > 0 {
        let rs: Vec<Request> = layer_requests(&s, i, &part_tensors(Part::Laurel));
        if can_resolve(dir, &rs) {
            extend(out, rs);
            laurel = Some(cfg.laurel_rank);
        }
    }
    if cfg.hidden_size_per_layer_input.is_some() {
        extend(out, layer_requests(&s, i, &part_tensors(Part::Side)));
    }
    proof {
        assert(requests(out@) =~= before + decoder_requests_of(cfg, dir@, i));
    }
    TextLayer {
        attention: TextAttention {
            heads,
            bias: cfg.attention_bias,
            query_pre_attn_scalar: cfg.query_pre_attn_scalar,
            use_flash_attn: cfg.use_flash_attn,
        },
        body: LayerBody {
            layer: i,
            inner: cfg.intermediate_size_at(i),
            z: threshold(cfg.activation_sparsity_at(i), z),
            laurel,
            side: cfg.hidden_size_per_layer_input,
            gate: s.gate,
            scale: Spread::vector(cfg.hidden_size),
            gain: None,
        },
    }
}

/// The requests for the weights of the first `n` layers.
pub open spec fn layers_requests_of(
    cfg: &Gemma4TextConfig,
    dir: Seq<TensorInfoView>,
    n: nat,
) -> Seq<RequestView>
    decreases n,
{
    if n == 0 {
        Seq::empty()
    } else {
        layers_requests_of(cfg, dir, (n - 1) as nat) + decoder_requests_of(
            cfg,
            dir,
            (n - 1) as usize,
        )
    }
}

/// Rows of the auxiliary embeddings' table.
pub open spec fn side_vocab_of(cfg: &Gemma4TextConfig) -> usize {
    match cfg.vocab_size_per_layer_input {
        Some(n) => n,
        None => cfg.vocab_size,
    }
}

/// The auxiliary embeddings of the model that a checkpoint holds.
pub open spec fn side_of(cfg: &Gemma4TextConfig, dir: Seq<TensorInfoView>) -> Option<
    SideEmbedding,
> {
    match cfg.hidden_size_per_layer_input {
        Some(width) => Some(
            SideEmbedding {
                layers: cfg.num_hidden_layers,
                width,
                rows: if find(dir, top_name_of(TopTensor::PerLayerTokenEmbedding)) is Some {
                    Some(side_vocab_of(cfg))
                } else {
                    None
                },
                scale_rows: false,
            },
        ),
        None => None,
    }
}

/// The requests for what the auxiliary embeddings are computed with, where
/// there are any.
pub open spec fn side_requests_of(side: Option<SideEmbedding>, hidden: usize) -> Seq<RequestView> {
    match side {
        Some(s) => {
            let total = (s.layers * s.width) as usize;
            (match s.rows {
                Some(_) => seq![
                    top_request_of(TopTensor::PerLayerTokenEmbedding, s.rows, total),
                ],
                None => Seq::empty(),
            }) + seq![
                top_request_of(TopTensor::PerLayerModelProjection, Some(total), hidden),
                top_request_of(TopTensor::PerLayerProjectionNorm, None, s.width),
            ]
        },
        None => Seq::empty(),
    }
}

/// The requests for all weights of the model that a checkpoint holds.
pub open spec fn model_requests_of(cfg: &Gemma4TextConfig, dir: Seq<TensorInfoView>) -> Seq<
    RequestView,
> {
    let h = cfg.hidden_size;
    seq![top_request_of(TopTensor::TokenEmbedding, Some(cfg.vocab_size), h)] + layers_requests_of(
        cfg,
        dir,
        cfg.num_hidden_layers as nat,
    ) + seq![top_request_of(TopTensor::OutputNorm, None, h)] + given(
        !cfg.tie_word_embeddings,
        seq![top_request_of(TopTensor::Output, Some(cfg.vocab_size), h)],
    ) + side_requests_of(side_of(cfg, dir), h) + given(
        cfg.altup_num_inputs > 1,
        stream_requests_of(h, (cfg.altup_num_inputs - 1) as nat),
    )
}

/// Every layer that reading the checkpoint comes to has keys for its queries
/// to share.
pub open spec fn keyed(cfg: &Gemma4TextConfig, dir: Seq<TensorInfoView>) -> bool {
    let token = top_request_of(TopTensor::TokenEmbedding, Some(cfg.vocab_size), cfg.hidden_size);
    forall|i: int|
        0 <= i < cfg.num_hidden_layers && refusal(
            dir,
            seq![token] + layers_requests_of(cfg, dir, i as nat),
        ) is None ==> (#[trigger] Heads::spec_of(cfg, i)).kv_heads > 0
}

/// The parallel streams of a model.
pub open spec fn streams_of(cfg: &Gemma4TextConfig) -> Option<Streams> {
    if cfg.altup_num_inputs > 1 {
        Some(
            Streams {
                n: cfg.altup_num_inputs,
                active: cfg.altup_active_idx,
                correct_scale: cfg.altup_correct_scale,
            },
        )
    } else {
        None
    }
}

/// Appends a request.
fn ask(out: &mut Vec<Request>, r: Request)
    ensures
        requests(final(out)@) == requests(old(out)@).push(r@),
{
    let ghost before = out@;
    out.push(r);
    proof {
        assert(requests(out@) =~= requests(before).push(out@.last()@));
    }
}

/// Appends the requests for what the auxiliary embeddings are computed with.
fn load_side(out: &mut Vec<Request>, cfg: &Gemma4TextConfig, dir: &Directory) -> (r: Option<
    SideEmbedding,
>)
    requires
        cfg.hidden_size_per_layer_input matches Some(w) ==> cfg.num_hidden_layers * w <= usize::MAX,
    ensures
        r == side_of(cfg, dir@),
        requests(final(out)@) == requests(old(out)@) + side_requests_of(r, cfg.hidden_size),
{
    let ghost before = requests(out@);
    match cfg.hidden_size_per_layer_input {
        Some(width) => {
            let total: usize = cfg.num_hidden_layers * width;
            let vocab: usize = match cfg.vocab_size_per_layer_input {
                Some(n) => n,
                None => cfg.vocab_size,
            };
            let rows: Option<usize> = match dir.position(
                top_name(TopTensor::PerLayerTokenEmbedding),
            ) {
                Some(_) => Some(vocab),
                None => None,
            };
            if rows.is_some() {
                ask(out, top_request(TopTensor::PerLayerTokenEmbedding, rows, total));
            }
            ask(out, top_request(TopTensor::PerLayerModelProjection, Some(total), cfg.hidden_size));
            ask(out, top_request(TopTensor::PerLayerProjectionNorm, None, width));
            let s: SideEmbedding = SideEmbedding {
                layers: cfg.num_hidden_layers,
                width,
                rows,
                scale_rows: false,
            };
            proof {
                assert(requests(out@) =~= before + side_requests_of(Some(s), cfg.hidden_size));
            }
            Some(s)
        },
        None => {
            proof {
                assert(requests(out@) =~= before + side_requests_of(None, cfg.hidden_size));
            }
            None
        },
    }
}

/// The cache of layer `i`.
pub open spec fn cache_of(cfg: &Gemma4TextConfig, i: int) -> LayerCache {
    if cfg.spec_is_sliding(i) {
        LayerCache::Rotating { window: cfg.spec_effective_sliding_window() as usize }
    } else {
        LayerCache::Growing { initial: cfg.max_position_embeddings }
    }
}

fn layer_cache(cfg: &Gemma4TextConfig, i: usize) -> (r: LayerCache)
    ensures
        r == cache_of(cfg, i as int),
{
    if cfg.is_sliding(i) {
        LayerCache::Rotating { window: cfg.effective_sliding_window() }
    } else {
        LayerCache::Growing { initial: cfg.max_position_embeddings }
    }
}

/// The unquantized text model.
#[derive(Clone, Debug)]
pub struct TextModel {
    pub cfg: Gemma4TextConfig,
    pub dtype: DType,
    pub layers: Vec<TextLayer>,
    pub caches: Vec<LayerCache>,
    pub side: Option<SideEmbedding>,
    pub streams: Option<Streams>,
    /// The tensors that the weights are.
    pub bindings: Vec<Binding>,
}

impl TextModel {
    /// The layers are those that the configuration speaks of, and can be
    /// planned with.
    pub open spec fn wf(&self) -> bool {
        &&& self.layers@.len() == self.cfg.num_hidden_layers
        &&& self.streams matches Some(s) ==> s.countable()
        &&& self.side matches Some(s) ==> s.wf() && s.layers == self.layers@.len()
        &&& forall|i: int|
            0 <= i < self.layers@.len() ==> {
                let l = #[trigger] self.layers@[i];
                &&& l.attention.heads.layer == i
                &&& l.body.layer == i
                &&& l.attention.heads.addressable()
                &&& l.body.wf()
                &&& l.body.scale == Spread::spec_vector(self.cfg.hidden_size)
                &&& l.body.gain is None
                &&& l.body.side == match self.side {
                    Some(s) => Some(s.width),
                    None => None,
                }
            }
    }

    /// The model that a checkpoint with the given tensors holds, in elements
    /// of the given dtype. `z` says for each layer how many standard
    /// deviations its gate values' threshold lies above their mean, where they
    /// have one.
    pub fn new(
        dir: &Directory,
        cfg: Gemma4TextConfig,
        dtype: DType,
        z: &Vec<F64Bits>,
    ) -> (r: Result<
        TextModel,
        Error,
    >)
        requires
            cfg.sound(),
            keyed(&cfg, dir@),
            streams_of(&cfg) matches Some(s) ==> s.countable(),
            side_of(&cfg, dir@) matches Some(s) ==> s.wf(),
            z@.len() == cfg.num_hidden_layers,
        ensures
            match r {
                Ok(m) => {
                    &&& refusal(dir@, model_requests_of(&cfg, dir@)) is None
                    &&& m.wf()
                    &&& m.cfg == cfg
                    &&& m.dtype == dtype
                    &&& m.layers@ == Seq::new(
                        cfg.num_hidden_layers as nat,
                        |i: int| decoder_of(&cfg, dir@, z@[i], i as usize),
                    )
                    &&& m.caches@ == Seq::new(
                        cfg.num_hidden_layers as nat,
                        |i: int| cache_of(&cfg, i),
                    )
                    &&& m.side == side_of(&cfg, dir@)
                    &&& m.streams == streams_of(&cfg)
                    &&& m.bindings@ == bindings(dir@, model_requests_of(&cfg, dir@))
                },
                Err(e) => refusal(dir@, model_requests_of(&cfg, dir@)) == Some(e),
            },
    {
        let h: usize = cfg.hidden_size;
        let mut asked: Vec<Request> = Vec::new();
        proof {
            assert(requests(asked@) =~= Seq::<RequestView>::empty());
        }
        let token: Request = top_request(TopTensor::TokenEmbedding, Some(cfg.vocab_size), h);
        ask(&mut asked, token);
        let ghost first = seq![top_request_of(TopTensor::TokenEmbedding, Some(cfg.vocab_size), h)];
        let n: usize = cfg.num_hidden_layers;
        let mut layers: Vec<TextLayer> = Vec::new();
        let mut caches: Vec<LayerCache> = Vec::new();
        let mut i: usize = 0;
        proof {
            assert(requests(asked@) =~= first + layers_requests_of(&cfg, dir@, 0));
            let k = cfg.altup_num_inputs as int;
            assert(k <= 1 ==> k * k <= 1) by (nonlinear_arith)
                requires
                    k >= 0,
            ;
        }
        while i < n
            invariant
                n == cfg.num_hidden_layers,
                cfg.sound(),
                cfg.altup_num_inputs * cfg.altup_num_inputs <= usize::MAX,
                z@.len() == n,
                0 <= i <= n,
                layers@.len() == i,
                caches@ == Seq::new(i as nat, |j: int| cache_of(&cfg, j)),
                forall|j: int|
                    0 <= j < i ==> #[trigger] layers@[j] == decoder_of(
                        &cfg,
                        dir@,
                        z@[j],
                        j as usize,
                    ),
                requests(asked@) == first + layers_requests_of(&cfg, dir@, i as nat),
            decreases n - i,
        {
            proof {
                assert(Heads::spec_of(&cfg, i as int).addressable());
            }
            let layer: TextLayer = load_layer(&mut asked, &cfg, dir, z[i], i);
            layers.push(layer);
            caches.push(layer_cache(&cfg, i));
            proof {
                assert(caches@ =~= Seq::new((i + 1) as nat, |j: int| cache_of(&cfg, j)));
                assert(requests(asked@) =~= first + layers_requests_of(
                    &cfg,
                    dir@,
                    (i + 1) as nat,
                ));
            }
            i = i + 1;
        }
        ask(&mut asked, top_request(TopTensor::OutputNorm, None, h));
        if !cfg.tie_word_embeddings {
            ask(&mut asked, top_request(TopTensor::Output, Some(cfg.vocab_size), h));
        }
        let side: Option<SideEmbedding> = load_side(&mut asked, &cfg, dir);
        let mut streams: Option<Streams> = None;
        if cfg.altup_num_inputs > 1 {
            extend(&mut asked, stream_requests(h, cfg.altup_num_inputs - 1));
            streams = Some(
                Streams {
                    n: cfg.altup_num_inputs,
                    active: cfg.altup_active_idx,
                    correct_scale: cfg.altup_correct_scale,
                },
            );
        }
        proof {
            assert(requests(asked@) =~= model_requests_of(&cfg, dir@));
            assert(layers@ =~= Seq::new(
                cfg.num_hidden_layers as nat,
                |i: int| decoder_of(&cfg, dir@, z@[i], i as usize),
            ));
            assert forall|i: int| 0 <= i < layers@.len() implies {
                let l = #[trigger] layers@[i];
                &&& l.attention.heads.layer == i
                &&& l.body.layer == i
                &&& l.attention.heads.addressable()
                &&& l.body.wf()
                &&& l.body.scale == Spread::spec_vector(cfg.hidden_size)
                &&& l.body.gain is None
                &&& l.body.side == match side {
                    Some(s) => Some(s.width),
                    None => None,
                }
            } by {
                assert(layers@[i].attention.heads == Heads::spec_of(&cfg, i));
            }
        }
        match resolve_all(dir, &asked) {
            Ok(bound) => Ok(
                TextModel { cfg, dtype, layers, caches, side, streams, bindings: bound },
            ),
            Err(e) => Err(e),
        }
    }
}

/// A pass through the layers of the unquantized model.
pub struct TextPassView {
    pub c: Style,
    pub layers: Seq<TextLayer>,
    /// Positions that each layer's cache gives back.
    pub kv_lens: Seq<usize>,
    pub streams: Option<Streams>,
    pub offset: usize,
    pub max: usize,
    /// The auxiliary embeddings of all layers.
    pub side: Option<Expr>,
}

/// A layer's auxiliary embedding.
pub open spec fn side_at(v: TextPassView, i: int) -> Option<Expr> {
    match v.side {
        Some(t) => Some(
            un(
                TOp::Squeeze { axis: 2 },
                un(TOp::Narrow { axis: 2, start: i as usize, len: 1 }, t),
            ),
        ),
        None => None,
    }
}

/// A layer without parallel streams has neither a low-rank residual nor an
/// auxiliary embedding.
pub open spec fn plain_body(l: LayerBody) -> LayerBody {
    LayerBody { laurel: None, side: None, ..l }
}

/// A layer's result.
#[verifier::opaque]
pub open spec fn layer_of(v: TextPassView, i: int, x: Expr) -> Expr {
    let l = v.layers[i];
    match v.streams {
        Some(s) => {
            let predictions = predict_of(v.c, i as usize, s.n, s.active, x);
            let normed = layer_norm_of(
                v.c,
                i as usize,
                LayerTensor::InputNorm,
                active_of(s, predictions),
            );
            let attn = text_attention_of(v.c, l.attention, v.offset, v.c.len > 1, normed);
            altup_of(v.c, l.body, s, predictions, normed, attn, side_at(v, i))
        },
        None => {
            let normed = layer_norm_of(v.c, i as usize, LayerTensor::InputNorm, x);
            let attn = text_attention_of(v.c, l.attention, v.offset, v.c.len > 1, normed);
            classic_of(v.c, plain_body(l.body), x, normed, attn, None)
        },
    }
}

/// The state behind the first `n` layers.
pub open spec fn run_of(v: TextPassView, x: Expr, n: nat) -> Expr
    decreases n,
{
    if n == 0 {
        x
    } else {
        layer_of(v, n - 1, run_of(v, x, (n - 1) as nat))
    }
}

/// Why layer `i` stops the pass, if it does; the first of several reasons
/// counts.
pub open spec fn layer_refusal(v: TextPassView, i: int) -> Option<Error> {
    let m = v.layers[i].attention;
    let a = m.heads;
    if v.offset + v.c.len > v.max {
        Some(Error::PositionsOutOfRange { offset: v.offset, len: v.c.len, max: v.max })
    } else if a.head_dim % 2 != 0 {
        Some(Error::OddHeadDim { dim: a.head_dim })
    } else if a.kv_heads * a.groups != a.heads {
        Some(Error::HeadsMismatch { layer: i as usize })
    } else if v.c.len > 1 && !m.use_flash_attn && v.kv_lens[i] != v.offset + v.c.len {
        Some(
            Error::MaskLength {
                layer: i as usize,
                cached: v.kv_lens[i],
                masked: (v.offset + v.c.len) as usize,
            },
        )
    } else {
        None
    }
}

/// Why a pass stops within the first `n` layers, if it does.
pub open spec fn first_refusal(v: TextPassView, n: nat) -> Option<Error>
    decreases n,
{
    if n == 0 {
        None
    } else {
        match first_refusal(v, (n - 1) as nat) {
            Some(e) => Some(e),
            None => layer_refusal(v, n - 1),
        }
    }
}

/// A reason to stop within some layers is the reason of a longer pass.
pub proof fn law_refusal_is_final(v: TextPassView, n: nat, m: nat)
    requires
        n <= m,
        first_refusal(v, n) is Some,
    ensures
        first_refusal(v, m) == first_refusal(v, n),
    decreases m,
{
    if n < m {
        law_refusal_is_final(v, n, (m - 1) as nat);
    }
}

/// What the blocks of a pass have in common.
pub open spec fn style_of(cfg: &Gemma4TextConfig, dtype: DType, batch: usize, len: usize) -> Style {
    Style {
        norm: Norm::Offset,
        dtype,
        batch,
        len,
        hidden: cfg.hidden_size,
        nominal: cfg.hidden_size,
        eps: cfg.rms_norm_eps,
        act: cfg.hidden_activation,
    }
}

/// The sequences and positions of a step.
#[derive(Clone, Copy, Debug, PartialEq, Eq, Structural)]
pub struct StepShape {
    pub batch: usize,
    pub len: usize,
    /// Positions that came before.
    pub offset: usize,
}

impl TextModel {
    /// What the blocks of a step have in common.
    pub open spec fn spec_style(&self, w: StepShape) -> Style {
        style_of(&self.cfg, self.dtype, w.batch, w.len)
    }

    fn style(&self, w: &StepShape) -> (r: Style)
        ensures
            r == self.spec_style(*w),
    {
        Style {
            norm: Norm::Offset,
            dtype: self.dtype,
            batch: w.batch,
            len: w.len,
            hidden: self.cfg.hidden_size,
            nominal: self.cfg.hidden_size,
            eps: self.cfg.rms_norm_eps,
            act: self.cfg.hidden_activation,
        }
    }

    /// The way of a step through the layers.
    pub open spec fn pass_of(
        &self,
        w: StepShape,
        kv_lens: Seq<usize>,
        side: Option<Expr>,
    ) -> TextPassView {
        TextPassView {
            c: self.spec_style(w),
            layers: self.layers@,
            kv_lens,
            streams: self.streams,
            offset: w.offset,
            max: self.cfg.max_position_embeddings,
            side,
        }
    }

    fn check(
        &self,
        w: &StepShape,
        kv_lens: &Vec<usize>,
        i: usize,
        Ghost(v): Ghost<TextPassView>,
    ) -> (r:
        Option<Error>)
        requires
            i < self.layers@.len(),
            kv_lens@.len() == self.layers@.len(),
            w.offset + w.len <= usize::MAX,
            v == self.pass_of(*w, kv_lens@, v.side),
        ensures
            r == layer_refusal(v, i as int),
    {
        let m: TextAttention = self.layers[i].attention;
        let a: Heads = m.heads;
        let max: usize = self.cfg.max_position_embeddings;
        let shared: bool = match a.kv_heads.checked_mul(a.groups) {
            Some(n) => n == a.heads,
            None => false,
        };
        if w.offset + w.len > max {
            Some(Error::PositionsOutOfRange { offset: w.offset, len: w.len, max })
        } else if a.head_dim % 2 != 0 {
            Some(Error::OddHeadDim { dim: a.head_dim })
        } else if !shared {
            Some(Error::HeadsMismatch { layer: i })
        } else if w.len > 1 && !m.use_flash_attn && kv_lens[i] != w.offset + w.len {
            Some(
                Error::MaskLength {
                    layer: i,
                    cached: kv_lens[i],
                    masked: w.offset + w.len,
                },
            )
        } else {
            None
        }
    }

    /// Adds a layer.
    #[verifier::rlimit(40)]
    fn layer(
        &self,
        p: &mut Program,
        c: &Style,
        offset: usize,
        kv_len: usize,
        table: Option<usize>,
        i: usize,
        x: usize,
        Ghost(v): Ghost<TextPassView>,
    ) -> (r: usize)
        requires
            old(p).wf(),
            self.wf(),
            streams_refusal(self.streams) is None,
            i < self.layers@.len(),
            x < old(p)@.len(),
            v.c == *c && v.layers == self.layers@ && v.streams == self.streams,
            v.offset == offset && c.hidden == self.cfg.hidden_size,
            v.side == formula_of(old(p), table),
            v.kv_lens.len() == self.layers@.len() && v.kv_lens[i as int] == kv_len,
            layer_refusal(v, i as int) is None,
            ty(old(p)@, x as nat) == state_type(*c, self.streams),
            table matches Some(t) ==> {
                &&& t < old(p)@.len()
                &&& self.side matches Some(s)
                &&& ty(old(p)@, t as nat) == side_table_type(*c, s)
            },
        ensures
            final(p).wf(),
            extends(old(p)@, final(p)@),
            is(
                final(p)@,
                r,
                layer_of(v, i as int, expr(old(p)@, x as nat)),
                state_type(*c, self.streams),
            ),
    {
        proof {
            reveal(layer_of);
        }
        let m: TextAttention = self.layers[i].attention;
        let body: LayerBody = self.layers[i].body;
        let masked: bool = c.len > 1;
        proof {
            assert(self.layers@[i as int].attention.heads.addressable());
        }
        match self.streams {
            Some(s) => {
                let side: Option<usize> = match table {
                    Some(t) => {
                        let one: usize = p.narrow(t, 2, i, 1);
                        let slice: usize = p.squeeze(one, 2);
                        proof {
                            assert(ty(p@, slice as nat).dims =~= seq![
                                c.batch,
                                c.len,
                                self.side->0.width,
                            ]);
                        }
                        Some(slice)
                    },
                    None => None,
                };
                let (predictions, active, normed): (usize, usize, usize) = altup_begin(
                    p,
                    c,
                    i,
                    &s,
                    x,
                );
                let attn: usize = text_attention(p, c, &m, offset, masked, kv_len, normed);
                altup(p, c, &body, &s, predictions, active, normed, attn, side)
            },
            None => {
                let normed: usize = layer_norm(p, c, i, LayerTensor::InputNorm, x);
                let attn: usize = text_attention(p, c, &m, offset, masked, kv_len, normed);
                let plain: LayerBody = LayerBody { laurel: None, side: None, ..body };
                classic(p, c, &plain, x, normed, attn, None)
            },
        }
    }

    /// The state before the first layer.
    pub open spec fn entry_of(&self, c: Style, xs: Expr) -> Expr {
        match self.streams {
            Some(s) => expanded_of(c, s, Rescale::Yes, xs),
            None => xs,
        }
    }

    /// The state behind the last layer, as one stream.
    pub open spec fn exit_of(&self, c: Style, x: Expr) -> Expr {
        match self.streams {
            Some(s) => averaged_of(c, s, x),
            None => x,
        }
    }

    /// The normalized state of a step's last position, from its embeddings and
    /// the auxiliary ones, if there are any.
    pub open spec fn hidden_formula(
        &self,
        w: StepShape,
        kv_lens: Seq<usize>,
        xs: Expr,
        side: Option<Expr>,
    ) -> Expr {
        let v = self.pass_of(w, kv_lens, side);
        last_then_norm_of(
            v.c,
            self.exit_of(v.c, run_of(v, self.entry_of(v.c, xs), self.layers@.len())),
        )
    }

    /// The weight that the logits are projected with.
    pub open spec fn spec_head(&self) -> TopTensor {
        if self.cfg.tie_word_embeddings {
            TopTensor::TokenEmbedding
        } else {
            TopTensor::Output
        }
    }

    /// The logits of a state.
    pub open spec fn logits_formula(&self, x: Expr) -> Expr {
        logits_of(self.spec_head(), self.cfg.final_logit_softcapping, x)
    }

    /// The scaled embeddings of a step's tokens.
    pub open spec fn embeds_formula(&self) -> Expr {
        scaled(looked_up_of(TopTensor::TokenEmbedding), Scalar::Sqrt(self.cfg.hidden_size))
    }

    /// The auxiliary embeddings that a step is given, if it is given any and
    /// the model has a use for them.
    pub open spec fn given_side(&self, given: bool) -> Option<Expr> {
        if given && self.side is Some {
            Some(leaf(Leaf::PerLayerInputs))
        } else {
            None
        }
    }

    /// Why a step stops, if it does.
    pub open spec fn step_refusal(&self, w: StepShape, kv_lens: Seq<usize>) -> Option<Error> {
        match streams_refusal(self.streams) {
            Some(e) => Some(e),
            None => first_refusal(self.pass_of(w, kv_lens, None), self.layers@.len()),
        }
    }

    /// Adds the way from the embeddings to the normalized state of the last
    /// position.
    fn add_hidden(
        &self,
        p: &mut Program,
        w: &StepShape,
        kv_lens: &Vec<usize>,
        xs: usize,
        table: Option<usize>,
    ) -> (r: Result<usize, Error>)
        requires
            old(p).wf(),
            self.wf(),
            w.len > 0,
            w.offset + w.len <= usize::MAX,
            kv_lens@.len() == self.layers@.len(),
            xs < old(p)@.len(),
            ty(old(p)@, xs as nat) == hidden_type(self.spec_style(*w)),
            table matches Some(t) ==> {
                &&& t < old(p)@.len()
                &&& self.side matches Some(s)
                &&& ty(old(p)@, t as nat) == side_table_type(self.spec_style(*w), s)
            },
        ensures
            final(p).wf(),
            extends(old(p)@, final(p)@),
            match r {
                Ok(y) => {
                    &&& self.step_refusal(*w, kv_lens@) is None
                    &&& is(
                        final(p)@,
                        y,
                        self.hidden_formula(
                            *w,
                            kv_lens@,
                            expr(old(p)@, xs as nat),
                            formula_of(old(p), table),
                        ),
                        last_type(self.spec_style(*w)),
                    )
                },
                Err(e) => self.step_refusal(*w, kv_lens@) == Some(e),
            },
    {
        if let Some(e) = check_streams(&self.streams) {
            return Err(e);
        }
        let c: Style = self.style(w);
        let ghost v = self.pass_of(*w, kv_lens@, formula_of(p, table));
        let ghost start = p@;
        let mut y: usize = match self.streams {
            Some(s) => expand(p, &c, &s, Rescale::Yes, xs),
            None => xs,
        };
        let ghost e = self.entry_of(c, expr(start, xs as nat));
        let n: usize = self.layers.len();
        let mut i: usize = 0;
        while i < n
            invariant
                n == self.layers@.len(),
                0 <= i <= n,
                self.wf(),
                streams_refusal(self.streams) is None,
                w.offset + w.len <= usize::MAX,
                kv_lens@.len() == n,
                c == self.spec_style(*w),
                p.wf(),
                start == old(p)@,
                extends(start, p@),
                v == self.pass_of(*w, kv_lens@, formula_of(old(p), table)),
                table matches Some(t) ==> {
                    &&& t < start.len()
                    &&& self.side matches Some(s)
                    &&& ty(start, t as nat) == side_table_type(c, s)
                },
                first_refusal(v, i as nat) is None,
                is(p@, y, run_of(v, e, i as nat), state_type(c, self.streams)),
            decreases n - i,
        {
            if let Some(error) = self.check(w, kv_lens, i, Ghost(v)) {
                proof {
                    law_refusal_is_final(v, (i + 1) as nat, n as nat);
                    lemma_refusal_ignores_side(v, None, n as nat);
                }
                return Err(error);
            }
            y = self.layer(p, &c, w.offset, kv_lens[i], table, i, y, Ghost(v));
            i = i + 1;
        }
        proof {
            lemma_refusal_ignores_side(v, None, n as nat);
        }
        let out: usize = match self.streams {
            Some(s) => average(p, &c, &s, y),
            None => y,
        };
        Ok(last_then_norm(p, &c, out))
    }

    fn head(&self) -> (r: TopTensor)
        ensures
            r == self.spec_head(),
    {
        if self.cfg.tie_word_embeddings {
            TopTensor::TokenEmbedding
        } else {
            TopTensor::Output
        }
    }

    fn add_embeds(&self, p: &mut Program, c: &Style) -> (r: usize)
        requires
            old(p).wf(),
            c.hidden == self.cfg.hidden_size,
        ensures
            final(p).wf(),
            extends(old(p)@, final(p)@),
            is(final(p)@, r, self.embeds_formula(), hidden_type(*c)),
    {
        let rows: usize = look_up(
            p,
            c,
            TopTensor::TokenEmbedding,
            self.cfg.vocab_size,
            self.cfg.hidden_size,
        );
        p.each(MapOp::Mul(Scalar::Sqrt(self.cfg.hidden_size)), rows)
    }

    /// The scaled embeddings of `len` tokens of `batch` sequences.
    pub fn embed_tokens(&self, batch: usize, len: usize) -> (r: Plan)
        ensures
            r.program.wf(),
            is(
                r.program@,
                r.output,
                self.embeds_formula(),
                hidden_type(style_of(&self.cfg, self.dtype, batch, len)),
            ),
    {
        let mut p: Program = Program::new();
        let c: Style = self.style(&StepShape { batch, len, offset: 0 });
        let output: usize = self.add_embeds(&mut p, &c);
        Plan { program: p, output }
    }

    /// The logits of a step's last position, from its token ids. `kv_lens` are
    /// the positions that each layer's cache gives back when it is given its
    /// keys and values.
    pub fn forward(&self, w: &StepShape, kv_lens: &Vec<usize>) -> (r: Result<Plan, Error>)
        requires
            self.wf(),
            w.len > 0,
            w.offset + w.len <= usize::MAX,
            kv_lens@.len() == self.layers@.len(),
        ensures
            match r {
                Ok(plan) => {
                    &&& self.step_refusal(*w, kv_lens@) is None
                    &&& plan.program.wf()
                    &&& is(
                        plan.program@,
                        plan.output,
                        self.logits_formula(
                            self.hidden_formula(*w, kv_lens@, self.embeds_formula(), None),
                        ),
                        logits_type(self.spec_style(*w), 1, self.cfg.vocab_size),
                    )
                },
                Err(e) => self.step_refusal(*w, kv_lens@) == Some(e),
            },
    {
        let mut p: Program = Program::new();
        let c: Style = self.style(w);
        let xs: usize = self.add_embeds(&mut p, &c);
        match self.add_hidden(&mut p, w, kv_lens, xs, None) {
            Ok(y) => {
                let output: usize = logits(
                    &mut p,
                    &c,
                    self.head(),
                    1,
                    self.cfg.vocab_size,
                    self.cfg.final_logit_softcapping,
                    y,
                );
                Ok(Plan { program: p, output })
            },
            Err(e) => Err(e),
        }
    }

    /// The logits of a step's last position, from embeddings.
    pub fn forward_embeds(&self, w: &StepShape, kv_lens: &Vec<usize>) -> (r: Result<Plan, Error>)
        requires
            self.wf(),
            w.len > 0,
            w.offset + w.len <= usize::MAX,
            kv_lens@.len() == self.layers@.len(),
        ensures
            match r {
                Ok(plan) => {
                    &&& self.step_refusal(*w, kv_lens@) is None
                    &&& plan.program.wf()
                    &&& is(
                        plan.program@,
                        plan.output,
                        self.logits_formula(
                            self.hidden_formula(*w, kv_lens@, leaf(Leaf::Embeddings), None),
                        ),
                        logits_type(self.spec_style(*w), 1, self.cfg.vocab_size),
                    )
                },
                Err(e) => self.step_refusal(*w, kv_lens@) == Some(e),
            },
    {
        self.forward_embeds_with_per_layer(w, false, kv_lens)
    }

    /// The logits of a step's last position, from embeddings and, where they
    /// are given, the auxiliary embeddings of all layers.
    pub fn forward_embeds_with_per_layer(
        &self,
        w: &StepShape,
        per_layer_inputs: bool,
        kv_lens: &Vec<usize>,
    ) -> (r: Result<Plan, Error>)
        requires
            self.wf(),
            w.len > 0,
            w.offset + w.len <= usize::MAX,
            kv_lens@.len() == self.layers@.len(),
        ensures
            match r {
                Ok(plan) => {
                    &&& self.step_refusal(*w, kv_lens@) is None
                    &&& plan.program.wf()
                    &&& is(
                        plan.program@,
                        plan.output,
                        self.logits_formula(
                            self.hidden_formula(
                                *w,
                                kv_lens@,
                                leaf(Leaf::Embeddings),
                                self.given_side(per_layer_inputs),
                            ),
                        ),
                        logits_type(self.spec_style(*w), 1, self.cfg.vocab_size),
                    )
                },
                Err(e) => self.step_refusal(*w, kv_lens@) == Some(e),
            },
    {
        match self.forward_embeds_hidden_with_per_layer(w, per_layer_inputs, kv_lens) {
            Ok(plan) => {
                let c: Style = self.style(w);
                let mut p: Program = plan.program;
                let output: usize = logits(
                    &mut p,
                    &c,
                    self.head(),
                    1,
                    self.cfg.vocab_size,
                    self.cfg.final_logit_softcapping,
                    plan.output,
                );
                Ok(Plan { program: p, output })
            },
            Err(e) => Err(e),
        }
    }

    /// The normalized state of a step's last position, from embeddings.
    pub fn forward_embeds_hidden(&self, w: &StepShape, kv_lens: &Vec<usize>) -> (r: Result<
        Plan,
        Error,
    >)
        requires
            self.wf(),
            w.len > 0,
            w.offset + w.len <= usize::MAX,
            kv_lens@.len() == self.layers@.len(),
        ensures
            match r {
                Ok(plan) => {
                    &&& self.step_refusal(*w, kv_lens@) is None
                    &&& plan.program.wf()
                    &&& is(
                        plan.program@,
                        plan.output,
                        self.hidden_formula(*w, kv_lens@, leaf(Leaf::Embeddings), None),
                        last_type(self.spec_style(*w)),
                    )
                },
                Err(e) => self.step_refusal(*w, kv_lens@) == Some(e),
            },
    {
        self.forward_embeds_hidden_with_per_layer(w, false, kv_lens)
    }

    /// The normalized state of a step's last position, from embeddings and,
    /// where they are given, the auxiliary embeddings of all layers.
    pub fn forward_embeds_hidden_with_per_layer(
        &self,
        w: &StepShape,
        per_layer_inputs: bool,
        kv_lens: &Vec<usize>,
    ) -> (r: Result<Plan, Error>)
        requires
            self.wf(),
            w.len > 0,
            w.offset + w.len <= usize::MAX,
            kv_lens@.len() == self.layers@.len(),
        ensures
            match r {
                Ok(plan) => {
                    &&& self.step_refusal(*w, kv_lens@) is None
                    &&& plan.program.wf()
                    &&& is(
                        plan.program@,
                        plan.output,
                        self.hidden_formula(
                            *w,
                            kv_lens@,
                            leaf(Leaf::Embeddings),
                            self.given_side(per_layer_inputs),
                        ),
                        last_type(self.spec_style(*w)),
                    )
                },
                Err(e) => self.step_refusal(*w, kv_lens@) == Some(e),
            },
    {
        let mut p: Program = Program::new();
        let c: Style = self.style(w);
        let mut dims: Vec<usize> = Vec::new();
        dims.push(c.batch);
        dims.push(c.len);
        dims.push(c.hidden);
        proof {
            assert(dims@ =~= seq![c.batch, c.len, c.hidden]);
        }
        let xs: usize = p.leaf(Leaf::Embeddings, c.dtype, dims);
        let mut table: Option<usize> = None;
        if per_layer_inputs {
            if let Some(s) = self.side {
                let mut dims: Vec<usize> = Vec::new();
                dims.push(c.batch);
                dims.push(c.len);
                dims.push(s.layers);
                dims.push(s.width);
                proof {
                    assert(dims@ =~= seq![c.batch, c.len, s.layers, s.width]);
                }
                table = Some(p.leaf(Leaf::PerLayerInputs, c.dtype, dims));
            }
        }
        match self.add_hidden(&mut p, w, kv_lens, xs, table) {
            Ok(output) => Ok(Plan { program: p, output }),
            Err(e) => Err(e),
        }
    }

    /// The auxiliary embeddings of all layers, from a step's token ids and
    /// embeddings; none where the model has no use for them.
    pub fn compute_per_layer_inputs(&self, batch: usize, len: usize) -> (r: Option<Plan>)
        requires
            self.wf(),
        ensures
            match (r, self.side) {
                (Some(plan), Some(s)) => {
                    let c = style_of(&self.cfg, self.dtype, batch, len);
                    &&& plan.program.wf()
                    &&& is(
                        plan.program@,
                        plan.output,
                        side_table_of(c, s, leaf(Leaf::Embeddings)),
                        side_table_type(c, s),
                    )
                },
                (None, None) => true,
                _ => false,
            },
    {
        match self.side {
            Some(s) => {
                let mut p: Program = Program::new();
                let c: Style = self.style(&StepShape { batch, len, offset: 0 });
                let mut dims: Vec<usize> = Vec::new();
                dims.push(c.batch);
                dims.push(c.len);
                dims.push(c.hidden);
                proof {
                    assert(dims@ =~= seq![c.batch, c.len, c.hidden]);
                }
                let xs: usize = p.leaf(Leaf::Embeddings, c.dtype, dims);
                let output: usize = side_table(&mut p, &c, &s, xs);
                Some(Plan { program: p, output })
            },
            None => None,
        }
    }

    /// The logits of `rows` states of `batch` sequences.
    pub fn lm_head(&self, batch: usize, rows: usize) -> (r: Plan)
        ensures
            r.program.wf(),
            is(
                r.program@,
                r.output,
                self.logits_formula(leaf(Leaf::Embeddings)),
                TypeView { dtype: self.dtype, dims: seq![batch, rows, self.cfg.vocab_size] },
            ),
    {
        let mut p: Program = Program::new();
        let c: Style = self.style(&StepShape { batch, len: rows, offset: 0 });
        let mut dims: Vec<usize> = Vec::new();
        dims.push(batch);
        dims.push(rows);
        dims.push(c.hidden);
        proof {
            assert(dims@ =~= seq![batch, rows, c.hidden]);
        }
        let x: usize = p.leaf(Leaf::Embeddings, c.dtype, dims);
        let output: usize = logits(
            &mut p,
            &c,
            self.head(),
            rows,
            self.cfg.vocab_size,
            self.cfg.final_logit_softcapping,
            x,
        );
        Plan { program: p, output }
    }

    /// The layers whose caches are emptied for a new sequence: all of them.
    pub fn clear_kv_cache(&self) -> (r: Vec<usize>)
        ensures
            r@ == Seq::new(self.layers@.len(), |i: int| i as usize),
    {
        all_layers(self.layers.len())
    }
}

proof fn lemma_refusal_ignores_side(v: TextPassView, side: Option<Expr>, n: nat)
    ensures
        first_refusal(TextPassView { side, ..v }, n) == first_refusal(v, n),
    decreases n,
{
    if n > 0 {
        lemma_refusal_ignores_side(v, side, (n - 1) as nat);
    }
}

} // verus!
