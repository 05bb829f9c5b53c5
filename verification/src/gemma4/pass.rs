//! The way of a hidden state through the layers of a quantized model.

use crate::error::Error;
use crate::gemma4::attention::{
    appended, appended_of, attention, attention_of, concatenated, concatenated_of, Heads, Kv,
    KvExpr, QAttention,
};
use crate::gemma4::block::{hidden_type, predict_of, stack_type, Style};
use crate::gemma4::ends::{side_table_type, SideEmbedding};
use crate::gemma4::fit::Fit;
use crate::gemma4::kv_cache::{SharedKvStore, Trim};
use crate::gemma4::layer::{
    active_of, altup, altup_begin, altup_of, classic, classic_of, formula_of, layer_norm,
    layer_norm_of, LayerBody, Spread, Streams,
};
use crate::gemma4::quantized::DecoderLayer;
use crate::tensor::op::{contiguous, un, Expr, LayerTensor, Leaf, MapOp, TOp};
use crate::tensor::program::{expr, extends, is, ty, Program, TypeView};
use vstd::prelude::*;

verus! {

/// What a layer's cache does with the keys and values of a step.
#[derive(Clone, Copy, Debug, PartialEq, Eq, Structural)]
pub enum CacheStep {
    /// It is given them, and gives back `kv_len` positions.
    Append { kv_len: usize },
    /// They are put behind the `cached` positions that it has, of `batch`
    /// sequences once there were any, and some of all are kept.
    Join { cached: usize, batch: Option<usize>, trim: Option<Trim> },
}

impl CacheStep {
    /// Positions that come out of a step of `len` positions.
    pub open spec fn spec_len(&self, len: usize) -> usize {
        match self {
            CacheStep::Append { kv_len } => *kv_len,
            CacheStep::Join { cached, trim, .. } => match trim {
                Some(t) => t.len,
                None => (*cached + len) as usize,
            },
        }
    }

    /// The positions can be counted, and those that are kept are the last.
    pub open spec fn wf(&self, len: usize) -> bool {
        match self {
            CacheStep::Append { .. } => true,
            CacheStep::Join { cached, trim, .. } => {
                &&& *cached + len <= usize::MAX
                &&& trim matches Some(t) ==> t.start + t.len == *cached + len
            },
        }
    }
}

/// Why a cache does not take the keys and values of `batch` sequences, if it
/// does not.
pub open spec fn cache_refusal(c: CacheStep, batch: usize) -> Option<Error> {
    match c {
        CacheStep::Join { batch: Some(b), .. } if b != batch => Some(
            Error::CachedBatch { cached: b, got: batch },
        ),
        _ => None,
    }
}

/// A pass: the layers and what their caches do.
pub struct PassView {
    pub c: Style,
    pub layers: Seq<DecoderLayer>,
    pub caches: Seq<CacheStep>,
    /// Whether each layer's weights fit.
    pub fits: Seq<Fit>,
    pub streams: Option<Streams>,
    pub offset: usize,
    pub max: usize,
    /// The auxiliary embeddings of all layers.
    pub side: Option<Expr>,
}

/// A layer's keys and values after its cache has seen them.
pub open spec fn kv_of(v: PassView, i: int, x: Expr) -> KvExpr {
    match v.caches[i] {
        CacheStep::Append { .. } => appended_of(v.c, v.layers[i].attention, v.offset, x),
        CacheStep::Join { trim, .. } => concatenated_of(
            v.c,
            v.layers[i].attention,
            v.offset,
            trim,
            x,
        ),
    }
}

/// A layer's auxiliary embedding.
pub open spec fn side_at(v: PassView, i: int) -> Option<Expr> {
    match v.side {
        Some(t) => Some(contiguous(un(TOp::Select { axis: 2, index: i as usize }, t))),
        None => None,
    }
}

/// The input of a layer's attention.
pub open spec fn attention_input_of(v: PassView, i: int, x: Expr) -> Expr {
    match v.streams {
        Some(s) => layer_norm_of(
            v.c,
            i as usize,
            LayerTensor::InputNorm,
            active_of(s, predict_of(v.c, i as usize, s.n, s.active, x)),
        ),
        None => layer_norm_of(v.c, i as usize, LayerTensor::InputNorm, x),
    }
}

/// A layer's result, given what its attention sees.
pub open spec fn layer_of(v: PassView, i: int, x: Expr, kv: KvExpr) -> Expr {
    let l = v.layers[i];
    let normed = attention_input_of(v, i, x);
    let attn = attention_of(v.c, l.attention, v.offset, v.c.len > 1, normed, kv);
    match v.streams {
        Some(s) => altup_of(
            v.c,
            l.body,
            s,
            predict_of(v.c, i as usize, s.n, s.active, x),
            normed,
            attn,
            side_at(v, i),
        ),
        None => classic_of(v.c, l.body, x, normed, attn, side_at(v, i)),
    }
}

/// The hidden state between two layers, and the keys and values that the
/// layers so far have put aside.
pub struct Between {
    pub x: Expr,
    pub kv: Seq<Option<KvExpr>>,
}

/// What layer `i` attends to: its own keys and values, or those of its donor.
pub open spec fn seen_by(v: PassView, i: int, before: Between) -> KvExpr {
    match v.layers[i].donor {
        Some(d) => before.kv[d as int]->0,
        None => kv_of(v, i, attention_input_of(v, i, before.x)),
    }
}

/// The state behind layer `i`.
#[verifier::opaque]
pub open spec fn next_of(v: PassView, i: int, before: Between) -> Between {
    let kv = seen_by(v, i, before);
    Between {
        x: layer_of(v, i, before.x, kv),
        kv: if v.layers[i].donor is Some {
            before.kv
        } else {
            before.kv.update(i, Some(kv))
        },
    }
}

/// The state behind the first `n` layers.
pub open spec fn run_of(v: PassView, x: Expr, n: nat) -> Between
    decreases n,
{
    if n == 0 {
        Between { x, kv: Seq::new(v.layers.len(), |i: int| None::<KvExpr>) }
    } else {
        next_of(v, n - 1, run_of(v, x, (n - 1) as nat))
    }
}

/// The layer whose cache holds what layer `i` attends to.
pub open spec fn source_of(layers: Seq<DecoderLayer>, i: int) -> int {
    match layers[i].donor {
        Some(d) => d as int,
        None => i,
    }
}

/// Why layer `i` stops before its cache has seen anything, if it does.
pub open spec fn early_refusal(v: PassView, i: int) -> Option<Error> {
    let l = v.layers[i];
    let a = l.attention.heads;
    if v.fits[i].early is Some {
        v.fits[i].early
    } else if v.offset + v.c.len > v.max {
        Some(Error::PositionsOutOfRange { offset: v.offset, len: v.c.len, max: v.max })
    } else if a.head_dim % 2 != 0 {
        Some(Error::OddHeadDim { dim: a.head_dim })
    } else {
        match l.donor {
            Some(d) => if d >= i || v.layers[d as int].donor is Some {
                Some(Error::NoDonor { layer: i as usize, donor: d })
            } else {
                None
            },
            None => cache_refusal(v.caches[i], v.c.batch),
        }
    }
}

/// Why layer `i` stops after its cache has seen its keys and values, if it
/// does.
pub open spec fn late_refusal(v: PassView, i: int) -> Option<Error> {
    let a = v.layers[i].attention.heads;
    let s = source_of(v.layers, i);
    let from = v.layers[s].attention.heads;
    let kv_len = v.caches[s].spec_len(v.c.len);
    if from.kv_heads * a.groups != a.heads || from.head_dim != a.head_dim {
        Some(Error::HeadsMismatch { layer: i as usize })
    } else if v.c.len > 1 && kv_len != v.offset + v.c.len {
        Some(
            Error::MaskLength {
                layer: i as usize,
                cached: kv_len,
                masked: (v.offset + v.c.len) as usize,
            },
        )
    } else if v.fits[i].late is Some {
        v.fits[i].late
    } else {
        tail_refusal(v, i)
    }
}

/// Why a weight is not spread over the states of a pass, if it is not.
pub open spec fn spread_refusal(c: Style, s: Spread, layer: usize, t: LayerTensor) -> Option<Error> {
    if s.fits(c) {
        None
    } else {
        Some(Error::TensorShape { leaf: Leaf::Layer(layer, t) })
    }
}

/// Why layer `i` stops at its auxiliary embedding or its gain, if it does.
pub open spec fn tail_refusal(v: PassView, i: int) -> Option<Error> {
    let b = v.layers[i].body;
    let scale = if v.side is Some && b.side is Some && (v.streams matches Some(s)
        && s.correct_scale) {
        spread_refusal(v.c, b.scale, i as usize, LayerTensor::AltupCorrectOutputScale)
    } else {
        None
    };
    if scale is Some {
        scale
    } else if v.fits[i].side is Some {
        v.fits[i].side
    } else {
        match (v.streams, b.gain) {
            (None, Some(g)) => spread_refusal(v.c, g, i as usize, LayerTensor::LayerScalar),
            _ => None,
        }
    }
}

/// A layer that a pass stops at.
#[derive(Clone, Copy, Debug, PartialEq, Eq, Structural)]
pub struct Stop {
    pub layer: usize,
    /// Whether the layer's cache has seen its keys and values, where it has
    /// any.
    pub late: bool,
    pub error: Error,
}

/// Where layer `i` stops, if it does.
pub open spec fn stop_at(v: PassView, i: int) -> Option<Stop> {
    match early_refusal(v, i) {
        Some(error) => Some(Stop { layer: i as usize, late: false, error }),
        None => match late_refusal(v, i) {
            Some(error) => Some(Stop { layer: i as usize, late: true, error }),
            None => None,
        },
    }
}

/// Where a pass stops within the first `n` layers, if it does.
pub open spec fn first_stop(v: PassView, n: nat) -> Option<Stop>
    decreases n,
{
    if n == 0 {
        None
    } else {
        match first_stop(v, (n - 1) as nat) {
            Some(s) => Some(s),
            None => stop_at(v, n - 1),
        }
    }
}

/// A stop within some layers is the stop of a longer pass.
pub proof fn law_stop_is_final(v: PassView, n: nat, m: nat)
    requires
        n <= m,
        first_stop(v, n) is Some,
    ensures
        first_stop(v, m) == first_stop(v, n),
    decreases m,
{
    if n < m {
        law_stop_is_final(v, n, (m - 1) as nat);
    }
}

/// A pass gets through exactly where no layer stops it.
pub proof fn law_no_stop(v: PassView, n: nat)
    ensures
        first_stop(v, n) is None <==> forall|i: int|
            0 <= i < n ==> #[trigger] stop_at(v, i) is None,
    decreases n,
{
    if n > 0 {
        law_no_stop(v, (n - 1) as nat);
        if first_stop(v, n) is None {
            assert forall|i: int| 0 <= i < n implies #[trigger] stop_at(v, i) is None by {
                if i < n - 1 {
                    assert(first_stop(v, (n - 1) as nat) is None);
                }
            }
        } else if first_stop(v, (n - 1) as nat) is None {
            assert(stop_at(v, n - 1) is Some);
        }
    }
}

/// The layers and their caches are such that a pass can be planned.
pub open spec fn layers_wf(v: PassView, side: Option<SideEmbedding>) -> bool {
    &&& v.caches.len() == v.layers.len()
    &&& v.fits.len() == v.layers.len()
    &&& v.offset + v.c.len <= usize::MAX
    &&& v.streams matches Some(s) ==> s.wf()
    &&& side matches Some(s) ==> s.layers == v.layers.len()
    &&& forall|i: int|
        0 <= i < v.layers.len() ==> {
            let l = #[trigger] v.layers[i];
            &&& l.attention.heads.layer == i
            &&& l.body.layer == i
            &&& l.altup == (v.streams is Some)
            &&& l.body.wf()
            &&& l.attention.heads.addressable()
            &&& l.body.side matches Some(w) ==> (side matches Some(s) ==> s.width == w)
        }
    &&& forall|i: int| 0 <= i < v.caches.len() ==> (#[trigger] v.caches[i]).wf(v.c.len)
}

/// The type of the state between layers.
pub open spec fn state_type(c: Style, streams: Option<Streams>) -> TypeView {
    match streams {
        Some(s) => stack_type(c, s.n),
        None => hidden_type(c),
    }
}

/// What a layer's attention sees, as far as layers before it have put it
/// aside, is what the program holds.
spec fn store_ok(
    p: &Program,
    v: PassView,
    store: Seq<Option<Kv>>,
    e: Seq<Option<KvExpr>>,
    n: int,
) -> bool {
    &&& store.len() == v.layers.len()
    &&& e.len() == v.layers.len()
    &&& forall|j: int|
        0 <= j < store.len() ==> {
            if j < n && v.layers[j].donor is None {
                &&& (#[trigger] store[j]) matches Some(kv)
                &&& kv.typed(p, v.c)
                &&& e[j] == Some(kv.formula(p))
                &&& kv.kv_heads == v.layers[j].attention.heads.kv_heads
                &&& kv.head_dim == v.layers[j].attention.heads.head_dim
                &&& kv.len == v.caches[j].spec_len(v.c.len)
            } else {
                store[j] is None
            }
        }
}

/// A pass through layers.
pub struct Pass<'a> {
    pub c: Style,
    pub layers: &'a Vec<DecoderLayer>,
    pub caches: &'a Vec<CacheStep>,
    /// Whether each layer's weights fit.
    pub fits: &'a Vec<Fit>,
    pub streams: Option<Streams>,
    pub offset: usize,
    pub max: usize,
    pub side: Option<SideEmbedding>,
    /// The step that holds the auxiliary embeddings of all layers.
    pub side_step: Option<usize>,
}

impl<'a> Pass<'a> {
    /// What the pass stands for, within a program.
    pub open spec fn within(&self, p: &Program) -> PassView {
        PassView {
            c: self.c,
            layers: self.layers@,
            caches: self.caches@,
            fits: self.fits@,
            streams: self.streams,
            offset: self.offset,
            max: self.max,
            side: formula_of(p, self.side_step),
        }
    }

    /// The auxiliary embeddings are where the pass says.
    pub open spec fn side_ok(&self, p: &Program) -> bool {
        self.side_step matches Some(t) ==> {
            &&& t < p@.len()
            &&& self.side matches Some(s)
            &&& ty(p@, t as nat) == side_table_type(self.c, s)
        }
    }

    fn early(&self, i: usize, Ghost(v): Ghost<PassView>) -> (r: Option<Error>)
        requires
            i < self.layers@.len(),
            v.layers == self.layers@ && v.streams == self.streams && v.offset == self.offset
                && v.max == self.max && v.c == self.c && v.caches == self.caches@ && v.fits
                == self.fits@,
            self.caches@.len() == self.layers@.len(),
            self.fits@.len() == self.layers@.len(),
            v.offset + v.c.len <= usize::MAX,
        ensures
            r == early_refusal(v, i as int),
    {
        let l: &DecoderLayer = &self.layers[i];
        let dim: usize = l.attention.heads.head_dim;
        if self.fits[i].early.is_some() {
            return self.fits[i].early;
        }
        if self.offset + self.c.len > self.max {
            return Some(
                Error::PositionsOutOfRange { offset: self.offset, len: self.c.len, max: self.max },
            );
        }
        if dim % 2 != 0 {
            return Some(Error::OddHeadDim { dim });
        }
        match l.donor {
            Some(d) => {
                if d >= i || self.layers[d].donor.is_some() {
                    Some(Error::NoDonor { layer: i, donor: d })
                } else {
                    None
                }
            },
            None => match self.caches[i] {
                CacheStep::Join { batch: Some(b), .. } => {
                    if b != self.c.batch {
                        Some(Error::CachedBatch { cached: b, got: self.c.batch })
                    } else {
                        None
                    }
                },
                _ => None,
            },
        }
    }

    fn late(&self, i: usize, kv: &Kv, Ghost(v): Ghost<PassView>) -> (r: Option<Error>)
        requires
            i < self.layers@.len(),
            v.layers == self.layers@ && v.caches == self.caches@ && v.offset == self.offset && v.c
                == self.c && v.fits == self.fits@ && v.streams == self.streams,
            v.side is Some == self.side_step is Some,
            self.fits@.len() == self.layers@.len(),
            v.offset + v.c.len <= usize::MAX,
            kv.kv_heads == v.layers[source_of(v.layers, i as int)].attention.heads.kv_heads,
            kv.head_dim == v.layers[source_of(v.layers, i as int)].attention.heads.head_dim,
            kv.len == v.caches[source_of(v.layers, i as int)].spec_len(v.c.len),
        ensures
            r == late_refusal(v, i as int),
    {
        let a: Heads = self.layers[i].attention.heads;
        let shared: bool = match kv.kv_heads.checked_mul(a.groups) {
            Some(n) => n == a.heads,
            None => false,
        };
        if !shared || kv.head_dim != a.head_dim {
            Some(Error::HeadsMismatch { layer: i })
        } else if self.c.len > 1 && kv.len != self.offset + self.c.len {
            Some(
                Error::MaskLength {
                    layer: i,
                    cached: kv.len,
                    masked: self.offset + self.c.len,
                },
            )
        } else if self.fits[i].late.is_some() {
            self.fits[i].late
        } else {
            self.tail(i, Ghost(v))
        }
    }

    fn tail(&self, i: usize, Ghost(v): Ghost<PassView>) -> (r: Option<Error>)
        requires
            i < self.layers@.len(),
            self.fits@.len() == self.layers@.len(),
            v.layers == self.layers@ && v.fits == self.fits@ && v.c == self.c && v.streams
                == self.streams,
            v.side is Some == self.side_step is Some,
        ensures
            r == tail_refusal(v, i as int),
    {
        let b: LayerBody = self.layers[i].body;
        let scaled: bool = match self.streams {
            Some(s) => s.correct_scale && self.side_step.is_some() && b.side.is_some(),
            None => false,
        };
        if scaled && !b.scale.can_fit(&self.c) {
            return Some(
                Error::TensorShape { leaf: Leaf::Layer(i, LayerTensor::AltupCorrectOutputScale) },
            );
        }
        if self.fits[i].side.is_some() {
            return self.fits[i].side;
        }
        match (self.streams, b.gain) {
            (None, Some(g)) => if g.can_fit(&self.c) {
                None
            } else {
                Some(Error::TensorShape { leaf: Leaf::Layer(i, LayerTensor::LayerScalar) })
            },
            _ => None,
        }
    }

    /// Adds a layer's own keys and values.
    fn own(&self, p: &mut Program, i: usize, x: usize, Ghost(v): Ghost<PassView>) -> (r: Kv)
        requires
            old(p).wf(),
            i < self.layers@.len(),
            x < old(p)@.len(),
            v == self.within(old(p)),
            layers_wf(v, self.side),
            self.layers@[i as int].attention.heads.head_dim % 2 == 0,
            ty(old(p)@, x as nat) == hidden_type(self.c),
        ensures
            final(p).wf(),
            extends(old(p)@, final(p)@),
            r.typed(final(p), self.c),
            r.formula(final(p)) == kv_of(v, i as int, expr(old(p)@, x as nat)),
            r.kv_heads == self.layers@[i as int].attention.heads.kv_heads,
            r.head_dim == self.layers@[i as int].attention.heads.head_dim,
            r.len == self.caches@[i as int].spec_len(self.c.len),
    {
        let m: QAttention = self.layers[i].attention;
        proof {
            assert(v.caches[i as int].wf(v.c.len));
            assert(v.layers[i as int].attention.heads.addressable());
        }
        match self.caches[i] {
            CacheStep::Append { kv_len } => appended(p, &self.c, &m, self.offset, kv_len, x),
            CacheStep::Join { cached, trim, .. } => concatenated(
                p,
                &self.c,
                &m,
                self.offset,
                cached,
                trim,
                x,
            ),
        }
    }

    /// Adds a layer's auxiliary embedding.
    fn side_slice(&self, p: &mut Program, i: usize) -> (r: Option<usize>)
        requires
            old(p).wf(),
            i < self.layers@.len(),
            self.side_ok(old(p)),
            self.side matches Some(s) ==> s.layers == self.layers@.len(),
        ensures
            final(p).wf(),
            extends(old(p)@, final(p)@),
            formula_of(final(p), r) == side_at(self.within(old(p)), i as int),
            r matches Some(id) ==> {
                &&& self.side matches Some(s)
                &&& id < final(p)@.len()
                &&& ty(final(p)@, id as nat) == (TypeView {
                    dtype: self.c.dtype,
                    dims: seq![self.c.batch, self.c.len, s.width],
                })
            },
    {
        match self.side_step {
            Some(t) => {
                let one: usize = p.select(t, 2, i);
                proof {
                    assert(ty(p@, one as nat).dims =~= seq![
                        self.c.batch,
                        self.c.len,
                        self.side->0.width,
                    ]);
                }
                Some(p.each(MapOp::Contiguous, one))
            },
            None => None,
        }
    }

    /// Adds what layer `i` attends to, and puts it aside where it is the
    /// layer's own.
    fn seen(
        &self,
        p: &mut Program,
        store: &mut SharedKvStore,
        i: usize,
        x: usize,
        Ghost(v): Ghost<PassView>,
        Ghost(b): Ghost<Between>,
    ) -> (r: Result<Kv, Error>)
        requires
            old(p).wf(),
            i < self.layers@.len(),
            x < old(p)@.len(),
            v == self.within(old(p)),
            layers_wf(v, self.side),
            early_refusal(v, i as int) is None,
            store_ok(old(p), v, old(store)@, b.kv, i as int),
            expr(old(p)@, x as nat) == attention_input_of(v, i as int, b.x),
            ty(old(p)@, x as nat) == hidden_type(self.c),
        ensures
            final(p).wf(),
            extends(old(p)@, final(p)@),
            r matches Ok(kv) && {
                let s = source_of(v.layers, i as int);
                &&& kv.typed(final(p), self.c)
                &&& kv.formula(final(p)) == seen_by(v, i as int, b)
                &&& kv.kv_heads == v.layers[s].attention.heads.kv_heads
                &&& kv.head_dim == v.layers[s].attention.heads.head_dim
                &&& kv.len == v.caches[s].spec_len(v.c.len)
            },
            store_ok(
                final(p),
                v,
                final(store)@,
                next_of(v, i as int, b).kv,
                i + 1,
            ),
    {
        let ghost p0 = *p;
        let ghost s0 = store@;
        proof {
            reveal(next_of);
        }
        match self.layers[i].donor {
            Some(d) => {
                proof {
                    assert(s0[d as int] is Some);
                    assert(store_ok(p, v, store@, b.kv, i + 1)) by {
                        assert forall|j: int| 0 <= j < store@.len() implies {
                            if j < i + 1 && v.layers[j].donor is None {
                                &&& (#[trigger] store@[j]) matches Some(kv)
                                &&& kv.typed(p, v.c)
                                &&& b.kv[j] == Some(kv.formula(p))
                                &&& kv.kv_heads == v.layers[j].attention.heads.kv_heads
                                &&& kv.head_dim == v.layers[j].attention.heads.head_dim
                                &&& kv.len == v.caches[j].spec_len(v.c.len)
                            } else {
                                store@[j] is None
                            }
                        } by {}
                    }
                }
                store.get(i, d)
            },
            None => {
                let kv: Kv = self.own(p, i, x, Ghost(v));
                store.put(i, kv);
                proof {
                    let e = next_of(v, i as int, b).kv;
                    assert forall|j: int| 0 <= j < store@.len() implies {
                        if j < i + 1 && v.layers[j].donor is None {
                            &&& (#[trigger] store@[j]) matches Some(kv)
                            &&& kv.typed(p, v.c)
                            &&& e[j] == Some(kv.formula(p))
                            &&& kv.kv_heads == v.layers[j].attention.heads.kv_heads
                            &&& kv.head_dim == v.layers[j].attention.heads.head_dim
                            &&& kv.len == v.caches[j].spec_len(v.c.len)
                        } else {
                            store@[j] is None
                        }
                    } by {
                        if j < i && v.layers[j].donor is None {
                            let old_kv = s0[j]->0;
                            assert(s0[j] is Some);
                            assert(store@[j] == s0[j]);
                            assert(old_kv.typed(&p0, v.c));
                            assert(old_kv.formula(&p0) == old_kv.formula(p));
                        } else if j != i {
                            assert(s0[j] is None);
                        }
                    }
                }
                Ok(kv)
            },
        }
    }

    /// Adds layer `i`, or says why the pass stops there.
    #[verifier::rlimit(40)]
    fn layer(
        &self,
        p: &mut Program,
        store: &mut SharedKvStore,
        i: usize,
        x: usize,
        Ghost(v): Ghost<PassView>,
        Ghost(b): Ghost<Between>,
    ) -> (r: Result<usize, Stop>)
        requires
            old(p).wf(),
            i < self.layers@.len(),
            v == self.within(old(p)),
            layers_wf(v, self.side),
            self.side_ok(old(p)),
            store_ok(old(p), v, old(store)@, b.kv, i as int),
            is(old(p)@, x, b.x, state_type(self.c, self.streams)),
        ensures
            final(p).wf(),
            extends(old(p)@, final(p)@),
            match r {
                Ok(y) => {
                    &&& stop_at(v, i as int) is None
                    &&& is(
                        final(p)@,
                        y,
                        next_of(v, i as int, b).x,
                        state_type(self.c, self.streams),
                    )
                    &&& store_ok(
                        final(p),
                        v,
                        final(store)@,
                        next_of(v, i as int, b).kv,
                        i + 1,
                    )
                },
                Err(s) => stop_at(v, i as int) == Some(s),
            },
    {
        proof {
            reveal(next_of);
        }
        if let Some(error) = self.early(i, Ghost(v)) {
            return Err(Stop { layer: i, late: false, error });
        }
        let m: QAttention = self.layers[i].attention;
        let body: LayerBody = self.layers[i].body;
        let masked: bool = self.c.len > 1;
        proof {
            assert(v.layers[i as int].attention.heads.addressable());
        }
        let side: Option<usize> = self.side_slice(p, i);
        let (predictions, active, normed): (usize, usize, usize) = match self.streams {
            Some(s) => altup_begin(p, &self.c, i, &s, x),
            None => {
                let normed: usize = layer_norm(p, &self.c, i, LayerTensor::InputNorm, x);
                (x, x, normed)
            },
        };
        proof {
            lemma_store_extends(old(p), p, v, store@, b.kv, i as int);
            assert(self.within(p) == v);
        }
        let kv: Kv = match self.seen(p, store, i, normed, Ghost(v), Ghost(b)) {
            Ok(kv) => kv,
            Err(error) => {
                return Err(Stop { layer: i, late: false, error });
            },
        };
        if let Some(error) = self.late(i, &kv, Ghost(v)) {
            return Err(Stop { layer: i, late: true, error });
        }
        let ghost seen_at = *p;
        let attn: usize = attention(p, &self.c, &m, self.offset, masked, &kv, normed);
        let y: usize = match self.streams {
            Some(s) => altup(
                p,
                &self.c,
                &body,
                &s,
                predictions,
                active,
                normed,
                attn,
                side,
            ),
            None => classic(p, &self.c, &body, x, normed, attn, side),
        };
        proof {
            lemma_store_extends(
                &seen_at,
                p,
                v,
                store@,
                next_of(v, i as int, b).kv,
                i + 1,
            );
        }
        Ok(y)
    }

    /// Adds all layers, or says where the pass stops.
    pub fn run(&self, p: &mut Program, x: usize) -> (r: Result<usize, Stop>)
        requires
            old(p).wf(),
            layers_wf(self.within(old(p)), self.side),
            self.side_ok(old(p)),
            x < old(p)@.len(),
            ty(old(p)@, x as nat) == state_type(self.c, self.streams),
        ensures
            final(p).wf(),
            extends(old(p)@, final(p)@),
            match r {
                Ok(y) => {
                    &&& first_stop(self.within(old(p)), self.layers@.len()) is None
                    &&& is(
                        final(p)@,
                        y,
                        run_of(
                            self.within(old(p)),
                            expr(old(p)@, x as nat),
                            self.layers@.len(),
                        ).x,
                        state_type(self.c, self.streams),
                    )
                },
                Err(s) => first_stop(self.within(old(p)), self.layers@.len()) == Some(s),
            },
    {
        let ghost v = self.within(p);
        let ghost e = expr(p@, x as nat);
        let ghost start = p@;
        let n: usize = self.layers.len();
        let mut store: SharedKvStore = SharedKvStore::new(n);
        let mut y: usize = x;
        let mut i: usize = 0;
        while i < n
            invariant
                n == self.layers@.len(),
                0 <= i <= n,
                p.wf(),
                start == old(p)@,
                extends(start, p@),
                v == self.within(old(p)),
                v == self.within(p),
                self.side_ok(p),
                layers_wf(v, self.side),
                first_stop(v, i as nat) is None,
                store_ok(p, v, store@, run_of(v, e, i as nat).kv, i as int),
                is(p@, y, run_of(v, e, i as nat).x, state_type(self.c, self.streams)),
            decreases n - i,
        {
            let ghost b = run_of(v, e, i as nat);
            match self.layer(p, &mut store, i, y, Ghost(v), Ghost(b)) {
                Ok(z) => {
                    y = z;
                    proof {
                        assert(run_of(v, e, (i + 1) as nat) == next_of(v, i as int, b));
                    }
                },
                Err(s) => {
                    proof {
                        law_stop_is_final(v, (i + 1) as nat, n as nat);
                    }
                    return Err(s);
                },
            }
            i = i + 1;
        }
        Ok(y)
    }
}

/// What was put aside stays what it is when the program grows.
proof fn lemma_store_extends(
    p: &Program,
    q: &Program,
    v: PassView,
    store: Seq<Option<Kv>>,
    e: Seq<Option<KvExpr>>,
    n: int,
)
    requires
        extends(p@, q@),
        store_ok(p, v, store, e, n),
    ensures
        store_ok(q, v, store, e, n),
{
    assert forall|j: int| 0 <= j < store.len() implies {
        if j < n && v.layers[j].donor is None {
            &&& (#[trigger] store[j]) matches Some(kv)
            &&& kv.typed(q, v.c)
            &&& e[j] == Some(kv.formula(q))
            &&& kv.kv_heads == v.layers[j].attention.heads.kv_heads
            &&& kv.head_dim == v.layers[j].attention.heads.head_dim
            &&& kv.len == v.caches[j].spec_len(v.c.len)
        } else {
            store[j] is None
        }
    } by {
        if j < n && v.layers[j].donor is None {
            let kv = store[j]->0;
            assert(kv.typed(p, v.c));
            assert(kv.formula(p) == kv.formula(q));
        }
    }
}

/// What a layer puts aside stays what it is through the pass.
proof fn lemma_put_aside(v: PassView, x: Expr, d: nat, n: nat)
    requires
        d < n <= v.layers.len(),
        v.layers[d as int].donor is None,
    ensures
        run_of(v, x, n).kv.len() == v.layers.len(),
        run_of(v, x, n).kv[d as int] == Some(
            kv_of(v, d as int, attention_input_of(v, d as int, run_of(v, x, d).x)),
        ),
    decreases n,
{
    reveal(next_of);
    lemma_store_len(v, x, (n - 1) as nat);
    if d < n - 1 {
        lemma_put_aside(v, x, d, (n - 1) as nat);
    }
}

proof fn lemma_store_len(v: PassView, x: Expr, n: nat)
    requires
        n <= v.layers.len(),
    ensures
        run_of(v, x, n).kv.len() == v.layers.len(),
    decreases n,
{
    reveal(next_of);
    if n > 0 {
        lemma_store_len(v, x, (n - 1) as nat);
    }
}

/// A layer without keys and values of its own attends to exactly those that
/// its donor attended to in the same pass.
pub proof fn law_receiver_sees_donor(v: PassView, x: Expr, i: nat, d: nat)
    requires
        d < i < v.layers.len(),
        d <= usize::MAX,
        v.layers[i as int].donor == Some(d as usize),
        v.layers[d as int].donor is None,
    ensures
        seen_by(v, i as int, run_of(v, x, i)) == seen_by(v, d as int, run_of(v, x, d)),
{
    lemma_put_aside(v, x, d, i);
}

} // verus!
