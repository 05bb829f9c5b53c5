//! The configuration that a GGUF file's metadata describes.

use crate::error::Error;
use crate::gemma4::config::{
    Activation, F64Bits, Gemma4RopeLayerParams, Gemma4RopeParameters, Gemma4TextConfig, QUARTER,
    TEN_THOUSAND,
};
use crate::gemma4::gguf_names::{top_request, top_request_of};
use crate::gemma4::weights::{find, Directory, TensorInfoView};
use crate::tensor::op::{Leaf, TopTensor};
use crate::text::str_eq;
use vstd::prelude::*;
use vstd::string::*;

verus! {

/// The entries of the metadata that the configuration is made of.
#[derive(Clone, Copy, Debug, PartialEq, Eq, Structural)]
pub enum MetaKey {
    HeadCount,
    HeadCountKv,
    BlockCount,
    EmbeddingLength,
    FeedForwardLength,
    KeyLength,
    KeyLengthSwa,
    RmsEpsilon,
    ContextLength,
    FreqBase,
    FreqBaseSwa,
    SlidingWindow,
    SlidingWindowPattern,
    SlidingWindowType,
    SharedKvLayers,
    KvSharedLayers,
    FinalLogitSoftcapping,
    PerLayerInputLength,
}

/// The key of an entry, behind the architecture's name.
pub open spec fn key_tail_of(k: MetaKey) -> Seq<char> {
    match k {
        MetaKey::HeadCount => ".attention.head_count"@,
        MetaKey::HeadCountKv => ".attention.head_count_kv"@,
        MetaKey::BlockCount => ".block_count"@,
        MetaKey::EmbeddingLength => ".embedding_length"@,
        MetaKey::FeedForwardLength => ".feed_forward_length"@,
        MetaKey::KeyLength => ".attention.key_length"@,
        MetaKey::KeyLengthSwa => ".attention.key_length_swa"@,
        MetaKey::RmsEpsilon => ".attention.layer_norm_rms_epsilon"@,
        MetaKey::ContextLength => ".context_length"@,
        MetaKey::FreqBase => ".rope.freq_base"@,
        MetaKey::FreqBaseSwa => ".rope.freq_base_swa"@,
        MetaKey::SlidingWindow => ".attention.sliding_window"@,
        MetaKey::SlidingWindowPattern => ".attention.sliding_window_pattern"@,
        MetaKey::SlidingWindowType => ".attention.sliding_window_type"@,
        MetaKey::SharedKvLayers => ".attention.shared_kv_layers"@,
        MetaKey::KvSharedLayers => ".attention.kv_shared_layers"@,
        MetaKey::FinalLogitSoftcapping => ".final_logit_softcapping"@,
        MetaKey::PerLayerInputLength => ".embedding_length_per_layer_input"@,
    }
}

fn key_tail(k: MetaKey) -> (r: &'static str)
    ensures
        r@ == key_tail_of(k),
{
    match k {
        MetaKey::HeadCount => ".attention.head_count",
        MetaKey::HeadCountKv => ".attention.head_count_kv",
        MetaKey::BlockCount => ".block_count",
        MetaKey::EmbeddingLength => ".embedding_length",
        MetaKey::FeedForwardLength => ".feed_forward_length",
        MetaKey::KeyLength => ".attention.key_length",
        MetaKey::KeyLengthSwa => ".attention.key_length_swa",
        MetaKey::RmsEpsilon => ".attention.layer_norm_rms_epsilon",
        MetaKey::ContextLength => ".context_length",
        MetaKey::FreqBase => ".rope.freq_base",
        MetaKey::FreqBaseSwa => ".rope.freq_base_swa",
        MetaKey::SlidingWindow => ".attention.sliding_window",
        MetaKey::SlidingWindowPattern => ".attention.sliding_window_pattern",
        MetaKey::SlidingWindowType => ".attention.sliding_window_type",
        MetaKey::SharedKvLayers => ".attention.shared_kv_layers",
        MetaKey::KvSharedLayers => ".attention.kv_shared_layers",
        MetaKey::FinalLogitSoftcapping => ".final_logit_softcapping",
        MetaKey::PerLayerInputLength => ".embedding_length_per_layer_input",
    }
}

/// An element of a metadata array.
#[derive(Clone, Copy, Debug, PartialEq, Eq, Structural)]
pub enum MetaElement {
    Unsigned(u32),
    Signed(i32),
    Flag(bool),
    Other,
}

/// An entry of the metadata: its value as a 32-bit number, as a float and as
/// an array, as far as it is one.
#[derive(Clone, Debug)]
pub struct MetaEntry {
    pub key: String,
    pub number: Option<u32>,
    pub float: Option<F64Bits>,
    pub array: Option<Vec<MetaElement>>,
}

/// What a [`MetaEntry`] stands for.
#[verifier::ext_equal]
pub struct MetaView {
    pub key: Seq<char>,
    pub number: Option<u32>,
    pub float: Option<F64Bits>,
    pub array: Option<Seq<MetaElement>>,
}

impl View for MetaEntry {
    type V = MetaView;

    open spec fn view(&self) -> MetaView {
        MetaView {
            key: self.key@,
            number: self.number,
            float: self.float,
            array: match self.array {
                Some(a) => Some(a@),
                None => None,
            },
        }
    }
}

/// The metadata of a file.
#[derive(Clone, Debug)]
pub struct Metadata {
    pub entries: Vec<MetaEntry>,
}

impl View for Metadata {
    type V = Seq<MetaView>;

    open spec fn view(&self) -> Seq<MetaView> {
        self.entries@.map_values(|e: MetaEntry| e@)
    }
}

/// The entry of the given key, the first of several.
pub open spec fn entry_of(md: Seq<MetaView>, key: Seq<char>) -> Option<MetaView>
    decreases md.len(),
{
    if md.len() == 0 {
        None
    } else if md[0].key == key {
        Some(md[0])
    } else {
        entry_of(md.skip(1), key)
    }
}

impl Metadata {
    /// Where the entry of the given key stands, if it is there.
    fn position(&self, key: &str) -> (r: Option<usize>)
        ensures
            match r {
                Some(i) => i < self.entries@.len() && entry_of(self@, key@) == Some(
                    self.entries@[i as int]@,
                ),
                None => entry_of(self@, key@) is None,
            },
    {
        let n: usize = self.entries.len();
        let mut i: usize = 0;
        proof {
            assert(self@.skip(0) =~= self@);
        }
        while i < n
            invariant
                n == self.entries@.len(),
                0 <= i <= n,
                entry_of(self@, key@) == entry_of(self@.skip(i as int), key@),
            decreases n - i,
        {
            proof {
                assert(self@.skip(i as int)[0] == self.entries@[i as int]@);
                assert(self@.skip(i as int).skip(1) =~= self@.skip(i + 1));
            }
            if str_eq(self.entries[i].key.as_str(), key) {
                return Some(i);
            }
            i = i + 1;
        }
        None
    }
}

/// The architecture that the metadata speaks of.
pub open spec fn prefix_of(md: Seq<MetaView>) -> Seq<char> {
    if entry_of(md, "gemma4"@ + key_tail_of(MetaKey::HeadCount)) is Some {
        "gemma4"@
    } else if entry_of(md, "gemma3"@ + key_tail_of(MetaKey::HeadCount)) is Some {
        "gemma3"@
    } else {
        "gemma4"@
    }
}

/// The entry of the architecture.
pub open spec fn meta_of(md: Seq<MetaView>, k: MetaKey) -> Option<MetaView> {
    entry_of(md, prefix_of(md) + key_tail_of(k))
}

fn joined(a: &str, b: &str) -> (r: String)
    ensures
        r@ == a@ + b@,
{
    let mut r: String = a.to_owned();
    r.append(b);
    r
}

fn prefix(md: &Metadata) -> (r: &'static str)
    ensures
        r@ == prefix_of(md@),
{
    let key: String = joined("gemma4", key_tail(MetaKey::HeadCount));
    match md.position(key.as_str()) {
        Some(_) => "gemma4",
        None => {
            let key: String = joined("gemma3", key_tail(MetaKey::HeadCount));
            match md.position(key.as_str()) {
                Some(_) => "gemma3",
                None => "gemma4",
            }
        },
    }
}

fn meta(md: &Metadata, k: MetaKey) -> (r: Option<usize>)
    ensures
        match r {
            Some(i) => i < md.entries@.len() && meta_of(md@, k) == Some(md.entries@[i as int]@),
            None => meta_of(md@, k) is None,
        },
{
    let key: String = joined(prefix(md), key_tail(k));
    md.position(key.as_str())
}

/// Why a number that must be there is not, if it is not.
pub open spec fn number_refusal(md: Seq<MetaView>, k: MetaKey) -> Option<Error> {
    match meta_of(md, k) {
        None => Some(Error::MissingMetadata { key: k }),
        Some(e) => if e.number is None {
            Some(Error::MetadataType { key: k })
        } else {
            None
        },
    }
}

/// A number that must be there.
pub open spec fn number_of(md: Seq<MetaView>, k: MetaKey) -> usize {
    meta_of(md, k)->0.number->0 as usize
}

/// A number that may be there.
pub open spec fn optional_number_of(md: Seq<MetaView>, k: MetaKey) -> Option<usize> {
    match meta_of(md, k) {
        Some(e) => match e.number {
            Some(n) => Some(n as usize),
            None => None,
        },
        None => None,
    }
}

/// A float that may be there.
pub open spec fn optional_float_of(md: Seq<MetaView>, k: MetaKey) -> Option<F64Bits> {
    match meta_of(md, k) {
        Some(e) => e.float,
        None => None,
    }
}

fn number(md: &Metadata, k: MetaKey) -> (r: Result<usize, Error>)
    ensures
        match r {
            Ok(n) => number_refusal(md@, k) is None && n == number_of(md@, k),
            Err(e) => number_refusal(md@, k) == Some(e),
        },
{
    match meta(md, k) {
        Some(i) => match md.entries[i].number {
            Some(n) => Ok(n as usize),
            None => Err(Error::MetadataType { key: k }),
        },
        None => Err(Error::MissingMetadata { key: k }),
    }
}

fn optional_number(md: &Metadata, k: MetaKey) -> (r: Option<usize>)
    ensures
        r == optional_number_of(md@, k),
{
    match meta(md, k) {
        Some(i) => match md.entries[i].number {
            Some(n) => Some(n as usize),
            None => None,
        },
        None => None,
    }
}

fn optional_float(md: &Metadata, k: MetaKey) -> (r: Option<F64Bits>)
    ensures
        r == optional_float_of(md@, k),
{
    match meta(md, k) {
        Some(i) => md.entries[i].float,
        None => None,
    }
}

/// A signed number as an unsigned one, in two's complement.
pub open spec fn wrapped(n: i32) -> usize {
    if n >= 0 {
        n as usize
    } else {
        (usize::MAX + 1 + n) as usize
    }
}

fn wrap(n: i32) -> (r: usize)
    ensures
        r == wrapped(n),
{
    if n >= 0 {
        n as usize
    } else {
        usize::MAX - ((-(n as i64)) as usize - 1)
    }
}

/// The element is a number.
pub open spec fn is_number(e: MetaElement) -> bool {
    e is Unsigned || e is Signed
}

/// The element as a width.
pub open spec fn width_of(e: MetaElement) -> usize {
    match e {
        MetaElement::Unsigned(n) => n as usize,
        MetaElement::Signed(n) => wrapped(n),
        _ => 0,
    }
}

/// The widths of the layers' feed-forward blocks, where the file has them one
/// by one.
pub open spec fn widths_of(md: Seq<MetaView>) -> Option<Seq<usize>> {
    match meta_of(md, MetaKey::FeedForwardLength) {
        Some(e) => match e.array {
            Some(a) => Some(a.map_values(|x: MetaElement| width_of(x))),
            None => None,
        },
        None => None,
    }
}

/// Why the widths of the feed-forward blocks cannot be told, if they cannot.
pub open spec fn widths_refusal(md: Seq<MetaView>) -> Option<Error> {
    let k = MetaKey::FeedForwardLength;
    match meta_of(md, k) {
        None => Some(Error::MissingMetadata { key: k }),
        Some(e) => match e.array {
            Some(a) => if forall|i: int| 0 <= i < a.len() ==> is_number(#[trigger] a[i]) {
                None
            } else {
                Some(Error::MetadataType { key: k })
            },
            None => if e.number is None {
                Some(Error::MetadataType { key: k })
            } else {
                None
            },
        },
    }
}

/// The common width of the feed-forward blocks: the first layer's, where the
/// file has them one by one.
pub open spec fn width_or_first_of(md: Seq<MetaView>) -> usize {
    match widths_of(md) {
        Some(w) => if w.len() > 0 {
            w[0]
        } else {
            0
        },
        None => number_of(md, MetaKey::FeedForwardLength),
    }
}

fn widths(md: &Metadata) -> (r: Result<(usize, Option<Vec<usize>>), Error>)
    ensures
        match r {
            Ok((first, all)) => {
                &&& widths_refusal(md@) is None
                &&& first == width_or_first_of(md@)
                &&& match all {
                    Some(v) => widths_of(md@) == Some(v@),
                    None => widths_of(md@) is None,
                }
            },
            Err(e) => widths_refusal(md@) == Some(e),
        },
{
    let k: MetaKey = MetaKey::FeedForwardLength;
    match meta(md, k) {
        None => Err(Error::MissingMetadata { key: k }),
        Some(i) => match &md.entries[i].array {
            Some(a) => {
                let n: usize = a.len();
                let mut sizes: Vec<usize> = Vec::new();
                let mut j: usize = 0;
                while j < n
                    invariant
                        n == a@.len(),
                        0 <= j <= n,
                        meta_of(md@, k) matches Some(e) && e.array == Some(a@),
                        k == MetaKey::FeedForwardLength,
                        sizes@.len() == j,
                        forall|t: int|
                            0 <= t < j ==> is_number(#[trigger] a@[t]) && sizes@[t] == width_of(
                                a@[t],
                            ),
                    decreases n - j,
                {
                    match a[j] {
                        MetaElement::Unsigned(x) => {
                            sizes.push(x as usize);
                        },
                        MetaElement::Signed(x) => {
                            sizes.push(wrap(x));
                        },
                        _ => {
                            proof {
                                assert(!is_number(a@[j as int]));
                            }
                            return Err(Error::MetadataType { key: k });
                        },
                    }
                    j = j + 1;
                }
                proof {
                    assert(sizes@ =~= a@.map_values(|x: MetaElement| width_of(x)));
                }
                let first: usize = if sizes.len() > 0 {
                    sizes[0]
                } else {
                    0
                };
                Ok((first, Some(sizes)))
            },
            None => match md.entries[i].number {
                Some(n) => Ok((n as usize, None)),
                None => Err(Error::MetadataType { key: k }),
            },
        },
    }
}

/// Period of the full-attention layers, where the file does not say which they
/// are.
pub open spec fn period_of(md: Seq<MetaView>) -> usize {
    match optional_number_of(md, MetaKey::SlidingWindowType) {
        Some(n) => n,
        None => 5,
    }
}

/// The file says of each layer whether it is a sliding one.
pub open spec fn has_pattern(md: Seq<MetaView>) -> bool {
    meta_of(md, MetaKey::SlidingWindowPattern) matches Some(e) && e.array is Some
}

/// Whether layer `i` is a sliding one. Layers beyond those that the file
/// speaks of are.
pub open spec fn slides(md: Seq<MetaView>, i: int) -> bool {
    match meta_of(md, MetaKey::SlidingWindowPattern) {
        Some(MetaView { array: Some(a), .. }) => i >= a.len() || a[i] == MetaElement::Flag(true),
        _ => (i + 1) % period_of(md) as int > 0,
    }
}

/// The name of a layer's type.
pub open spec fn layer_type_of(sliding: bool) -> Seq<char> {
    if sliding {
        "sliding_attention"@
    } else {
        "full_attention"@
    }
}

fn layer_type(sliding: bool) -> (r: String)
    ensures
        r@ == layer_type_of(sliding),
{
    if sliding {
        "sliding_attention".to_owned()
    } else {
        "full_attention".to_owned()
    }
}

/// The place behind the first full-attention layer, or behind all layers.
pub open spec fn is_pattern_length(md: Seq<MetaView>, layers: nat, r: nat) -> bool {
    ||| (1 <= r <= layers && !slides(md, r - 1) && forall|i: int| 0 <= i < r - 1 ==> #[trigger] slides(md, i))
    ||| (r == layers && forall|i: int| 0 <= i < layers ==> #[trigger] slides(md, i))
}

/// The types of `layers` layers, and the place behind the first full-attention
/// one.
fn layer_types(md: &Metadata, layers: usize) -> (r: (Vec<String>, usize))
    requires
        layers > 0 ==> period_of(md@) > 0 || has_pattern(md@),
    ensures
        r.0@.len() == layers,
        forall|i: int|
            0 <= i < layers ==> (#[trigger] r.0@[i])@ == layer_type_of(slides(md@, i)),
        is_pattern_length(md@, layers as nat, r.1 as nat),
{
    let period: usize = match optional_number(md, MetaKey::SlidingWindowType) {
        Some(n) => n,
        None => 5,
    };
    let at: Option<usize> = meta(md, MetaKey::SlidingWindowPattern);
    let mut types: Vec<String> = Vec::new();
    let mut pattern: usize = layers;
    let mut full_seen: bool = false;
    let mut i: usize = 0;
    while i < layers
        invariant
            0 <= i <= layers,
            period == period_of(md@),
            layers > 0 ==> period > 0 || has_pattern(md@),
            match at {
                Some(k) => k < md.entries@.len() && meta_of(md@, MetaKey::SlidingWindowPattern)
                    == Some(md.entries@[k as int]@),
                None => meta_of(md@, MetaKey::SlidingWindowPattern) is None,
            },
            types@.len() == i,
            forall|j: int|
                0 <= j < i ==> (#[trigger] types@[j])@ == layer_type_of(slides(md@, j)),
            !full_seen ==> pattern == layers && forall|j: int|
                0 <= j < i ==> #[trigger] slides(md@, j),
            full_seen ==> 1 <= pattern <= i && !slides(md@, pattern - 1) && forall|j: int|
                0 <= j < pattern - 1 ==> #[trigger] slides(md@, j),
        decreases layers - i,
    {
        let sliding: bool = match at {
            Some(k) => match &md.entries[k].array {
                Some(a) => i >= a.len() || a[i] == MetaElement::Flag(true),
                None => i % period != period - 1,
            },
            None => i % period != period - 1,
        };
        proof {
            if period > 0 {
                lemma_period(i as int, period as int);
            }
            assert(sliding == slides(md@, i as int));
        }
        types.push(layer_type(sliding));
        if !sliding && !full_seen {
            full_seen = true;
            pattern = i + 1;
        }
        i = i + 1;
    }
    (types, pattern)
}

proof fn lemma_period(i: int, p: int)
    requires
        i >= 0,
        p > 0,
    ensures
        ((i + 1) % p > 0) == (i % p != p - 1),
{
    let (q, r) = (i / p, i % p);
    vstd::arithmetic::div_mod::lemma_fundamental_div_mod(i, p);
    if r == p - 1 {
        assert(i + 1 == (q + 1) * p) by (nonlinear_arith)
            requires
                i == p * q + r,
                r == p - 1,
        ;
        vstd::arithmetic::div_mod::lemma_mod_multiples_basic(q + 1, p);
    } else {
        assert(i + 1 == q * p + (r + 1)) by (nonlinear_arith)
            requires
                i == p * q + r,
        ;
        vstd::arithmetic::div_mod::lemma_fundamental_div_mod_converse(i + 1, p, q, r + 1);
    }
}

/// Layers that use the keys and values of earlier ones: as many as the file
/// says, or else as models of that depth have.
pub open spec fn shared_layers_of(md: Seq<MetaView>, layers: usize) -> usize {
    let entry = match meta_of(md, MetaKey::SharedKvLayers) {
        Some(e) => Some(e),
        None => meta_of(md, MetaKey::KvSharedLayers),
    };
    match entry {
        Some(MetaView { number: Some(n), .. }) => n as usize,
        _ => if layers == 35 {
            20
        } else if layers == 30 {
            10
        } else {
            0
        },
    }
}

fn shared_layers(md: &Metadata, layers: usize) -> (r: usize)
    ensures
        r == shared_layers_of(md@, layers),
{
    let at: Option<usize> = match meta(md, MetaKey::SharedKvLayers) {
        Some(i) => Some(i),
        None => meta(md, MetaKey::KvSharedLayers),
    };
    let told: Option<u32> = match at {
        Some(i) => md.entries[i].number,
        None => None,
    };
    match told {
        Some(n) => n as usize,
        None => if layers == 35 {
            20
        } else if layers == 30 {
            10
        } else {
            0
        },
    }
}

/// The number, or one to take in its place.
pub open spec fn or_else<T>(o: Option<T>, other: T) -> T {
    match o {
        Some(v) => v,
        None => other,
    }
}

/// A million.
pub const MILLION: u64 = 0x412e_8480_0000_0000;

/// Why a float that must be there is not, if it is not.
pub open spec fn float_refusal(md: Seq<MetaView>, k: MetaKey) -> Option<Error> {
    match meta_of(md, k) {
        None => Some(Error::MissingMetadata { key: k }),
        Some(e) => if e.float is None {
            Some(Error::MetadataType { key: k })
        } else {
            None
        },
    }
}

/// The first of several reasons.
pub open spec fn first_of(a: Option<Error>, b: Option<Error>) -> Option<Error> {
    match a {
        Some(e) => Some(e),
        None => b,
    }
}

/// Why the configuration cannot be told, if it cannot; the first of several
/// reasons counts.
pub open spec fn config_refusal(md: Seq<MetaView>, dir: Seq<TensorInfoView>) -> Option<Error> {
    let counts = first_of(
        number_refusal(md, MetaKey::HeadCount),
        first_of(
            number_refusal(md, MetaKey::HeadCountKv),
            first_of(
                number_refusal(md, MetaKey::BlockCount),
                number_refusal(md, MetaKey::EmbeddingLength),
            ),
        ),
    );
    let rest = first_of(
        number_refusal(md, MetaKey::KeyLength),
        first_of(
            float_refusal(md, MetaKey::RmsEpsilon),
            first_of(
                number_refusal(md, MetaKey::ContextLength),
                if find(dir, top_request_of(TopTensor::TokenEmbedding).name) is None {
                    Some(Error::MissingTensor { leaf: Leaf::Top(TopTensor::TokenEmbedding) })
                } else {
                    None
                },
            ),
        ),
    );
    first_of(counts, first_of(widths_refusal(md), rest))
}

/// The configuration is the one that the file describes.
pub open spec fn describes(
    md: Seq<MetaView>,
    dir: Seq<TensorInfoView>,
    c: &Gemma4TextConfig,
) -> bool {
    let base = or_else(optional_float_of(md, MetaKey::FreqBase), F64Bits { bits: MILLION });
    let base_swa = or_else(
        optional_float_of(md, MetaKey::FreqBaseSwa),
        F64Bits { bits: TEN_THOUSAND },
    );
    let quarter = Some(F64Bits { bits: QUARTER });
    let layers = number_of(md, MetaKey::BlockCount);
    let full_dim = number_of(md, MetaKey::KeyLength);
    &&& c.num_attention_heads == number_of(md, MetaKey::HeadCount)
    &&& c.num_key_value_heads == number_of(md, MetaKey::HeadCountKv)
    &&& c.num_hidden_layers == layers
    &&& c.hidden_size == number_of(md, MetaKey::EmbeddingLength)
    &&& c.intermediate_size == width_or_first_of(md)
    &&& match c.intermediate_sizes {
        Some(v) => widths_of(md) == Some(v@),
        None => widths_of(md) is None,
    }
    &&& c.head_dim == or_else(optional_number_of(md, MetaKey::KeyLengthSwa), full_dim)
    &&& c.global_head_dim == full_dim
    &&& c.rms_norm_eps == meta_of(md, MetaKey::RmsEpsilon)->0.float->0
    &&& c.max_position_embeddings == number_of(md, MetaKey::ContextLength)
    &&& c.vocab_size == dir[find(dir, top_request_of(TopTensor::TokenEmbedding).name)->0].dims[0]
    &&& c.sliding_window == or_else(optional_number_of(md, MetaKey::SlidingWindow), 512)
    &&& c.layer_types@.len() == layers
    &&& forall|i: int|
        0 <= i < layers ==> (#[trigger] c.layer_types@[i])@ == layer_type_of(slides(md, i))
    &&& is_pattern_length(md, layers as nat, c.sliding_window_pattern as nat)
    &&& c.num_kv_shared_layers == shared_layers_of(md, layers)
    &&& c.final_logit_softcapping == optional_float_of(md, MetaKey::FinalLogitSoftcapping)
    &&& c.hidden_size_per_layer_input == optional_number_of(md, MetaKey::PerLayerInputLength)
    &&& c.rope_theta == base
    &&& c.rope_parameters matches Some(rp) && {
        &&& rp.rope_theta == Some(base)
        &&& rp.rope_type is None
        &&& rp.partial_rotary_factor == quarter
        &&& rp.full_attention matches Some(f) && f.rope_theta == Some(base) && f.rope_type is None
            && f.partial_rotary_factor == quarter
        &&& rp.sliding_attention matches Some(s) && s.rope_theta == Some(base_swa)
            && s.rope_type is None && s.partial_rotary_factor is None
    }
    &&& c.hidden_activation == Activation::GeluPytorchTanh
    &&& c.query_pre_attn_scalar == 1
    &&& c.tie_word_embeddings && !c.attention_bias && !c.use_flash_attn
    &&& c.num_global_key_value_heads is None
    &&& c.use_bidirectional_attention is None
    &&& c.vocab_size_per_layer_input is None
    &&& c.altup_num_inputs == 1 && c.altup_active_idx == 0 && !c.altup_correct_scale
    &&& c.altup_coef_clip is None
    &&& c.laurel_rank == 0
    &&& c.activation_sparsity_pattern is None
    &&& c.disable_altup && c.disable_laurel && !c.disable_per_layer_input_gate
}

/// The configuration that a file's metadata describes.
#[verifier::rlimit(40)]
pub fn build_config_from_gguf(md: &Metadata, dir: &Directory) -> (r: Result<
    Gemma4TextConfig,
    Error,
>)
    requires
        config_refusal(md@, dir@) is None ==> {
            &&& dir@[find(dir@, top_request_of(TopTensor::TokenEmbedding).name)->0].dims.len() > 0
            &&& number_of(md@, MetaKey::BlockCount) > 0 ==> period_of(md@) > 0 || has_pattern(md@)
        },
    ensures
        match r {
            Ok(c) => config_refusal(md@, dir@) is None && describes(md@, dir@, &c),
            Err(e) => config_refusal(md@, dir@) == Some(e),
        },
{
    let num_attention_heads: usize = match number(md, MetaKey::HeadCount) {
        Ok(n) => n,
        Err(e) => {
            return Err(e);
        },
    };
    let num_key_value_heads: usize = match number(md, MetaKey::HeadCountKv) {
        Ok(n) => n,
        Err(e) => {
            return Err(e);
        },
    };
    let num_hidden_layers: usize = match number(md, MetaKey::BlockCount) {
        Ok(n) => n,
        Err(e) => {
            return Err(e);
        },
    };
    let hidden_size: usize = match number(md, MetaKey::EmbeddingLength) {
        Ok(n) => n,
        Err(e) => {
            return Err(e);
        },
    };
    let (intermediate_size, intermediate_sizes): (usize, Option<Vec<usize>>) = match widths(md) {
        Ok(w) => w,
        Err(e) => {
            return Err(e);
        },
    };
    let global_head_dim: usize = match number(md, MetaKey::KeyLength) {
        Ok(n) => n,
        Err(e) => {
            return Err(e);
        },
    };
    let head_dim: usize = match optional_number(md, MetaKey::KeyLengthSwa) {
        Some(n) => n,
        None => global_head_dim,
    };
    let rms_norm_eps: F64Bits = match meta(md, MetaKey::RmsEpsilon) {
        Some(i) => match md.entries[i].float {
            Some(f) => f,
            None => {
                return Err(Error::MetadataType { key: MetaKey::RmsEpsilon });
            },
        },
        None => {
            return Err(Error::MissingMetadata { key: MetaKey::RmsEpsilon });
        },
    };
    let max_position_embeddings: usize = match number(md, MetaKey::ContextLength) {
        Ok(n) => n,
        Err(e) => {
            return Err(e);
        },
    };
    let rope_theta: F64Bits = match optional_float(md, MetaKey::FreqBase) {
        Some(f) => f,
        None => F64Bits { bits: MILLION },
    };
    let rope_theta_swa: F64Bits = match optional_float(md, MetaKey::FreqBaseSwa) {
        Some(f) => f,
        None => F64Bits { bits: TEN_THOUSAND },
    };
    let token = top_request(TopTensor::TokenEmbedding);
    let vocab_size: usize = match dir.position(token.name.as_str()) {
        Some(i) => {
            proof {
                assert(dir@[i as int] == dir.tensors@[i as int]@);
            }
            dir.tensors[i].dims[0]
        },
        None => {
            return Err(Error::MissingTensor { leaf: Leaf::Top(TopTensor::TokenEmbedding) });
        },
    };
    let sliding_window: usize = match optional_number(md, MetaKey::SlidingWindow) {
        Some(n) => n,
        None => 512,
    };
    let (types, sliding_window_pattern): (Vec<String>, usize) = layer_types(md, num_hidden_layers);
    let quarter: Option<F64Bits> = Some(F64Bits { bits: QUARTER });
    let rope_parameters: Gemma4RopeParameters = Gemma4RopeParameters {
        full_attention: Some(
            Gemma4RopeLayerParams {
                rope_theta: Some(rope_theta),
                rope_type: None,
                partial_rotary_factor: quarter,
            },
        ),
        sliding_attention: Some(
            Gemma4RopeLayerParams {
                rope_theta: Some(rope_theta_swa),
                rope_type: None,
                partial_rotary_factor: None,
            },
        ),
        rope_theta: Some(rope_theta),
        rope_type: None,
        partial_rotary_factor: quarter,
    };
    Ok(
        Gemma4TextConfig {
            attention_bias: false,
            head_dim,
            hidden_activation: Activation::GeluPytorchTanh,
            hidden_size,
            intermediate_size,
            intermediate_sizes,
            num_attention_heads,
            num_hidden_layers,
            num_key_value_heads,
            rms_norm_eps,
            rope_theta,
            vocab_size,
            sliding_window,
            final_logit_softcapping: optional_float(md, MetaKey::FinalLogitSoftcapping),
            query_pre_attn_scalar: 1,
            max_position_embeddings,
            tie_word_embeddings: true,
            sliding_window_pattern,
            layer_types: types,
            global_head_dim,
            num_global_key_value_heads: None,
            rope_parameters: Some(rope_parameters),
            use_bidirectional_attention: None,
            use_flash_attn: false,
            hidden_size_per_layer_input: optional_number(md, MetaKey::PerLayerInputLength),
            vocab_size_per_layer_input: None,
            altup_num_inputs: 1,
            altup_active_idx: 0,
            altup_correct_scale: false,
            altup_coef_clip: None,
            laurel_rank: 0,
            activation_sparsity_pattern: None,
            disable_altup: true,
            disable_laurel: true,
            disable_per_layer_input_gate: false,
            num_kv_shared_layers: shared_layers(md, num_hidden_layers),
        },
    )
}

/// A layer that the metadata makes a sliding one is a sliding one of the
/// configuration, and no other is.
pub proof fn law_layer_types_agree(
    md: Seq<MetaView>,
    dir: Seq<TensorInfoView>,
    c: &Gemma4TextConfig,
    i: int,
)
    requires
        describes(md, dir, c),
        0 <= i < c.num_hidden_layers,
    ensures
        c.spec_is_sliding(i) == slides(md, i),
{
    reveal_strlit("sliding_attention");
    reveal_strlit("full_attention");
    assert("sliding_attention"@.len() != "full_attention"@.len());
    assert(c.layer_types@[i]@ == layer_type_of(slides(md, i)));
}

} // verus!
