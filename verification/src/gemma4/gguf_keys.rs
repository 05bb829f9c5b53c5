//! Which entries of a GGUF file's metadata make up the configuration, by the
//! text of their keys.

use crate::gemma4::config::{Activation, F64Bits, Gemma4TextConfig};
use crate::gemma4::gguf_config::{
    config_refusal, describes, entry_of, is_number, key_tail_of, layer_type_of, meta_of, prefix_of,
    slides, MetaElement, MetaKey, MetaView,
};
use crate::gemma4::weights::{find, law_find, TensorInfoView};
use vstd::prelude::*;
use vstd::string::*;

verus! {

/// Entry `i` is the first of its key.
pub open spec fn is_first(md: Seq<MetaView>, key: Seq<char>, i: int) -> bool {
    &&& 0 <= i < md.len() && md[i].key == key
    &&& forall|j: int| 0 <= j < i ==> (#[trigger] md[j]).key != key
}

/// There is an entry of the key.
pub open spec fn has_key(md: Seq<MetaView>, key: Seq<char>) -> bool {
    exists|i: int| 0 <= i < md.len() && (#[trigger] md[i]).key == key
}

/// The first entry of the key is the number `n`.
pub open spec fn says_number(md: Seq<MetaView>, key: Seq<char>, n: u32) -> bool {
    exists|i: int| #[trigger] is_first(md, key, i) && md[i].number == Some(n)
}

/// The first entry of the key is the float `f`.
pub open spec fn says_float(md: Seq<MetaView>, key: Seq<char>, f: F64Bits) -> bool {
    exists|i: int| #[trigger] is_first(md, key, i) && md[i].float == Some(f)
}

/// The first entry of the key is the array `a`.
pub open spec fn says_array(md: Seq<MetaView>, key: Seq<char>, a: Seq<MetaElement>) -> bool {
    exists|i: int| #[trigger] is_first(md, key, i) && md[i].array == Some(a)
}

/// The file speaks of a model of the given family: of the fourth, unless only
/// the third has its heads counted.
pub open spec fn is_family(md: Seq<MetaView>, family: Seq<char>) -> bool {
    if has_key(md, "gemma3"@ + ".attention.head_count"@) && !has_key(
        md,
        "gemma4"@ + ".attention.head_count"@,
    ) {
        family == "gemma3"@
    } else {
        family == "gemma4"@
    }
}

proof fn lemma_entry(md: Seq<MetaView>, key: Seq<char>)
    ensures
        entry_of(md, key) is Some <==> has_key(md, key),
        forall|i: int| #[trigger] is_first(md, key, i) ==> entry_of(md, key) == Some(md[i]),
        entry_of(md, key) matches Some(e) ==> exists|i: int| #[trigger] is_first(md, key, i) && md[i]
            == e,
    decreases md.len(),
{
    if md.len() > 0 {
        let rest = md.skip(1);
        lemma_entry(rest, key);
        assert forall|i: int| 0 <= i < rest.len() implies #[trigger] rest[i] == md[i + 1] by {}
        if md[0].key == key {
            assert(is_first(md, key, 0));
            assert forall|i: int| #[trigger] is_first(md, key, i) implies i == 0 by {
                if i > 0 {
                    assert(md[0].key != key);
                }
            }
        } else {
            if has_key(md, key) {
                let i = choose|i: int| 0 <= i < md.len() && (#[trigger] md[i]).key == key;
                assert(rest[i - 1].key == key);
            }
            if has_key(rest, key) {
                let i = choose|i: int| 0 <= i < rest.len() && (#[trigger] rest[i]).key == key;
                assert(md[i + 1].key == key);
            }
            assert forall|i: int| #[trigger] is_first(md, key, i) implies entry_of(md, key) == Some(
                md[i],
            ) by {
                assert(i > 0);
                assert forall|j: int| 0 <= j < i - 1 implies (#[trigger] rest[j]).key != key by {
                    assert(md[j + 1].key != key);
                }
                assert(is_first(rest, key, i - 1));
            }
            if let Some(e) = entry_of(md, key) {
                let i = choose|i: int| #[trigger] is_first(rest, key, i) && rest[i] == e;
                assert forall|j: int| 0 <= j < i + 1 implies (#[trigger] md[j]).key != key by {
                    if j > 0 {
                        assert(rest[j - 1].key != key);
                    }
                }
                assert(is_first(md, key, i + 1));
            }
        }
    }
}

proof fn lemma_meta(md: Seq<MetaView>, family: Seq<char>, k: MetaKey)
    requires
        is_family(md, family),
    ensures
        prefix_of(md) == family,
        meta_of(md, k) is Some <==> has_key(md, family + key_tail_of(k)),
        forall|n: u32|
            #[trigger] says_number(md, family + key_tail_of(k), n) ==> meta_of(md, k) is Some
                && meta_of(md, k)->0.number == Some(n),
        forall|f: F64Bits|
            #[trigger] says_float(md, family + key_tail_of(k), f) ==> meta_of(md, k) is Some
                && meta_of(md, k)->0.float == Some(f),
        forall|a: Seq<MetaElement>|
            #[trigger] says_array(md, family + key_tail_of(k), a) ==> meta_of(md, k) is Some
                && meta_of(md, k)->0.array == Some(a),
        meta_of(md, k) matches Some(e) ==> {
            &&& e.number matches Some(n) ==> says_number(md, family + key_tail_of(k), n)
            &&& e.float matches Some(f) ==> says_float(md, family + key_tail_of(k), f)
            &&& e.array matches Some(a) ==> says_array(md, family + key_tail_of(k), a)
        },
{
    lemma_entry(md, "gemma4"@ + ".attention.head_count"@);
    lemma_entry(md, "gemma3"@ + ".attention.head_count"@);
    lemma_entry(md, family + key_tail_of(k));
}

/// The numbers that a file must have, it has under these keys, and each makes
/// up what is named here.
pub proof fn law_counts(
    md: Seq<MetaView>,
    dir: Seq<TensorInfoView>,
    c: &Gemma4TextConfig,
    family: Seq<char>,
    n: u32,
)
    requires
        is_family(md, family),
        describes(md, dir, c),
    ensures
        says_number(md, family + ".attention.head_count"@, n) ==> c.num_attention_heads == n,
        says_number(md, family + ".attention.head_count_kv"@, n) ==> c.num_key_value_heads == n,
        says_number(md, family + ".block_count"@, n) ==> c.num_hidden_layers == n
            && c.layer_types@.len() == n,
        says_number(md, family + ".embedding_length"@, n) ==> c.hidden_size == n,
        says_number(md, family + ".context_length"@, n) ==> c.max_position_embeddings == n,
        says_number(md, family + ".attention.key_length"@, n) ==> c.global_head_dim == n,
{
    lemma_meta(md, family, MetaKey::HeadCount);
    lemma_meta(md, family, MetaKey::HeadCountKv);
    lemma_meta(md, family, MetaKey::BlockCount);
    lemma_meta(md, family, MetaKey::EmbeddingLength);
    lemma_meta(md, family, MetaKey::ContextLength);
    lemma_meta(md, family, MetaKey::KeyLength);
}

/// A sliding layer's heads are as wide as their own entry says, or else as
/// wide as the others.
pub proof fn law_head_widths(
    md: Seq<MetaView>,
    dir: Seq<TensorInfoView>,
    c: &Gemma4TextConfig,
    family: Seq<char>,
    n: u32,
)
    requires
        is_family(md, family),
        describes(md, dir, c),
    ensures
        says_number(md, family + ".attention.key_length_swa"@, n) ==> c.head_dim == n,
        !has_key(md, family + ".attention.key_length_swa"@) && says_number(
            md,
            family + ".attention.key_length"@,
            n,
        ) ==> c.head_dim == n,
{
    lemma_meta(md, family, MetaKey::KeyLengthSwa);
    lemma_meta(md, family, MetaKey::KeyLength);
}

/// The base of the full-attention layers' rotations and that of the sliding
/// layers' have entries of their own; where they lack, the bases are a million
/// and ten thousand. A full-attention layer turns a quarter of its heads.
pub proof fn law_rotation_bases(
    md: Seq<MetaView>,
    dir: Seq<TensorInfoView>,
    c: &Gemma4TextConfig,
    family: Seq<char>,
    f: F64Bits,
)
    requires
        is_family(md, family),
        describes(md, dir, c),
    ensures
        c.rope_parameters matches Some(rp) && rp.full_attention matches Some(full)
            && rp.sliding_attention matches Some(sliding) && {
            let wide = c.rope_theta == f && rp.rope_theta == Some(f) && full.rope_theta == Some(f);
            &&& says_float(md, family + ".rope.freq_base"@, f) ==> wide
            &&& !has_key(md, family + ".rope.freq_base"@) && f.bits == 0x412e_8480_0000_0000
                ==> wide
            &&& says_float(md, family + ".rope.freq_base_swa"@, f) ==> sliding.rope_theta == Some(f)
            &&& !has_key(md, family + ".rope.freq_base_swa"@) && f.bits == 0x40c3_8800_0000_0000
                ==> sliding.rope_theta == Some(f)
            &&& full.partial_rotary_factor == Some(F64Bits { bits: 0x3fd0_0000_0000_0000 })
            &&& sliding.partial_rotary_factor is None
        },
{
    lemma_meta(md, family, MetaKey::FreqBase);
    lemma_meta(md, family, MetaKey::FreqBaseSwa);
}

/// The small number that normalizations add, and the cap of the logits.
pub proof fn law_floats(
    md: Seq<MetaView>,
    dir: Seq<TensorInfoView>,
    c: &Gemma4TextConfig,
    family: Seq<char>,
    f: F64Bits,
)
    requires
        is_family(md, family),
        describes(md, dir, c),
    ensures
        says_float(md, family + ".attention.layer_norm_rms_epsilon"@, f) ==> c.rms_norm_eps == f,
        says_float(md, family + ".final_logit_softcapping"@, f) <==> c.final_logit_softcapping
            == Some(f),
{
    lemma_meta(md, family, MetaKey::RmsEpsilon);
    lemma_meta(md, family, MetaKey::FinalLogitSoftcapping);
}

/// The window of the sliding layers and the width of the auxiliary embedding:
/// the window is 512 where the file does not tell it, and there is no
/// auxiliary embedding where the file does not tell its width.
pub proof fn law_window_and_side(
    md: Seq<MetaView>,
    dir: Seq<TensorInfoView>,
    c: &Gemma4TextConfig,
    family: Seq<char>,
    n: u32,
)
    requires
        is_family(md, family),
        describes(md, dir, c),
    ensures
        says_number(md, family + ".attention.sliding_window"@, n) ==> c.sliding_window == n,
        !has_key(md, family + ".attention.sliding_window"@) ==> c.sliding_window == 512,
        says_number(md, family + ".embedding_length_per_layer_input"@, n)
            <==> c.hidden_size_per_layer_input == Some(n as usize),
        !has_key(md, family + ".embedding_length_per_layer_input"@)
            ==> c.hidden_size_per_layer_input is None,
{
    lemma_meta(md, family, MetaKey::SlidingWindow);
    lemma_meta(md, family, MetaKey::PerLayerInputLength);
}

/// The feed-forward blocks are as wide as the file says: all alike, or each by
/// its own entry of an array.
pub proof fn law_feed_forward_widths(
    md: Seq<MetaView>,
    dir: Seq<TensorInfoView>,
    c: &Gemma4TextConfig,
    family: Seq<char>,
    n: u32,
    a: Seq<MetaElement>,
    i: int,
)
    requires
        is_family(md, family),
        describes(md, dir, c),
    ensures
        ({
            let key = family + ".feed_forward_length"@;
            &&& says_number(md, key, n) && (forall|b: Seq<MetaElement>| !says_array(md, key, b))
                ==> c.spec_intermediate_size_at(i) == n
            &&& says_array(md, key, a) && 0 <= i < a.len() ==> (match a[i] {
                MetaElement::Unsigned(w) => c.spec_intermediate_size_at(i) == w,
                MetaElement::Signed(w) => w >= 0 ==> c.spec_intermediate_size_at(i) == w,
                _ => true,
            })
        }),
{
    lemma_meta(md, family, MetaKey::FeedForwardLength);
    let key = family + ".feed_forward_length"@;
    if says_number(md, key, n) && (forall|b: Seq<MetaElement>| !says_array(md, key, b)) {
        if let Some(b) = meta_of(md, MetaKey::FeedForwardLength)->0.array {
            assert(says_array(md, key, b));
        }
    }
}

/// Layer `i` is a sliding one where the file says so of it. Where the file
/// says nothing of the layers, every so many-th of them is a full-attention
/// one, as often as the file says, or every fifth.
pub proof fn law_layer_types(
    md: Seq<MetaView>,
    dir: Seq<TensorInfoView>,
    c: &Gemma4TextConfig,
    family: Seq<char>,
    a: Seq<MetaElement>,
    n: u32,
    i: int,
)
    requires
        is_family(md, family),
        describes(md, dir, c),
        0 <= i < c.num_hidden_layers,
        n > 0,
    ensures
        says_array(md, family + ".attention.sliding_window_pattern"@, a) && i < a.len() ==> (
        c.spec_is_sliding(i) <==> a[i] == MetaElement::Flag(true)),
        says_array(md, family + ".attention.sliding_window_pattern"@, a) && i >= a.len()
            ==> c.spec_is_sliding(i),
        !has_key(md, family + ".attention.sliding_window_pattern"@) && says_number(
            md,
            family + ".attention.sliding_window_type"@,
            n,
        ) ==> (c.spec_is_sliding(i) <==> (i + 1) % n as int != 0),
        !has_key(md, family + ".attention.sliding_window_pattern"@) && !has_key(
            md,
            family + ".attention.sliding_window_type"@,
        ) ==> (c.spec_is_sliding(i) <==> (i + 1) % 5 != 0),
        !c.spec_is_sliding(i) ==> c.layer_types@[i]@ == "full_attention"@,
{
    lemma_meta(md, family, MetaKey::SlidingWindowPattern);
    lemma_meta(md, family, MetaKey::SlidingWindowType);
    reveal_strlit("sliding_attention");
    reveal_strlit("full_attention");
    assert("sliding_attention"@.len() != "full_attention"@.len());
    assert(c.layer_types@[i]@ == layer_type_of(slides(md, i)));
}

/// Layers that share keys and values are counted by one of two entries, the
/// first of which goes before the other.
pub proof fn law_shared_layers(
    md: Seq<MetaView>,
    dir: Seq<TensorInfoView>,
    c: &Gemma4TextConfig,
    family: Seq<char>,
    n: u32,
)
    requires
        is_family(md, family),
        describes(md, dir, c),
    ensures
        ({
            let first = family + ".attention.shared_kv_layers"@;
            let second = family + ".attention.kv_shared_layers"@;
            &&& says_number(md, first, n) ==> c.num_kv_shared_layers == n
            &&& !has_key(md, first) && says_number(md, second, n) ==> c.num_kv_shared_layers == n
            &&& !has_key(md, first) && !has_key(md, second) ==> c.num_kv_shared_layers == (
            if c.num_hidden_layers == 35 {
                20int
            } else if c.num_hidden_layers == 30 {
                10
            } else {
                0
            })
        }),
{
    lemma_meta(md, family, MetaKey::SharedKvLayers);
    lemma_meta(md, family, MetaKey::KvSharedLayers);
}

/// The vocabulary has an entry for each row of the token embeddings' table.
pub proof fn law_vocabulary(
    md: Seq<MetaView>,
    dir: Seq<TensorInfoView>,
    c: &Gemma4TextConfig,
    i: int,
)
    requires
        config_refusal(md, dir) is None,
        describes(md, dir, c),
        0 <= i < dir.len(),
        dir[i].name == "token_embd.weight"@,
        forall|j: int| 0 <= j < i ==> (#[trigger] dir[j]).name != "token_embd.weight"@,
    ensures
        c.vocab_size == dir[i].dims[0],
{
    law_find(dir, "token_embd.weight"@);
    let k = find(dir, "token_embd.weight"@)->0;
    assert(k == i) by {
        if k < i {
            assert(dir[k].name != "token_embd.weight"@);
        }
    }
}

/// What the metadata does not tell is what models of these families have.
pub proof fn law_fixed_parts(md: Seq<MetaView>, dir: Seq<TensorInfoView>, c: &Gemma4TextConfig)
    requires
        describes(md, dir, c),
    ensures
        c.hidden_activation == Activation::GeluPytorchTanh,
        c.query_pre_attn_scalar == 1,
        c.tie_word_embeddings && !c.attention_bias && !c.use_flash_attn,
        c.num_global_key_value_heads is None,
        c.use_bidirectional_attention is None,
        c.altup_num_inputs == 1 && c.laurel_rank == 0,
        c.disable_altup && c.disable_laurel && !c.disable_per_layer_input_gate,
{
}

/// The configuration can be told exactly where the file has these entries, of
/// these types, and the token embeddings' table.
pub proof fn law_required_entries(md: Seq<MetaView>, dir: Seq<TensorInfoView>, family: Seq<char>)
    requires
        is_family(md, family),
    ensures
        config_refusal(md, dir) is None <==> {
            &&& exists|n: u32| says_number(md, family + ".attention.head_count"@, n)
            &&& exists|n: u32| says_number(md, family + ".attention.head_count_kv"@, n)
            &&& exists|n: u32| says_number(md, family + ".block_count"@, n)
            &&& exists|n: u32| says_number(md, family + ".embedding_length"@, n)
            &&& exists|n: u32| says_number(md, family + ".attention.key_length"@, n)
            &&& exists|n: u32| says_number(md, family + ".context_length"@, n)
            &&& exists|f: F64Bits|
                says_float(md, family + ".attention.layer_norm_rms_epsilon"@, f)
            &&& {
                ||| exists|a: Seq<MetaElement>|
                    #[trigger] says_array(md, family + ".feed_forward_length"@, a) && forall|i: int|
                        0 <= i < a.len() ==> is_number(#[trigger] a[i])
                ||| (exists|n: u32| says_number(md, family + ".feed_forward_length"@, n)) && forall|
                    a: Seq<MetaElement>,
                | !says_array(md, family + ".feed_forward_length"@, a)
            }
            &&& exists|i: int| 0 <= i < dir.len() && (#[trigger] dir[i]).name
                == "token_embd.weight"@
        },
{
    lemma_meta(md, family, MetaKey::HeadCount);
    lemma_meta(md, family, MetaKey::HeadCountKv);
    lemma_meta(md, family, MetaKey::BlockCount);
    lemma_meta(md, family, MetaKey::EmbeddingLength);
    lemma_meta(md, family, MetaKey::KeyLength);
    lemma_meta(md, family, MetaKey::ContextLength);
    lemma_meta(md, family, MetaKey::RmsEpsilon);
    lemma_meta(md, family, MetaKey::FeedForwardLength);
    law_find(dir, "token_embd.weight"@);
    if let Some(e) = meta_of(md, MetaKey::FeedForwardLength) {
        if let Some(a) = e.array {
            assert(says_array(md, family + ".feed_forward_length"@, a));
        }
        if let Some(n) = e.number {
            assert(says_number(md, family + ".feed_forward_length"@, n));
        }
    }
}

} // verus!
