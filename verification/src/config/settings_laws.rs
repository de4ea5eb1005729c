//! Where the settings of a model and of a generation come from.
use vstd::prelude::*;

use crate::config::file_config::{CacheFileConfig, GenerationFileConfig};
use crate::config::generation_config::{
    default_generation_config, metadata_config, resolved_generation_config, tuned,
    GenerationConfigBuilder,
};
use crate::config::model_cache_config::{resolved_cache_config, ModelCacheConfigBuilder};
use crate::config::model_config::{architecture_of, ModelArchitecture, ModelConfig};
use crate::config::parser::deepseek2::deepseek2_config;
use crate::config::parser::lfm2::lfm2_config;
use crate::config::parser::utility::{heads_by_layer, kv_count, kv_counts_of_key};
use crate::config::tokenizer_config::tokenizer_settings;
use crate::float::Float32;
use crate::gguf::lookup::{
    first_with_key, flag_of_key, float_of_key, id_of_key, integers_among, integers_of_key,
    last_size, last_with_key, size_of_key, text_of_key, texts_among, texts_of_key,
};
use crate::gguf::types::{GgufInfo, GgufKVMeta, GgufValue};
use crate::inference::engine::marker_tokens;
use crate::inference::types::ToolFormatStyle;
use crate::text::{list_of, text_of};
use crate::types::{ModelCacheFragmentation, ReasoningEffort, ToolChoiceMode, ToolChoiceView};

verus! {

/// The last entry with a key decides what the key gives, each kind of value in its own way.
pub proof fn law_last_entry_decides(entries: Seq<GgufKVMeta>, key: Seq<char>, i: int)
    requires
        0 <= i < entries.len(),
        entries[i].key@ == key,
        forall|k: int| i < k < entries.len() ==> (#[trigger] entries[k]).key@ != key,
    ensures
        last_with_key(entries, key) == Some(entries[i]),
        entries[i].value matches GgufValue::Uint32(n) ==> {
            &&& size_of_key(entries, key) matches Some(size) && size == n
            &&& id_of_key(entries, key) == Some(n)
            &&& flag_of_key(entries, key) is None
            &&& text_of_key(entries, key) is None
        },
        entries[i].value matches GgufValue::Float32(x) ==> {
            &&& float_of_key(entries, key) == Some(x)
            &&& size_of_key(entries, key) is None
        },
        entries[i].value matches GgufValue::Bool(b) ==> flag_of_key(entries, key) == Some(b),
        entries[i].value matches GgufValue::String(text) ==> {
            &&& text_of_key(entries, key) == Some(text@)
            &&& size_of_key(entries, key) is None
            &&& texts_of_key(entries, key) is None
        },
        entries[i].value matches GgufValue::Array(items) ==> {
            &&& texts_of_key(entries, key) == Some(texts_among(items@))
            &&& integers_of_key(entries, key) == Some(integers_among(items@))
        },
    decreases entries.len() - i,
{
    lemma_last_from(entries, key, i);
}

proof fn lemma_last_from(entries: Seq<GgufKVMeta>, key: Seq<char>, i: int)
    requires
        0 <= i < entries.len(),
        entries[i].key@ == key,
        forall|k: int| i < k < entries.len() ==> (#[trigger] entries[k]).key@ != key,
    ensures
        last_with_key(entries, key) == Some(entries[i]),
    decreases entries.len(),
{
    if i < entries.len() - 1 {
        assert(entries[entries.len() - 1] == entries.last());
        let rest = entries.drop_last();
        assert forall|k: int| i < k < rest.len() implies (#[trigger] rest[k]).key@ != key by {
            assert(rest[k] == entries[k]);
        }
        lemma_last_from(rest, key, i);
    }
}

/// A key that no entry has gives nothing.
pub proof fn law_no_entry_gives_nothing(entries: Seq<GgufKVMeta>, key: Seq<char>)
    requires
        forall|k: int| 0 <= k < entries.len() ==> (#[trigger] entries[k]).key@ != key,
    ensures
        last_with_key(entries, key) is None,
        first_with_key(entries, key) is None,
        size_of_key(entries, key) is None,
        float_of_key(entries, key) is None,
        id_of_key(entries, key) is None,
        flag_of_key(entries, key) is None,
        text_of_key(entries, key) is None,
        texts_of_key(entries, key) is None,
        integers_of_key(entries, key) is None,
    decreases entries.len(),
{
    if entries.len() > 0 {
        assert(entries[entries.len() - 1] == entries.last());
        let rest = entries.drop_last();
        assert forall|k: int| 0 <= k < rest.len() implies (#[trigger] rest[k]).key@ != key by {
            assert(rest[k] == entries[k]);
        }
        law_no_entry_gives_nothing(rest, key);
        let behind = entries.skip(1);
        assert forall|k: int| 0 <= k < behind.len() implies (#[trigger] behind[k]).key@ != key by {
            assert(behind[k] == entries[k + 1]);
        }
        law_no_entry_gives_nothing(behind, key);
    }
}

/// The first entry with a key is the one before which none has it.
pub proof fn law_first_entry(entries: Seq<GgufKVMeta>, key: Seq<char>, i: int)
    requires
        0 <= i < entries.len(),
        entries[i].key@ == key,
        forall|k: int| 0 <= k < i ==> (#[trigger] entries[k]).key@ != key,
    ensures
        first_with_key(entries, key) == Some(entries[i]),
    decreases i,
{
    if i > 0 {
        let rest = entries.skip(1);
        assert(rest[i - 1] == entries[i]);
        assert(entries[0].key@ != key);
        assert forall|k: int| 0 <= k < i - 1 implies (#[trigger] rest[k]).key@ != key by {
            assert(rest[k] == entries[k + 1]);
        }
        law_first_entry(rest, key, i - 1);
    }
}

/// The texts of an array that holds nothing else are all of its items, in their order.
pub proof fn law_all_texts_are_listed(items: Seq<GgufValue>)
    requires
        forall|k: int| 0 <= k < items.len() ==> (#[trigger] items[k]) is String,
    ensures
        texts_among(items).len() == items.len(),
        forall|k: int|
            0 <= k < items.len() ==> #[trigger] texts_among(items)[k] == items[k]->String_0@,
    decreases items.len(),
{
    if items.len() > 0 {
        let rest = items.drop_last();
        assert(items[items.len() - 1] == items.last());
        assert forall|k: int| 0 <= k < rest.len() implies (#[trigger] rest[k]) is String by {
            assert(rest[k] == items[k]);
        }
        law_all_texts_are_listed(rest);
        assert forall|k: int| 0 <= k < items.len() implies #[trigger] texts_among(items)[k]
            == items[k]->String_0@ by {
            if k < rest.len() {
                assert(texts_among(rest)[k] == rest[k]->String_0@);
            }
        }
    }
}

/// The integers of an array that holds nothing else are all of its items, in their order.
pub proof fn law_all_integers_are_listed(items: Seq<GgufValue>)
    requires
        forall|k: int| 0 <= k < items.len() ==> (#[trigger] items[k]) is Int32,
    ensures
        integers_among(items).len() == items.len(),
        forall|k: int|
            0 <= k < items.len() ==> #[trigger] integers_among(items)[k] == items[k]->Int32_0,
    decreases items.len(),
{
    if items.len() > 0 {
        let rest = items.drop_last();
        assert(items[items.len() - 1] == items.last());
        assert forall|k: int| 0 <= k < rest.len() implies (#[trigger] rest[k]) is Int32 by {
            assert(rest[k] == items[k]);
        }
        law_all_integers_are_listed(rest);
        assert forall|k: int| 0 <= k < items.len() implies #[trigger] integers_among(items)[k]
            == items[k]->Int32_0 by {
            if k < rest.len() {
                assert(integers_among(rest)[k] == rest[k]->Int32_0);
            }
        }
    }
}

/// A value that is taken for a number of another type is the same number, and a negative one is no
/// size.
pub proof fn law_values_keep_their_number(value: GgufValue)
    ensures
        value matches GgufValue::Uint8(v) ==> {
            &&& value.usize_value() matches Some(n) && n == v
            &&& value.u32_value() matches Some(n) && n == v
            &&& value.i32_value() matches Some(n) && n == v
            &&& value.i64_value() matches Some(n) && n == v
            &&& value.bool_value() == (if v == 0 {
                Some(false)
            } else if v == 1 {
                Some(true)
            } else {
                None
            })
        },
        value matches GgufValue::Uint16(v) ==> {
            &&& value.usize_value() matches Some(n) && n == v
            &&& value.u32_value() matches Some(n) && n == v
            &&& value.i32_value() matches Some(n) && n == v
            &&& value.i64_value() matches Some(n) && n == v
            &&& value.bool_value() is None
        },
        value matches GgufValue::Uint32(v) ==> {
            &&& value.usize_value() matches Some(n) && n == v
            &&& value.u32_value() matches Some(n) && n == v
            &&& value.i64_value() matches Some(n) && n == v
        },
        value matches GgufValue::Int16(v) ==> {
            &&& v >= 0 ==> (value.usize_value() matches Some(n) && n == v)
            &&& v < 0 ==> value.usize_value() is None
            &&& value.i32_value() matches Some(n) && n == v
            &&& value.u32_value() is None
        },
        value matches GgufValue::Int32(v) ==> {
            &&& v >= 0 ==> (value.usize_value() matches Some(n) && n == v)
            &&& v < 0 ==> value.usize_value() is None
            &&& value.i32_value() matches Some(n) && n == v
            &&& value.i64_value() matches Some(n) && n == v
            &&& value.u32_value() is None
        },
        value matches GgufValue::Int8(v) ==> value.i32_value() matches Some(n) && n == v,
        value matches GgufValue::Float32(x) ==> value.f32_value() == Some(x),
        value matches GgufValue::Bool(b) ==> value.bool_value() == Some(b),
        value matches GgufValue::String(s) ==> value.str_value() == Some(s@),
{
}

/// Each parameter of a model of the lfm2 architecture is what its key gives; without one of those
/// that it needs there is no model.
pub proof fn law_lfm2_parameters(info: GgufInfo)
    ensures
        lfm2_config(info) matches Ok(config) ==> {
            let entries = info.kv_meta@;
            &&& config.architecture == ModelArchitecture::Lfm2
            &&& config.file_path == info.headers.path@
            &&& text_of_key(entries, "general.name"@) matches Some(name) ==> config.model_name == name
            &&& size_of_key(entries, "lfm2.attention.head_count"@) == Some(config.n_heads)
            &&& size_of_key(entries, "lfm2.block_count"@) == Some(config.n_layers)
            &&& size_of_key(entries, "lfm2.embedding_length"@) == Some(config.hidden_size)
            &&& size_of_key(entries, "lfm2.vocab_size"@) == Some(config.vocab_size)
            &&& size_of_key(entries, "lfm2.feed_forward_length"@) == Some(config.intermediate_ffn_size)
            &&& size_of_key(entries, "lfm2.context_length"@) == Some(config.max_seq_len)
            &&& float_of_key(entries, "lfm2.rope.freq_base"@) == Some(config.rope_theta)
            &&& config.conv_l_cache == size_of_key(entries, "lfm2.shortconv.l_cache"@)
            &&& config.rms_epsilon == tuned(
                entries,
                seq!["lfm2.attention.layer_norm_rms_epsilon"@, "lfm2.layer_norm_rms_epsilon"@],
                Float32 { bits: 0x3727_C5AC },
            )
            &&& kv_counts_of_key(entries, "lfm2.attention.head_count_kv"@) matches Ok(counts)
                && heads_by_layer(counts, config.n_heads, config.n_layers) == Ok::<
                Seq<usize>,
                Seq<char>,
            >(config.n_kv_heads)
            &&& config.n_kv_heads.len() == config.n_layers
            &&& config.supports_tool_calling
            &&& !config.supports_reasoning
            &&& config.flatten_tools_to_functions
            &&& config.cache_seq_len_dim == 2
            &&& config.tool_call_start_token_id == Some(10u32)
            &&& config.tool_call_end_token_id == Some(11u32)
            &&& config.tool_call_format_style == ToolFormatStyle::PythonCall
        },
{
}

/// Each parameter of a model of the deepseek2 architecture is what its key gives; without one of
/// those that it needs there is no model.
pub proof fn law_deepseek2_parameters(info: GgufInfo)
    ensures
        deepseek2_config(info) matches Ok(config) ==> {
            let entries = info.kv_meta@;
            &&& config.architecture == ModelArchitecture::Deepseek2
            &&& config.file_path == info.headers.path@
            &&& text_of_key(entries, "general.name"@) == Some(config.model_name)
            &&& size_of_key(entries, "deepseek2.attention.head_count"@) == Some(config.n_heads)
            &&& size_of_key(entries, "deepseek2.block_count"@) == Some(config.n_layers)
            &&& size_of_key(entries, "deepseek2.embedding_length"@) == Some(config.hidden_size)
            &&& size_of_key(entries, "deepseek2.vocab_size"@) == Some(config.vocab_size)
            &&& size_of_key(entries, "deepseek2.feed_forward_length"@) == Some(config.intermediate_ffn_size)
            &&& size_of_key(entries, "deepseek2.context_length"@) == Some(config.max_seq_len)
            &&& float_of_key(entries, "deepseek2.rope.freq_base"@) == Some(config.rope_theta)
            &&& config.n_expert_used == size_of_key(entries, "deepseek2.expert_used_count"@)
            &&& config.n_expert_group == size_of_key(entries, "deepseek2.expert_group_count"@)
            &&& config.n_expert_group_used == size_of_key(entries, "deepseek2.expert_group_used_count"@)
            &&& config.expert_gating_func == size_of_key(entries, "deepseek2.expert_gating_func"@)
            &&& config.n_leading_dense_block == size_of_key(entries, "deepseek2.leading_dense_block_count"@)
            &&& config.q_lora_rank == size_of_key(entries, "deepseek2.attention.q_lora_rank"@)
            &&& config.kv_lora_rank == size_of_key(entries, "deepseek2.attention.kv_lora_rank"@)
            &&& config.attn_key_length == size_of_key(entries, "deepseek2.attention.key_length"@)
            &&& config.attn_value_length == size_of_key(entries, "deepseek2.attention.value_length"@)
            &&& config.attn_key_length_mla == size_of_key(entries, "deepseek2.attention.key_length_mla"@)
            &&& config.attn_value_length_mla == size_of_key(entries, "deepseek2.attention.value_length_mla"@)
            &&& config.expert_ffn_size == size_of_key(entries, "deepseek2.expert_feed_forward_length"@)
            &&& config.n_experts == size_of_key(entries, "deepseek2.expert_count"@)
            &&& config.n_expert_shared == size_of_key(entries, "deepseek2.expert_shared_count"@)
            &&& config.n_rope_dims == size_of_key(entries, "deepseek2.rope.dimension_count"@)
            &&& config.expert_weights_scale == float_of_key(
                entries,
                "deepseek2.expert_weights_scale"@,
            )
            &&& config.expert_weights_norm == flag_of_key(entries, "deepseek2.expert_weights_norm"@)
            &&& config.rms_epsilon == tuned(
                entries,
                seq!["deepseek2.attention.layer_norm_rms_epsilon"@],
                Float32 { bits: 0x3727_C5AC },
            )
            &&& kv_counts_of_key(entries, "deepseek2.attention.head_count_kv"@) matches Ok(counts)
                && heads_by_layer(counts, config.n_heads, config.n_layers) == Ok::<
                Seq<usize>,
                Seq<char>,
            >(config.n_kv_heads)
            &&& config.n_kv_heads.len() == config.n_layers
            &&& config.supports_tool_calling
            &&& config.supports_reasoning
            &&& !config.flatten_tools_to_functions
            &&& config.cache_seq_len_dim == 2
            &&& config.reasoning_start_token_id == Some(151350u32)
            &&& config.reasoning_end_token_id == Some(151351u32)
            &&& config.tool_call_start_token_id == Some(151352u32)
            &&& config.tool_call_end_token_id == Some(151353u32)
            &&& config.arg_key_open_token_id == Some(151356u32)
            &&& config.arg_key_close_token_id == Some(151357u32)
            &&& config.arg_value_open_token_id == Some(151358u32)
            &&& config.arg_value_close_token_id == Some(151359u32)
            &&& config.tool_call_format_style == ToolFormatStyle::XmlArgPairs
        },
{
}

/// Nothing else is needed of a model: one whose metadata give what is needed, and no counts of key
/// and value heads, can be read.
pub proof fn law_complete_lfm2_is_read(info: GgufInfo)
    requires
        size_of_key(info.kv_meta@, "lfm2.attention.head_count"@) is Some,
        size_of_key(info.kv_meta@, "lfm2.block_count"@) is Some,
        size_of_key(info.kv_meta@, "lfm2.embedding_length"@) is Some,
        size_of_key(info.kv_meta@, "lfm2.vocab_size"@) is Some,
        size_of_key(info.kv_meta@, "lfm2.feed_forward_length"@) is Some,
        size_of_key(info.kv_meta@, "lfm2.context_length"@) is Some,
        float_of_key(info.kv_meta@, "lfm2.rope.freq_base"@) is Some,
        kv_counts_of_key(info.kv_meta@, "lfm2.attention.head_count_kv"@) == Ok::<
            Option<Seq<usize>>,
            Seq<char>,
        >(None),
    ensures
        lfm2_config(info) is Ok,
{
}

/// Nothing else is needed of a model: one whose metadata give what is needed, and no counts of key
/// and value heads, can be read.
pub proof fn law_complete_deepseek2_is_read(info: GgufInfo)
    requires
        size_of_key(info.kv_meta@, "deepseek2.attention.head_count"@) is Some,
        size_of_key(info.kv_meta@, "deepseek2.block_count"@) is Some,
        size_of_key(info.kv_meta@, "deepseek2.embedding_length"@) is Some,
        size_of_key(info.kv_meta@, "deepseek2.vocab_size"@) is Some,
        size_of_key(info.kv_meta@, "deepseek2.feed_forward_length"@) is Some,
        size_of_key(info.kv_meta@, "deepseek2.context_length"@) is Some,
        float_of_key(info.kv_meta@, "deepseek2.rope.freq_base"@) is Some,
        text_of_key(info.kv_meta@, "general.name"@) is Some,
        kv_counts_of_key(info.kv_meta@, "deepseek2.attention.head_count_kv"@) == Ok::<
            Option<Seq<usize>>,
            Seq<char>,
        >(None),
    ensures
        deepseek2_config(info) is Ok,
{
}

/// The counts of key and value heads are those of the last entry with their key, if every such
/// entry gives some.
pub proof fn law_last_counts_decide(entries: Seq<GgufKVMeta>, last: GgufKVMeta, key: Seq<char>)
    ensures
        kv_counts_of_key(Seq::<GgufKVMeta>::empty(), key) == Ok::<Option<Seq<usize>>, Seq<char>>(
            None,
        ),
        kv_counts_of_key(entries, key) is Ok ==> {
            &&& last.key@ != key ==> kv_counts_of_key(entries.push(last), key) == kv_counts_of_key(
                entries,
                key,
            )
            &&& last.key@ == key ==> match kv_count(last.value) {
                Ok(counts) => kv_counts_of_key(entries.push(last), key) == Ok::<
                    Option<Seq<usize>>,
                    Seq<char>,
                >(Some(counts)),
                Err(message) => kv_counts_of_key(entries.push(last), key) == Err::<
                    Option<Seq<usize>>,
                    Seq<char>,
                >(message),
            }
        },
        kv_counts_of_key(entries, key) matches Err(message) ==> kv_counts_of_key(
            entries.push(last),
            key,
        ) == Err::<Option<Seq<usize>>, Seq<char>>(message),
        last.key@ == key && last.value.usize_value() is Some ==> last_size(entries.push(last), key)
            == last.value.usize_value(),
        last.key@ != key || last.value.usize_value() is None ==> last_size(
            entries.push(last),
            key,
        ) == last_size(entries, key),
        last_size(Seq::<GgufKVMeta>::empty(), key) is None,
{
    assert(entries.push(last).drop_last() =~= entries);
}

/// The heads of each layer: a list has one for each layer; a single count holds for all layers; a
/// single one, or none, stands for as many as there are heads.
pub proof fn law_heads_of_layers(list: Seq<usize>, n_heads: usize, n_layers: usize, layer: int)
    requires
        0 <= layer < n_layers,
    ensures
        heads_by_layer(None, n_heads, n_layers) matches Ok(heads) && heads.len() == n_layers
            && heads[layer] == n_heads,
        list.len() == 1 && list[0] != 1 ==> (heads_by_layer(Some(list), n_heads, n_layers) matches Ok(
            heads,
        ) && heads.len() == n_layers && heads[layer] == list[0]),
        list.len() == 1 && list[0] == 1 ==> (heads_by_layer(Some(list), n_heads, n_layers) matches Ok(
            heads,
        ) && heads.len() == n_layers && heads[layer] == n_heads),
        list.len() == n_layers && n_layers != 1 ==> (heads_by_layer(
            Some(list),
            n_heads,
            n_layers,
        ) matches Ok(heads) && heads == list),
        list.len() != n_layers && list.len() != 1 ==> heads_by_layer(
            Some(list),
            n_heads,
            n_layers,
        ) is Err,
{
}

/// The counts that a value gives: a list its items in their order, a number itself, and anything
/// else none.
pub proof fn law_counts_of_value(value: GgufValue)
    ensures
        value matches GgufValue::Uint32(v) ==> (kv_count(value) matches Ok(counts) && counts.len()
            == 1 && counts[0] == v),
        value matches GgufValue::Array(items) ==> match kv_count(value) {
            Ok(counts) => counts.len() == items@.len() && forall|k: int|
                0 <= k < counts.len() ==> Some(#[trigger] counts[k]) == items@[k].usize_value(),
            Err(_) => exists|k: int|
                0 <= k < items@.len() && (#[trigger] items@[k]).usize_value() is None,
        },
        value is String || value is Bool || value is Float32 ==> kv_count(value) is Err,
{
}

/// Each setting of the tokenizer is what its key gives; a flag that is not set is off.
pub proof fn law_tokenizer_settings(entries: Seq<GgufKVMeta>)
    ensures
        ({
            let settings = tokenizer_settings(entries);
            &&& settings.model_type == text_of_key(entries, "tokenizer.ggml.model"@)
            &&& settings.pre_tokenizer_tag == text_of_key(entries, "tokenizer.ggml.pre"@)
            &&& settings.tokens == texts_of_key(entries, "tokenizer.ggml.tokens"@)
            &&& settings.token_type == integers_of_key(entries, "tokenizer.ggml.token_type"@)
            &&& settings.merges == texts_of_key(entries, "tokenizer.ggml.merges"@)
            &&& settings.json_config == text_of_key(entries, "tokenizer.ggml.hf_json"@)
            &&& settings.chat_template == text_of_key(entries, "tokenizer.chat_template"@)
            &&& settings.bos_token_id == id_of_key(entries, "tokenizer.ggml.bos_token_id"@)
            &&& settings.eos_token_id == id_of_key(entries, "tokenizer.ggml.eos_token_id"@)
            &&& settings.padding_token_id == id_of_key(entries, "tokenizer.ggml.padding_token_id"@)
            &&& settings.eot_token_id == id_of_key(entries, "tokenizer.ggml.eot_token_id"@)
            &&& settings.unknown_token_id == id_of_key(entries, "tokenizer.ggml.unknown_token_id"@)
            &&& settings.eom_token_id == id_of_key(entries, "tokenizer.ggml.eom_token_id"@)
            &&& settings.add_bos <==> flag_of_key(entries, "tokenizer.ggml.add_bos_token"@) == Some(
                true,
            )
            &&& settings.add_eos <==> flag_of_key(entries, "tokenizer.ggml.add_eos_token"@) == Some(
                true,
            )
        }),
{
}

/// A setting of a generation is what was asked for, else what the file says, else what the metadata
/// of the model say, else the default; the metadata say nothing of the seed.
pub proof fn law_settings_in_their_order(b: GenerationConfigBuilder)
    ensures
        ({
            let config = resolved_generation_config(b);
            let none = GenerationFileConfig {
                temperature: None,
                max_tokens: None,
                top_p: None,
                repetition_penalty: None,
                tool_choice: None,
                reasoning_effort: None,
                stop_tokens: None,
                logprobs: None,
                top_logprobs: None,
                seed: None,
            };
            let file = match b.file_config {
                Some(section) => section,
                None => none,
            };
            let base = match b.gguf_config {
                Some(given) => given@,
                None => default_generation_config(),
            };
            &&& b.max_tokens matches Some(v) ==> config.max_tokens == v
            &&& b.max_tokens is None && file.max_tokens is Some ==> Some(config.max_tokens) == file.max_tokens
            &&& b.max_tokens is None && file.max_tokens is None ==> config.max_tokens == base.max_tokens
            &&& b.temperature matches Some(v) ==> config.temperature == v
            &&& b.temperature is None && file.temperature is Some ==> Some(config.temperature) == file.temperature
            &&& b.temperature is None && file.temperature is None ==> config.temperature == base.temperature
            &&& b.top_p matches Some(v) ==> config.top_p == v
            &&& b.top_p is None && file.top_p is Some ==> Some(config.top_p) == file.top_p
            &&& b.top_p is None && file.top_p is None ==> config.top_p == base.top_p
            &&& b.repetition_penalty matches Some(v) ==> config.repetition_penalty == v
            &&& b.repetition_penalty is None && file.repetition_penalty is Some ==> Some(config.repetition_penalty) == file.repetition_penalty
            &&& b.repetition_penalty is None && file.repetition_penalty is None ==> config.repetition_penalty == base.repetition_penalty
            &&& b.reasoning_effort matches Some(v) ==> config.reasoning_effort == v
            &&& b.reasoning_effort is None && file.reasoning_effort is Some ==> Some(config.reasoning_effort) == file.reasoning_effort
            &&& b.reasoning_effort is None && file.reasoning_effort is None ==> config.reasoning_effort == base.reasoning_effort
            &&& b.logprobs matches Some(v) ==> config.logprobs == v
            &&& b.logprobs is None && file.logprobs is Some ==> Some(config.logprobs) == file.logprobs
            &&& b.logprobs is None && file.logprobs is None ==> config.logprobs == base.logprobs
            &&& b.seed matches Some(v) ==> config.seed == v
            &&& b.seed is None && file.seed is Some ==> Some(config.seed) == file.seed
            &&& b.seed is None && file.seed is None ==> config.seed == 19
            &&& b.top_logprobs is Some ==> config.top_logprobs == b.top_logprobs
            &&& b.top_logprobs is None && file.top_logprobs is Some ==> config.top_logprobs
                == file.top_logprobs
            &&& b.top_logprobs is None && file.top_logprobs is None ==> config.top_logprobs
                == base.top_logprobs
            &&& b.stop_tokens is Some ==> config.stop_tokens == list_of(b.stop_tokens)
            &&& b.stop_tokens is None && file.stop_tokens is Some ==> config.stop_tokens == list_of(
                file.stop_tokens,
            )
            &&& b.stop_tokens is None && file.stop_tokens is None ==> config.stop_tokens
                == base.stop_tokens
            &&& b.tool_choice matches Some(c) ==> config.tool_choice == c.model()
            &&& b.tool_choice is None && file.tool_choice is Some ==> config.tool_choice
                == file.tool_choice->Some_0.model()
            &&& b.tool_choice is None && file.tool_choice is None ==> config.tool_choice
                == base.tool_choice
        }),
{
}

/// What a generation runs with if nothing is said: 32000 tokens, a temperature of 0.8, a nucleus of
/// 0.9, a penalty of 1.15, tools as the model likes, much reasoning, no stop texts and no log
/// probabilities.
pub proof fn law_default_settings()
    ensures
        ({
            let config = default_generation_config();
            &&& config.max_tokens == 32000
            &&& config.temperature.bits == 0x3F4C_CCCD
            &&& config.top_p.bits == 0x3F66_6666
            &&& config.repetition_penalty.bits == 0x3F93_3333
            &&& config.tool_choice == ToolChoiceView::Mode(ToolChoiceMode::Auto)
            &&& config.reasoning_effort == ReasoningEffort::High
            &&& config.stop_tokens is None
            &&& !config.logprobs
            &&& config.top_logprobs is None
            &&& config.seed == 19
        }),
{
}

/// The number that the metadata give for one of several keys is that of the last entry with such a
/// key that gives one.
pub proof fn law_tuned_by_last(
    entries: Seq<GgufKVMeta>,
    keys: Seq<Seq<char>>,
    default: Float32,
    i: int,
)
    requires
        -1 <= i < entries.len(),
        i >= 0 ==> keys.contains(entries[i].key@) && entries[i].value.f32_value() is Some,
        forall|k: int|
            i < k < entries.len() ==> !(keys.contains((#[trigger] entries[k]).key@)
                && entries[k].value.f32_value() is Some),
    ensures
        i >= 0 ==> Some(tuned(entries, keys, default)) == entries[i].value.f32_value(),
        i < 0 ==> tuned(entries, keys, default) == default,
    decreases entries.len(),
{
    if i < entries.len() - 1 {
        assert(entries[entries.len() - 1] == entries.last());
        let rest = entries.drop_last();
        assert forall|k: int| i < k < rest.len() implies !(keys.contains((#[trigger] rest[k]).key@)
            && rest[k].value.f32_value() is Some) by {
            assert(rest[k] == entries[k]);
        }
        law_tuned_by_last(rest, keys, default, i);
    }
}

/// Which keys of the metadata say what of a generation.
pub proof fn law_metadata_settings(entries: Seq<GgufKVMeta>)
    ensures
        ({
            let config = metadata_config(entries);
            let default = default_generation_config();
            &&& config.temperature == tuned(
                entries,
                seq![
                    "sampling.temperature"@,
                    "general.sampling.temp"@,
                    "general.sampling.temperature"@,
                ],
                default.temperature,
            )
            &&& config.top_p == tuned(
                entries,
                seq!["sampling.top_p"@, "general.sampling.top_p"@],
                default.top_p,
            )
            &&& config.repetition_penalty == tuned(
                entries,
                seq!["sampling.repetition_penalty"@, "general.sampling.repetition_penalty"@],
                default.repetition_penalty,
            )
            &&& last_size(entries, "general.max_tokens"@) matches Some(n) ==> config.max_tokens == n
            &&& last_size(entries, "general.max_tokens"@) is None ==> config.max_tokens
                == default.max_tokens
            &&& config.reasoning_effort == default.reasoning_effort
            &&& config.tool_choice == default.tool_choice
            &&& config.stop_tokens is None
        }),
{
}

/// How prefixes are kept is what was asked for, else what the file says, else the default; a block
/// of one token is no block.
pub proof fn law_cache_settings_in_their_order(b: ModelCacheConfigBuilder)
    ensures
        ({
            let config = resolved_cache_config(b);
            let none = CacheFileConfig {
                prefix_caching: None,
                cache_dir: None,
                max_cache_size: None,
                min_cache_tokens: None,
                fragmentation: None,
            };
            let file = match b.file_config {
                Some(section) => section,
                None => none,
            };
            &&& b.prefix_caching matches Some(v) ==> config.prefix_caching == v
            &&& b.prefix_caching is None && file.prefix_caching is Some ==> Some(
                config.prefix_caching,
            ) == file.prefix_caching
            &&& b.prefix_caching is None && file.prefix_caching is None ==> !config.prefix_caching
            &&& b.cache_dir is Some ==> Some(config.cache_dir) == text_of(b.cache_dir)
            &&& b.cache_dir is None && file.cache_dir is Some ==> Some(config.cache_dir) == text_of(
                file.cache_dir,
            )
            &&& b.cache_dir is None && file.cache_dir is None ==> config.cache_dir == "model_cache"@
            &&& b.max_cache_size matches Some(v) ==> config.max_cache_size == v
            &&& b.max_cache_size is None && file.max_cache_size is Some ==> Some(
                config.max_cache_size,
            ) == file.max_cache_size
            &&& b.max_cache_size is None && file.max_cache_size is None ==> config.max_cache_size
                == 16_000_000_000
            &&& b.min_cache_tokens matches Some(v) ==> config.min_cache_tokens == v
            &&& b.min_cache_tokens is None && file.min_cache_tokens is Some ==> Some(
                config.min_cache_tokens,
            ) == file.min_cache_tokens
            &&& b.min_cache_tokens is None && file.min_cache_tokens is None
                ==> config.min_cache_tokens == 512
            &&& b.cache_block_size matches Some(n) ==> config.fragmentation == (if n == 1 {
                ModelCacheFragmentation::TokenWise
            } else {
                ModelCacheFragmentation::BlockWise { block_size: n }
            })
            &&& b.cache_block_size is None && file.fragmentation is Some ==> Some(
                config.fragmentation,
            ) == file.fragmentation
            &&& b.cache_block_size is None && file.fragmentation is None ==> config.fragmentation == (
            ModelCacheFragmentation::BlockWise { block_size: 32 })
        }),
{
}

/// Two architectures can be run, each under its own name.
pub proof fn law_architectures(lower: Seq<char>)
    ensures
        architecture_of("lfm2"@) == Some(ModelArchitecture::Lfm2),
        architecture_of("deepseek2"@) == Some(ModelArchitecture::Deepseek2),
        architecture_of(lower) is Some ==> lower == "lfm2"@ || lower == "deepseek2"@,
{
    reveal_strlit("lfm2");
    reveal_strlit("deepseek2");
    assert("lfm2"@.len() != "deepseek2"@.len());
}

/// The engine looks out for the tokens that the model marks things with, each in its own role.
pub proof fn law_marking_tokens(config: ModelConfig)
    ensures
        ({
            let marks = marker_tokens(config);
            &&& marks.tool_call_start_token_id == config.tool_call_start_token_id
            &&& marks.tool_call_end_token_id == config.tool_call_end_token_id
            &&& marks.reasoning_start_token_id == config.reasoning_start_token_id
            &&& marks.reasoning_end_token_id == config.reasoning_end_token_id
            &&& marks.tool_call_format_style == config.tool_call_format_style
            &&& marks.arg_key_open_token_id == config.arg_key_open_token_id
            &&& marks.arg_key_close_token_id == config.arg_key_close_token_id
            &&& marks.arg_value_open_token_id == config.arg_value_open_token_id
            &&& marks.arg_value_close_token_id == config.arg_value_close_token_id
        }),
{
}

} // verus!
