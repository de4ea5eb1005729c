//! The parameters of models of the lfm2 architecture.
use vstd::prelude::*;
use vstd::string::*;

use crate::config::generation_config::{lemma_tuned, tuned};
use crate::config::model_config::{config_agrees, ModelArchitecture, ModelConfig, ModelConfigView};
use crate::config::parser::utility::{
    base_parameters, read_base_parameters, BaseKeys, DEFAULT_RMS_EPSILON_BITS,
};
use crate::float::Float32;
use crate::gguf::lookup::{find_last_f32, size_of_key, usize_of};
use crate::gguf::types::{GgufInfo, GgufKVMeta};
use crate::inference::types::ToolFormatStyle;

verus! {

/// What the metadata do not say of models of this architecture.
pub struct Lfm2ExtraParameters;

impl Lfm2ExtraParameters {
    pub const CACHE_SEQ_LEN_DIM: usize = 2;

    pub const SUPPORTS_TOOL_CALLING: bool = true;

    pub const SUPPORTS_REASONING: bool = false;

    pub const TOOL_CALL_START_TOKEN_ID: u32 = 10;

    pub const TOOL_CALL_END_TOKEN_ID: u32 = 11;

    pub const TOOL_CALL_FORMAT_STYLE: ToolFormatStyle = ToolFormatStyle::PythonCall;
}

pub struct Lfm2Parser;

/// Under which keys models of this architecture keep what all models have.
pub open spec fn lfm2_keys() -> BaseKeys {
    BaseKeys {
        is_named: false,
        head_count: "lfm2.attention.head_count",
        head_count_kv: "lfm2.attention.head_count_kv",
        block_count: "lfm2.block_count",
        embedding_length: "lfm2.embedding_length",
        vocab_size: "lfm2.vocab_size",
        feed_forward_length: "lfm2.feed_forward_length",
        freq_base: "lfm2.rope.freq_base",
        context_length: "lfm2.context_length",
    }
}

/// The metadata keys of the epsilon of the normalisation.
pub open spec fn lfm2_epsilon_keys() -> Seq<Seq<char>> {
    seq!["lfm2.attention.layer_norm_rms_epsilon"@, "lfm2.layer_norm_rms_epsilon"@]
}

/// The parameters of a model of this architecture, or why they cannot be had. The last entry of
/// each key decides, but for the epsilon: there the last entry that gives a number does.
pub open spec fn lfm2_config(info: GgufInfo) -> Result<ModelConfigView, Seq<char>> {
    let entries = info.kv_meta@;
    match base_parameters(entries, lfm2_keys()) {
        Err(message) => Err(message),
        Ok(base) => Ok(
            ModelConfigView {
                file_path: info.headers.path@,
                architecture: ModelArchitecture::Lfm2,
                model_name: base.model_name,
                hidden_size: base.hidden_size,
                n_heads: base.n_heads,
                n_kv_heads: base.n_kv_heads,
                n_layers: base.n_layers,
                vocab_size: base.vocab_size,
                intermediate_ffn_size: base.intermediate_ffn_size,
                rope_theta: base.rope_theta,
                max_seq_len: base.max_seq_len,
                rms_epsilon: tuned(
                    entries,
                    lfm2_epsilon_keys(),
                    Float32 { bits: DEFAULT_RMS_EPSILON_BITS },
                ),
                cache_seq_len_dim: Lfm2ExtraParameters::CACHE_SEQ_LEN_DIM,
                conv_l_cache: size_of_key(entries, "lfm2.shortconv.l_cache"@),
                n_expert_used: None,
                n_expert_group: None,
                n_expert_group_used: None,
                expert_gating_func: None,
                n_leading_dense_block: None,
                q_lora_rank: None,
                kv_lora_rank: None,
                attn_key_length: None,
                attn_value_length: None,
                attn_key_length_mla: None,
                attn_value_length_mla: None,
                expert_ffn_size: None,
                n_experts: None,
                n_expert_shared: None,
                expert_weights_scale: None,
                expert_weights_norm: None,
                n_rope_dims: None,
                supports_tool_calling: Lfm2ExtraParameters::SUPPORTS_TOOL_CALLING,
                supports_reasoning: Lfm2ExtraParameters::SUPPORTS_REASONING,
                tool_call_start_token_id: Some(Lfm2ExtraParameters::TOOL_CALL_START_TOKEN_ID),
                tool_call_end_token_id: Some(Lfm2ExtraParameters::TOOL_CALL_END_TOKEN_ID),
                flatten_tools_to_functions: true,
                reasoning_start_token_id: None,
                reasoning_end_token_id: None,
                tool_call_format_style: Lfm2ExtraParameters::TOOL_CALL_FORMAT_STYLE,
                arg_key_open_token_id: None,
                arg_key_close_token_id: None,
                arg_value_open_token_id: None,
                arg_value_close_token_id: None,
            },
        ),
    }
}

impl Lfm2Parser {
    /// The parameters of the model that a file holds.
    pub fn parse(gguf_info: &GgufInfo) -> (result: Result<ModelConfig, String>)
        ensures
            config_agrees(result, lfm2_config(*gguf_info)),
    {
        let entries: &[GgufKVMeta] = gguf_info.kv_meta.as_slice();
        let keys = BaseKeys {
            is_named: false,
            head_count: "lfm2.attention.head_count",
            head_count_kv: "lfm2.attention.head_count_kv",
            block_count: "lfm2.block_count",
            embedding_length: "lfm2.embedding_length",
            vocab_size: "lfm2.vocab_size",
            feed_forward_length: "lfm2.feed_forward_length",
            freq_base: "lfm2.rope.freq_base",
            context_length: "lfm2.context_length",
        };
        let base = match read_base_parameters(entries, &keys) {
            Ok(base) => base,
            Err(message) => {
                return Err(message);
            },
        };
        let default_epsilon = Float32 { bits: DEFAULT_RMS_EPSILON_BITS };
        let epsilon_list: [&str; 2] = [
            "lfm2.attention.layer_norm_rms_epsilon",
            "lfm2.layer_norm_rms_epsilon",
        ];
        proof {
            lemma_tuned(entries@, epsilon_list@, lfm2_epsilon_keys(), default_epsilon);
        }
        let rms_epsilon = match find_last_f32(entries, epsilon_list.as_slice()) {
            Some(value) => value,
            None => default_epsilon,
        };
        Ok(
            ModelConfig {
                file_path: String::from_str(gguf_info.headers.path.as_str()),
                architecture: ModelArchitecture::Lfm2,
                model_name: base.model_name,
                hidden_size: base.hidden_size,
                n_heads: base.n_heads,
                n_kv_heads: base.n_kv_heads,
                n_layers: base.n_layers,
                vocab_size: base.vocab_size,
                intermediate_ffn_size: base.intermediate_ffn_size,
                rope_theta: base.rope_theta,
                max_seq_len: base.max_seq_len,
                rms_epsilon,
                cache_seq_len_dim: Lfm2ExtraParameters::CACHE_SEQ_LEN_DIM,
                conv_l_cache: usize_of(entries, "lfm2.shortconv.l_cache"),
                n_expert_used: None,
                n_expert_group: None,
                n_expert_group_used: None,
                expert_gating_func: None,
                n_leading_dense_block: None,
                q_lora_rank: None,
                kv_lora_rank: None,
                attn_key_length: None,
                attn_value_length: None,
                attn_key_length_mla: None,
                attn_value_length_mla: None,
                expert_ffn_size: None,
                n_experts: None,
                n_expert_shared: None,
                expert_weights_scale: None,
                expert_weights_norm: None,
                n_rope_dims: None,
                supports_tool_calling: Lfm2ExtraParameters::SUPPORTS_TOOL_CALLING,
                supports_reasoning: Lfm2ExtraParameters::SUPPORTS_REASONING,
                tool_call_start_token_id: Some(Lfm2ExtraParameters::TOOL_CALL_START_TOKEN_ID),
                tool_call_end_token_id: Some(Lfm2ExtraParameters::TOOL_CALL_END_TOKEN_ID),
                flatten_tools_to_functions: true,
                reasoning_start_token_id: None,
                reasoning_end_token_id: None,
                tool_call_format_style: Lfm2ExtraParameters::TOOL_CALL_FORMAT_STYLE,
                arg_key_open_token_id: None,
                arg_key_close_token_id: None,
                arg_value_open_token_id: None,
                arg_value_close_token_id: None,
            },
        )
    }
}

} // verus!
