//! What the metadata say of the tokenizer.
use vstd::prelude::*;

use crate::gguf::lookup::{
    bool_of, flag_of_key, i32s_of_key, id_of_key, integers_of_key, string_of_key, strings_of_key,
    text_of_key, texts_of_key, u32_of,
};
use crate::gguf::types::GgufKVMeta;
use crate::text::{list_of, text_of};

verus! {

#[derive(Debug, Clone, PartialEq)]
pub struct TokenizerConfig {
    pub model_type: Option<String>,
    pub pre_tokenizer_tag: Option<String>,
    pub tokens: Option<Vec<String>>,
    pub token_type: Option<Vec<i32>>,
    pub merges: Option<Vec<String>>,
    pub json_config: Option<String>,
    pub chat_template: Option<String>,
    pub bos_token_id: Option<u32>,
    pub eos_token_id: Option<u32>,
    pub padding_token_id: Option<u32>,
    pub eot_token_id: Option<u32>,
    pub unknown_token_id: Option<u32>,
    pub eom_token_id: Option<u32>,
    pub add_bos: bool,
    pub add_eos: bool,
}

/// The mathematical model of a tokenizer configuration.
pub struct TokenizerConfigView {
    pub model_type: Option<Seq<char>>,
    pub pre_tokenizer_tag: Option<Seq<char>>,
    pub tokens: Option<Seq<Seq<char>>>,
    pub token_type: Option<Seq<i32>>,
    pub merges: Option<Seq<Seq<char>>>,
    pub json_config: Option<Seq<char>>,
    pub chat_template: Option<Seq<char>>,
    pub bos_token_id: Option<u32>,
    pub eos_token_id: Option<u32>,
    pub padding_token_id: Option<u32>,
    pub eot_token_id: Option<u32>,
    pub unknown_token_id: Option<u32>,
    pub eom_token_id: Option<u32>,
    pub add_bos: bool,
    pub add_eos: bool,
}

impl View for TokenizerConfig {
    type V = TokenizerConfigView;

    open spec fn view(&self) -> TokenizerConfigView {
        TokenizerConfigView {
            model_type: text_of(self.model_type),
            pre_tokenizer_tag: text_of(self.pre_tokenizer_tag),
            tokens: list_of(self.tokens),
            token_type: match self.token_type {
                Some(items) => Some(items@),
                None => None,
            },
            merges: list_of(self.merges),
            json_config: text_of(self.json_config),
            chat_template: text_of(self.chat_template),
            bos_token_id: self.bos_token_id,
            eos_token_id: self.eos_token_id,
            padding_token_id: self.padding_token_id,
            eot_token_id: self.eot_token_id,
            unknown_token_id: self.unknown_token_id,
            eom_token_id: self.eom_token_id,
            add_bos: self.add_bos,
            add_eos: self.add_eos,
        }
    }
}

/// What the metadata say of the tokenizer. The last entry of each key decides; a flag that is not
/// set is off.
pub open spec fn tokenizer_settings(metadata: Seq<GgufKVMeta>) -> TokenizerConfigView {
    TokenizerConfigView {
        model_type: text_of_key(metadata, "tokenizer.ggml.model"@),
        pre_tokenizer_tag: text_of_key(metadata, "tokenizer.ggml.pre"@),
        tokens: texts_of_key(metadata, "tokenizer.ggml.tokens"@),
        token_type: integers_of_key(metadata, "tokenizer.ggml.token_type"@),
        merges: texts_of_key(metadata, "tokenizer.ggml.merges"@),
        json_config: text_of_key(metadata, "tokenizer.ggml.hf_json"@),
        chat_template: text_of_key(metadata, "tokenizer.chat_template"@),
        bos_token_id: id_of_key(metadata, "tokenizer.ggml.bos_token_id"@),
        eos_token_id: id_of_key(metadata, "tokenizer.ggml.eos_token_id"@),
        padding_token_id: id_of_key(metadata, "tokenizer.ggml.padding_token_id"@),
        eot_token_id: id_of_key(metadata, "tokenizer.ggml.eot_token_id"@),
        unknown_token_id: id_of_key(metadata, "tokenizer.ggml.unknown_token_id"@),
        eom_token_id: id_of_key(metadata, "tokenizer.ggml.eom_token_id"@),
        add_bos: flag_of_key(metadata, "tokenizer.ggml.add_bos_token"@) == Some(true),
        add_eos: flag_of_key(metadata, "tokenizer.ggml.add_eos_token"@) == Some(true),
    }
}

impl TokenizerConfig {
    pub fn from_metadata(metadata: &[GgufKVMeta]) -> (result: Self)
        ensures
            result@ == tokenizer_settings(metadata@),
    {
        let tokens = strings_of_key(metadata, "tokenizer.ggml.tokens");
        let token_type = i32s_of_key(metadata, "tokenizer.ggml.token_type");
        let merges = strings_of_key(metadata, "tokenizer.ggml.merges");
        TokenizerConfig {
            model_type: string_of_key(metadata, "tokenizer.ggml.model"),
            pre_tokenizer_tag: string_of_key(metadata, "tokenizer.ggml.pre"),
            tokens,
            token_type,
            merges,
            json_config: string_of_key(metadata, "tokenizer.ggml.hf_json"),
            chat_template: string_of_key(metadata, "tokenizer.chat_template"),
            bos_token_id: u32_of(metadata, "tokenizer.ggml.bos_token_id"),
            eos_token_id: u32_of(metadata, "tokenizer.ggml.eos_token_id"),
            padding_token_id: u32_of(metadata, "tokenizer.ggml.padding_token_id"),
            eot_token_id: u32_of(metadata, "tokenizer.ggml.eot_token_id"),
            unknown_token_id: u32_of(metadata, "tokenizer.ggml.unknown_token_id"),
            eom_token_id: u32_of(metadata, "tokenizer.ggml.eom_token_id"),
            add_bos: match bool_of(metadata, "tokenizer.ggml.add_bos_token") {
                Some(flag) => flag,
                None => false,
            },
            add_eos: match bool_of(metadata, "tokenizer.ggml.add_eos_token") {
                Some(flag) => flag,
                None => false,
            },
        }
    }
}

} // verus!
