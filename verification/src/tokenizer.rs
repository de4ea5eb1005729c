//! The interface between the engine and a text tokenizer.
use vstd::prelude::*;
use vstd::string::*;

use crate::types::{ChatMessage, Tool};

verus! {

/// What a streaming decoder remembers between tokens.
#[derive(Debug, Clone, PartialEq)]
pub struct StreamContext {
    pub ids: Vec<u32>,
    pub prefix: String,
    pub prefix_index: usize,
}

/// The mathematical model of a decoder's memory.
pub struct StreamView {
    pub ids: Seq<u32>,
    pub prefix: Seq<char>,
    pub prefix_index: usize,
}

/// The memory of a decoder that has seen nothing.
pub open spec fn fresh_stream() -> StreamView {
    StreamView { ids: seq![], prefix: seq![], prefix_index: 0 }
}

impl View for StreamContext {
    type V = StreamView;

    open spec fn view(&self) -> StreamView {
        StreamView { ids: self.ids@, prefix: self.prefix@, prefix_index: self.prefix_index }
    }
}

impl StreamContext {
    pub fn with_capacity(capacity: usize) -> (result: Self)
        ensures
            result@ == fresh_stream(),
    {
        StreamContext {
            ids: Vec::with_capacity(capacity),
            prefix: String::new(),
            prefix_index: 0,
        }
    }

    pub fn reset(&mut self)
        ensures
            final(self)@ == fresh_stream(),
    {
        self.ids.clear();
        self.prefix = String::new();
        self.prefix_index = 0;
    }
}

/// The outcome of a decoding step: a text, nothing yet, or an error message, and the decoder's
/// memory afterwards.
pub struct Decoding {
    pub result: Result<Option<Seq<char>>, Seq<char>>,
    pub stream: StreamView,
}

/// The model of a result that carries a text or an error message.
pub open spec fn decoded_text(result: Result<Option<String>, String>) -> Result<
    Option<Seq<char>>,
    Seq<char>,
> {
    match result {
        Ok(Some(text)) => Ok(Some(text@)),
        Ok(None) => Ok(None),
        Err(message) => Err(message@),
    }
}

/// The model of a result that carries token ids or an error message.
pub open spec fn encoded_ids(result: Result<Vec<u32>, String>) -> Result<Seq<u32>, Seq<char>> {
    match result {
        Ok(ids) => Ok(ids@),
        Err(message) => Err(message@),
    }
}

/// The answers of a tokenizer.
pub struct TokenizerView {
    pub encoder: spec_fn(Seq<char>, bool) -> Result<Seq<u32>, Seq<char>>,
    pub decoder: spec_fn(StreamView, Seq<u32>) -> Decoding,
    pub single_decoder: spec_fn(StreamView, u32) -> Decoding,
    pub reader: spec_fn(Seq<u32>, bool) -> Result<Seq<char>, Seq<char>>,
}

impl TokenizerView {
    /// The answer of `encode`.
    pub open spec fn encoding(self, text: Seq<char>, add_special_tokens: bool) -> Result<
        Seq<u32>,
        Seq<char>,
    > {
        (self.encoder)(text, add_special_tokens)
    }

    /// The answer of `process_multiple_token_stream`.
    pub open spec fn decoding(self, stream: StreamView, ids: Seq<u32>) -> Decoding {
        (self.decoder)(stream, ids)
    }

    /// The answer of `process_token_stream`.
    pub open spec fn decoding_of_one(self, stream: StreamView, id: u32) -> Decoding {
        (self.single_decoder)(stream, id)
    }

    /// The answer of `decode`.
    pub open spec fn text(self, ids: Seq<u32>, skip_special_tokens: bool) -> Result<
        Seq<char>,
        Seq<char>,
    > {
        (self.reader)(ids, skip_special_tokens)
    }
}

/// A tokenizer as the engine sees it. What a tokenizer answers depends on its arguments alone;
/// which answer that is, each tokenizer says for itself.
/// An implementation that is not verified may leave the specification functions out.
pub trait Tokenizer {
    /// The answers of this tokenizer.
    closed spec fn model(&self) -> TokenizerView {
        arbitrary()
    }

    /// The token that ends a generation.
    closed spec fn end_token(&self) -> u32 {
        arbitrary()
    }

    fn eos_token_id(&self) -> (result: u32)
        ensures
            result == self.end_token(),
    ;

    /// The tokens that are no text.
    fn special_token_ids(&self) -> Vec<u32>;

    /// `result` is a possible outcome of `apply_chat_template`.
    closed spec fn templates(
        &self,
        messages: Vec<ChatMessage>,
        tools: Vec<Tool>,
        enable_thinking: bool,
        flatten_tools_to_functions: bool,
        result: Result<String, String>,
    ) -> bool {
        arbitrary()
    }

    /// Writes a conversation as the model expects it.
    fn apply_chat_template(
        &self,
        messages: &Vec<ChatMessage>,
        tools: &Vec<Tool>,
        enable_thinking: bool,
        flatten_tools_to_functions: bool,
    ) -> (result: Result<String, String>)
        ensures
            self.templates(
                *messages,
                *tools,
                enable_thinking,
                flatten_tools_to_functions,
                result,
            ),
    ;

    /// Turns text into token ids.
    fn encode(&self, text: &str, add_special_tokens: bool) -> (result: Result<Vec<u32>, String>)
        ensures
            encoded_ids(result) == self.model().encoding(text@, add_special_tokens),
    ;

    /// Turns token ids into text.
    fn decode(&self, ids: &[u32], skip_special_tokens: bool) -> (result: Result<String, String>)
        ensures
            match result {
                Ok(text) => self.model().text(ids@, skip_special_tokens) == Ok::<
                    Seq<char>,
                    Seq<char>,
                >(text@),
                Err(message) => self.model().text(ids@, skip_special_tokens) == Err::<
                    Seq<char>,
                    Seq<char>,
                >(message@),
            },
    ;

    /// Takes the next token of a stream and gives the text that is complete with it.
    fn process_token_stream(&self, stream_ctx: &mut StreamContext, token_id: u32) -> (result:
        Result<Option<String>, String>)
        ensures
            decoded_text(result) == self.model().decoding_of_one(
                old(stream_ctx)@,
                token_id,
            ).result,
            final(stream_ctx)@ == self.model().decoding_of_one(old(stream_ctx)@, token_id).stream,
    ;

    /// Takes the next tokens of a stream and gives the text that is complete with them.
    fn process_multiple_token_stream(
        &self,
        stream_ctx: &mut StreamContext,
        token_ids: &[u32],
    ) -> (result: Result<Option<String>, String>)
        ensures
            decoded_text(result) == self.model().decoding(old(stream_ctx)@, token_ids@).result,
            final(stream_ctx)@ == self.model().decoding(old(stream_ctx)@, token_ids@).stream,
    ;
}

/// A decoder that has seen nothing holds no tokens and no text.
pub proof fn law_fresh_decoder()
    ensures
        fresh_stream().ids.len() == 0,
        fresh_stream().prefix.len() == 0,
        fresh_stream().prefix_index == 0,
{
}

} // verus!
