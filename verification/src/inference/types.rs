//! What happens during a generation and what comes out of it.
use vstd::prelude::*;
use vstd::string::*;

use crate::float::{Float32, Float64};
use crate::text::text_of;
use crate::types::{ChatMessage, ChunkToolCall, FinishReason, LogprobsContent, Role, ToolCall, Usage};

verus! {

/// How tool calls are written by a model.
#[derive(Debug, Clone, Copy, PartialEq, Eq, Structural)]
pub enum ToolFormatStyle {
    /// Argument keys and values between marker tokens.
    XmlArgPairs,
    /// A JSON object with the name and the arguments.
    EnclosedJson,
    /// A call in the syntax of a script.
    PythonCall,
}

impl Default for ToolFormatStyle {
    fn default() -> (result: Self)
        ensures
            result == ToolFormatStyle::EnclosedJson,
    {
        ToolFormatStyle::EnclosedJson
    }
}

/// A token with its log probability.
#[derive(Debug, Clone, Copy, PartialEq, Eq, Structural)]
pub struct TopKEntry {
    pub token_id: u32,
    pub logprob: Float32,
}

/// A sampled or forced token.
#[derive(Debug, Clone, PartialEq)]
pub struct SamplingResult {
    pub token: u32,
    pub logprob: Option<Float32>,
    pub top_k_logprobs: Option<Vec<TopKEntry>>,
}

/// Events of the token stream.
#[allow(inconsistent_fields)]
#[derive(Clone, Debug, PartialEq)]
pub enum GenerationEvent {
    /// Nothing to report.
    Nothing,
    ToolCallStarted,
    ToolCallStopped { chunk: Option<ChunkToolCall> },
    ReasoningStarted,
    ReasoningStopped,
    /// The name of a tool call is known.
    ToolCallNameChunk { chunk: ChunkToolCall },
    /// A piece of the arguments of a tool call.
    ToolCallArgumentsChunk { chunk: ChunkToolCall },
    /// A token of the answer.
    ContentSampled { sampling_result: SamplingResult },
    /// A token of the reasoning.
    ReasoningSampled { sampling_result: SamplingResult },
    /// Tokens that come next whatever the sampler says.
    ForceTokens { tokens: Vec<u32> },
    /// The end token.
    GenerationStopped,
}

/// What the tokens are part of.
#[derive(Clone, Copy, Debug, PartialEq, Eq, Structural)]
pub enum GenerationDataType {
    DirectContent,
    Reasoning,
    ToolCallName,
    ToolCallArguments,
}

/// A piece of output that is handed to the listener.
#[derive(Debug, Clone)]
pub struct StreamFrame {
    pub output: String,
    pub tool_call_chunk: Option<ChunkToolCall>,
    pub output_type: GenerationDataType,
    pub logprobs: Option<LogprobsContent>,
}

/// The outcome of a generation.
#[derive(Debug)]
pub struct GenerationReport {
    pub chat_message: ChatMessage,
    pub finish_reason: FinishReason,
    pub usage: Usage,
    pub token_generation_sec: Float64,
}

impl GenerationReport {
    /// An assistant message with the answer, the reasoning if there was any, and the tool calls
    /// if there were any.
    pub fn new(
        content_text: &str,
        reasoning_text: &str,
        tool_calls: Option<Vec<ToolCall>>,
        finish_reason: FinishReason,
        usage: Usage,
        token_generation_sec: Float64,
    ) -> (result: Self)
        ensures
            result.chat_message.role == Role::Assistant,
            text_of(result.chat_message.content) == Some(content_text@),
            text_of(result.chat_message.reasoning_content) == (if reasoning_text@.len() == 0 {
                None
            } else {
                Some(reasoning_text@)
            }),
            result.chat_message.tool_calls == (match tool_calls {
                Some(list) => if list@.len() == 0 {
                    None
                } else {
                    Some(list)
                },
                None => None,
            }),
            result.chat_message.tool_call_id is None,
            result.finish_reason == finish_reason,
            result.usage == usage,
            result.token_generation_sec == token_generation_sec,
    {
        let reasoning: Option<&str> = if reasoning_text.is_empty() {
            None
        } else {
            Some(reasoning_text)
        };
        let tools: Option<Vec<ToolCall>> = match tool_calls {
            Some(list) => if list.len() == 0 {
                None
            } else {
                Some(list)
            },
            None => None,
        };
        let chat_message = match tools {
            Some(list) => ChatMessage::with_tool_calls(
                Role::Assistant,
                content_text,
                list,
                reasoning,
            ),
            None => match reasoning {
                Some(text) => ChatMessage::with_reasoning_content(
                    Role::Assistant,
                    content_text,
                    text,
                ),
                None => ChatMessage::new(Role::Assistant, content_text),
            },
        };
        GenerationReport { chat_message, finish_reason, usage, token_generation_sec }
    }
}

/// The token ids that have a meaning of their own for a model.
#[derive(Debug, Clone, Copy, PartialEq, Eq, Structural)]
pub struct PostSamplingConfig {
    pub tool_call_start_token_id: Option<u32>,
    pub tool_call_end_token_id: Option<u32>,
    pub reasoning_start_token_id: Option<u32>,
    pub reasoning_end_token_id: Option<u32>,
    pub tool_call_format_style: ToolFormatStyle,
    pub arg_key_open_token_id: Option<u32>,
    pub arg_key_close_token_id: Option<u32>,
    pub arg_value_open_token_id: Option<u32>,
    pub arg_value_close_token_id: Option<u32>,
}

impl Default for PostSamplingConfig {
    fn default() -> (result: Self)
        ensures
            result == (PostSamplingConfig {
                tool_call_start_token_id: None,
                tool_call_end_token_id: None,
                reasoning_start_token_id: None,
                reasoning_end_token_id: None,
                tool_call_format_style: ToolFormatStyle::EnclosedJson,
                arg_key_open_token_id: None,
                arg_key_close_token_id: None,
                arg_value_open_token_id: None,
                arg_value_close_token_id: None,
            }),
    {
        PostSamplingConfig {
            tool_call_start_token_id: None,
            tool_call_end_token_id: None,
            reasoning_start_token_id: None,
            reasoning_end_token_id: None,
            tool_call_format_style: ToolFormatStyle::EnclosedJson,
            arg_key_open_token_id: None,
            arg_key_close_token_id: None,
            arg_value_open_token_id: None,
            arg_value_close_token_id: None,
        }
    }
}

} // verus!
