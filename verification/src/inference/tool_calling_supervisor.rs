//! Follows a tool call through the token stream and collects the finished calls.
use std::collections::HashMap;

use serde_json::Value;
use vstd::prelude::*;
use vstd::string::*;

use crate::ids::{is_id_text, new_id_text};
use crate::inference::reasoning_supervisor::{ends_in, last_is};
use crate::inference::tool_formatter::{
    formatter_for, joined, Formatting, ToolArgFormatter, ToolArgFormatterBuilder, ToolFormatter,
};
use crate::inference::types::{GenerationDataType, GenerationEvent, PostSamplingConfig};
use crate::text::{
    after_bytes, byte_len, bytes_of, is_boundary, keep_name_chars, lacks_end,
    lemma_boundary_stays, lemma_outer_boundaries, lemma_split_at_boundary, lemma_whole_text,
    name_part, text_after, text_before, trimmed_lacks_end,
};
use crate::tokenizer::{fresh_stream, StreamContext, StreamView, Tokenizer, TokenizerView};
use crate::types::{
    argument_map, call_models, copy_calls, ChunkFunctionCall, ChunkToolCall, ChunkToolCallView,
    FunctionDefinition, ToolCall, ToolCallView, ToolChoice, ToolChoiceMode, ToolChoiceView,
};

verus! {

/// How far the current call has been read.
#[derive(Debug, Clone, Copy, PartialEq, Eq, Structural)]
pub enum StateEnum {
    /// Nothing has been read.
    Idle,
    NamePrefix,
    NameContent,
    ArgumentsPrefix,
    ArgumentsContent,
}

/// The parts of the context that reading a call changes.
#[verifier::ext_equal]
pub struct CallParts<F> {
    pub formatter: F,
    pub stream: StreamView,
    /// Tokens that are not decoded yet.
    pub ids: Seq<u32>,
    /// Text that is not assigned yet.
    pub scratch: Seq<char>,
    pub name: Seq<char>,
    pub arguments: Seq<char>,
}

/// The outcome of a step: the next state or an error, the parts, and whether a name was found.
pub struct Transition<F> {
    pub result: Result<StateEnum, Seq<char>>,
    pub parts: CallParts<F>,
    pub named: bool,
}

/// Decodes the waiting tokens and looks for the text before the name.
pub open spec fn name_prefix_step<F: ToolArgFormatter>(
    tokenizer: TokenizerView,
    parts: CallParts<F>,
) -> Transition<F> {
    let decoded = tokenizer.decoding(parts.stream, parts.ids);
    match decoded.result {
        Err(message) => Transition {
            result: Err(message),
            parts: CallParts { stream: decoded.stream, ..parts },
            named: false,
        },
        Ok(None) => Transition {
            result: Ok(StateEnum::NamePrefix),
            parts: CallParts { stream: decoded.stream, ids: seq![], ..parts },
            named: false,
        },
        Ok(Some(text)) => {
            let (found, rest) = parts.formatter.name_prefix_stripped(parts.scratch + text);
            let after = CallParts {
                stream: decoded.stream,
                ids: seq![],
                scratch: rest,
                ..parts
            };
            if found {
                name_content_step(tokenizer, after)
            } else {
                Transition { result: Ok(StateEnum::NamePrefix), parts: after, named: false }
            }
        },
    }
}

/// Looks for the name.
pub open spec fn name_content_step<F: ToolArgFormatter>(
    tokenizer: TokenizerView,
    parts: CallParts<F>,
) -> Transition<F> {
    let found = parts.formatter.extraction(tokenizer, parts.ids, parts.scratch, parts.stream);
    match found.result {
        Err(message) => Transition {
            result: Err(message),
            parts: CallParts { stream: found.stream, scratch: found.buffer, ..parts },
            named: false,
        },
        Ok(None) => Transition {
            result: Ok(StateEnum::NameContent),
            parts: CallParts {
                stream: found.stream,
                scratch: found.buffer,
                ids: seq![],
                ..parts
            },
            named: false,
        },
        Ok(Some(name)) => {
            let after = CallParts {
                stream: found.stream,
                scratch: found.buffer,
                ids: seq![],
                name: name_part(name),
                ..parts
            };
            Transition { named: true, ..arguments_prefix_step(tokenizer, after) }
        },
    }
}

/// Decodes the waiting tokens and looks for the text before the arguments.
pub open spec fn arguments_prefix_step<F: ToolArgFormatter>(
    tokenizer: TokenizerView,
    parts: CallParts<F>,
) -> Transition<F> {
    let decoded = tokenizer.decoding(parts.stream, parts.ids);
    match decoded.result {
        Err(message) => Transition {
            result: Err(message),
            parts: CallParts { stream: decoded.stream, ..parts },
            named: false,
        },
        Ok(None) => Transition {
            result: Ok(StateEnum::ArgumentsPrefix),
            parts: CallParts { stream: decoded.stream, ids: seq![], ..parts },
            named: false,
        },
        Ok(Some(text)) => {
            let (found, rest) = parts.formatter.arguments_prefix_stripped(parts.scratch + text);
            let after = CallParts {
                stream: decoded.stream,
                ids: seq![],
                scratch: rest,
                ..parts
            };
            if found {
                arguments_content_step(tokenizer, after)
            } else {
                Transition { result: Ok(StateEnum::ArgumentsPrefix), parts: after, named: false }
            }
        },
    }
}

/// The parts once the decoded text has become a piece of the arguments.
pub open spec fn arguments_grown<F: ToolArgFormatter>(parts: CallParts<F>) -> CallParts<F> {
    let (formatter, text) = parts.formatter.fixed(parts.scratch, parts.arguments.len() == 0);
    CallParts { formatter, scratch: seq![], arguments: parts.arguments + text, ..parts }
}

/// Decodes the waiting tokens as arguments.
pub open spec fn arguments_content_step<F: ToolArgFormatter>(
    tokenizer: TokenizerView,
    parts: CallParts<F>,
) -> Transition<F> {
    let text = parts.formatter.formatted(tokenizer, parts.ids, parts.scratch, parts.stream);
    match text.result {
        Err(message) => Transition {
            result: Err(message),
            parts: CallParts { stream: text.stream, scratch: text.buffer, ..parts },
            named: false,
        },
        Ok(()) => Transition {
            result: Ok(StateEnum::ArgumentsContent),
            parts: arguments_grown(
                CallParts { stream: text.stream, scratch: text.buffer, ids: seq![], ..parts },
            ),
            named: false,
        },
    }
}

/// The step from a state.
pub open spec fn step_from<F: ToolArgFormatter>(
    state: StateEnum,
    tokenizer: TokenizerView,
    parts: CallParts<F>,
) -> Transition<F> {
    match state {
        StateEnum::Idle => name_prefix_step(tokenizer, parts),
        StateEnum::NamePrefix => name_prefix_step(tokenizer, parts),
        StateEnum::NameContent => name_content_step(tokenizer, parts),
        StateEnum::ArgumentsPrefix => arguments_prefix_step(tokenizer, parts),
        StateEnum::ArgumentsContent => arguments_content_step(tokenizer, parts),
    }
}

/// The model of a result with a state.
pub open spec fn state_or_text(result: Result<StateEnum, String>) -> Result<StateEnum, Seq<char>> {
    match result {
        Ok(state) => Ok(state),
        Err(message) => Err(message@),
    }
}

/// What a supervisor of tool calls knows.
pub struct ToolCallingSupervisorContext<'a, F: ToolArgFormatter, T: Tokenizer> {
    pub formatter: F,
    pub tokenizer: &'a T,
    /// The decoder's memory.
    pub stream_ctx: StreamContext,
    pub tool_call_start_token_id: u32,
    pub tool_call_end_token_id: u32,
    /// The finished calls.
    pub tool_calls: Vec<ToolCall>,
    pub current_tool_id: String,
    pub current_tool_name: String,
    pub current_tool_arguments: String,
    pub current_ids_buffer: Vec<u32>,
    pub decoded_scratchpad: String,
    /// How many bytes of the arguments have been handed out.
    pub stream_args_pos: usize,
}

impl<'a, F: ToolArgFormatter, T: Tokenizer> ToolCallingSupervisorContext<'a, F, T> {
    pub open spec fn parts(&self) -> CallParts<F> {
        CallParts {
            formatter: self.formatter,
            stream: self.stream_ctx@,
            ids: self.current_ids_buffer@,
            scratch: self.decoded_scratchpad@,
            name: self.current_tool_name@,
            arguments: self.current_tool_arguments@,
        }
    }

    /// Nothing but the parts of the call and its id differ.
    pub open spec fn same_frame(&self, other: Self) -> bool {
        &&& self.tokenizer == other.tokenizer
        &&& self.tool_call_start_token_id == other.tool_call_start_token_id
        &&& self.tool_call_end_token_id == other.tool_call_end_token_id
        &&& self.tool_calls == other.tool_calls
        &&& self.stream_args_pos == other.stream_args_pos
    }

    /// `after` is what the transition makes of this context.
    pub open spec fn moves(
        &self,
        result: Result<StateEnum, String>,
        after: Self,
        transition: Transition<F>,
    ) -> bool {
        &&& self.same_frame(after)
        &&& state_or_text(result) == transition.result
        &&& after.parts() == transition.parts
        &&& if transition.named {
            is_id_text(after.current_tool_id@)
        } else {
            after.current_tool_id == self.current_tool_id
        }
    }

    /// Takes over a name, cleaned.
    pub fn set_tool_name(&mut self, name: String)
        ensures
            final(self).same_frame(*old(self)),
            final(self).parts() == (CallParts { name: name_part(name@), ..old(self).parts() }),
            final(self).current_tool_id == old(self).current_tool_id,
    {
        self.current_tool_name = keep_name_chars(name.as_str());
    }

    /// Decodes the waiting tokens as arguments.
    fn format_and_decode_args(&mut self) -> (result: Result<(), String>)
        ensures
            final(self).same_frame(*old(self)),
            final(self).current_tool_id == old(self).current_tool_id,
            ({
                let before = old(self).parts();
                let text = before.formatter.formatted(
                    old(self).tokenizer.model(),
                    before.ids,
                    before.scratch,
                    before.stream,
                );
                match result {
                    Ok(()) => text.result is Ok && final(self).parts() == (CallParts {
                        stream: text.stream,
                        scratch: text.buffer,
                        ids: seq![],
                        ..before
                    }),
                    Err(message) => {
                        &&& text.result == Err::<(), Seq<char>>(message@)
                        &&& final(self).parts() == (CallParts {
                            stream: text.stream,
                            scratch: text.buffer,
                            ..before
                        })
                    },
                }
            }),
    {
        let tokenizer = self.tokenizer;
        match self.formatter.format_args(
            self.current_ids_buffer.as_slice(),
            &mut self.decoded_scratchpad,
            tokenizer,
            &mut self.stream_ctx,
        ) {
            Ok(()) => {
                self.current_ids_buffer.clear();
                Ok(())
            },
            Err(message) => Err(message),
        }
    }

    /// Turns the decoded text into a piece of the arguments.
    fn fix_and_update_args(&mut self)
        ensures
            final(self).same_frame(*old(self)),
            final(self).current_tool_id == old(self).current_tool_id,
            final(self).parts() == arguments_grown(old(self).parts()),
    {
        let first = self.current_tool_arguments.as_str().is_empty();
        self.formatter.fix_json(&mut self.decoded_scratchpad, first);
        self.current_tool_arguments.append(self.decoded_scratchpad.as_str());
        self.decoded_scratchpad = String::new();
    }
}

/// A state of the reader.
pub trait ToolCallParsingState {
    spec fn state(&self) -> StateEnum;

    /// Reads on from this state.
    fn next_state<F: ToolArgFormatter, T: Tokenizer>(
        &self,
        context: &mut ToolCallingSupervisorContext<'_, F, T>,
    ) -> (result: Result<StateEnum, String>)
        ensures
            old(context).moves(
                result,
                *final(context),
                step_from(self.state(), old(context).tokenizer.model(), old(context).parts()),
            ),
    ;
}

pub struct NoneState;

impl ToolCallParsingState for NoneState {
    open spec fn state(&self) -> StateEnum {
        StateEnum::Idle
    }

    fn next_state<F: ToolArgFormatter, T: Tokenizer>(
        &self,
        context: &mut ToolCallingSupervisorContext<'_, F, T>,
    ) -> (result: Result<StateEnum, String>) {
        assert(self.state() == StateEnum::Idle);
        NamePrefixState.next_state(context)
    }
}

pub struct NamePrefixState;

impl ToolCallParsingState for NamePrefixState {
    open spec fn state(&self) -> StateEnum {
        StateEnum::NamePrefix
    }

    fn next_state<F: ToolArgFormatter, T: Tokenizer>(
        &self,
        context: &mut ToolCallingSupervisorContext<'_, F, T>,
    ) -> (result: Result<StateEnum, String>) {
        assert(self.state() == StateEnum::NamePrefix);
        let tokenizer = context.tokenizer;
        match tokenizer.process_multiple_token_stream(
            &mut context.stream_ctx,
            context.current_ids_buffer.as_slice(),
        ) {
            Err(message) => Err(message),
            Ok(None) => {
                context.current_ids_buffer.clear();
                Ok(StateEnum::NamePrefix)
            },
            Ok(Some(text)) => {
                context.current_ids_buffer.clear();
                context.decoded_scratchpad.append(text.as_str());
                if context.formatter.try_strip_name_prefix(&mut context.decoded_scratchpad) {
                    return NameContentState.next_state(context);
                }
                Ok(StateEnum::NamePrefix)
            },
        }
    }
}

pub struct NameContentState;

impl ToolCallParsingState for NameContentState {
    open spec fn state(&self) -> StateEnum {
        StateEnum::NameContent
    }

    fn next_state<F: ToolArgFormatter, T: Tokenizer>(
        &self,
        context: &mut ToolCallingSupervisorContext<'_, F, T>,
    ) -> (result: Result<StateEnum, String>) {
        assert(self.state() == StateEnum::NameContent);
        let tokenizer = context.tokenizer;
        match context.formatter.try_extract_function_name(
            context.current_ids_buffer.as_slice(),
            &mut context.decoded_scratchpad,
            tokenizer,
            &mut context.stream_ctx,
        ) {
            Err(message) => Err(message),
            Ok(None) => {
                context.current_ids_buffer.clear();
                Ok(StateEnum::NameContent)
            },
            Ok(Some(tool_name)) => {
                context.current_ids_buffer.clear();
                context.set_tool_name(tool_name);
                context.current_tool_id = new_id_text();
                ArgumentsPrefixState.next_state(context)
            },
        }
    }
}

pub struct ArgumentsPrefixState;

impl ToolCallParsingState for ArgumentsPrefixState {
    open spec fn state(&self) -> StateEnum {
        StateEnum::ArgumentsPrefix
    }

    fn next_state<F: ToolArgFormatter, T: Tokenizer>(
        &self,
        context: &mut ToolCallingSupervisorContext<'_, F, T>,
    ) -> (result: Result<StateEnum, String>) {
        assert(self.state() == StateEnum::ArgumentsPrefix);
        let tokenizer = context.tokenizer;
        match tokenizer.process_multiple_token_stream(
            &mut context.stream_ctx,
            context.current_ids_buffer.as_slice(),
        ) {
            Err(message) => Err(message),
            Ok(None) => {
                context.current_ids_buffer.clear();
                Ok(StateEnum::ArgumentsPrefix)
            },
            Ok(Some(text)) => {
                context.current_ids_buffer.clear();
                context.decoded_scratchpad.append(text.as_str());
                if context.formatter.try_strip_arguments_prefix(&mut context.decoded_scratchpad) {
                    return ArgumentsContentState.next_state(context);
                }
                Ok(StateEnum::ArgumentsPrefix)
            },
        }
    }
}

pub struct ArgumentsContentState;

impl ToolCallParsingState for ArgumentsContentState {
    open spec fn state(&self) -> StateEnum {
        StateEnum::ArgumentsContent
    }

    fn next_state<F: ToolArgFormatter, T: Tokenizer>(
        &self,
        context: &mut ToolCallingSupervisorContext<'_, F, T>,
    ) -> (result: Result<StateEnum, String>) {
        assert(self.state() == StateEnum::ArgumentsContent);
        match context.format_and_decode_args() {
            Ok(()) => {
                context.fix_and_update_args();
                Ok(StateEnum::ArgumentsContent)
            },
            Err(message) => Err(message),
        }
    }
}

impl StateEnum {
    pub fn next_state<F: ToolArgFormatter, T: Tokenizer>(
        &self,
        context: &mut ToolCallingSupervisorContext<'_, F, T>,
    ) -> (result: Result<StateEnum, String>)
        ensures
            old(context).moves(
                result,
                *final(context),
                step_from(*self, old(context).tokenizer.model(), old(context).parts()),
            ),
    {
        match self {
            StateEnum::Idle => NoneState.next_state(context),
            StateEnum::NamePrefix => NamePrefixState.next_state(context),
            StateEnum::NameContent => NameContentState.next_state(context),
            StateEnum::ArgumentsPrefix => ArgumentsPrefixState.next_state(context),
            StateEnum::ArgumentsContent => ArgumentsContentState.next_state(context),
        }
    }
}

/// The tokens without the end token, if they end in it.
pub open spec fn without_end(ids: Seq<u32>, end: u32) -> Seq<u32> {
    if ends_in(ids, end) {
        ids.drop_last()
    } else {
        ids
    }
}

/// An id that is there is kept; otherwise there is a new one.
pub open spec fn kept_or_new(before: Seq<char>, after: Seq<char>) -> bool {
    if before.len() == 0 {
        is_id_text(after)
    } else {
        after == before
    }
}

/// The piece that announces a call.
pub open spec fn initial_chunk(id: Seq<char>, name: Seq<char>) -> ChunkToolCallView {
    ChunkToolCallView {
        index: 0,
        id: Some(id),
        kind: Some("function"@),
        name: Some(name),
        arguments: seq![],
    }
}

/// A piece of the arguments.
pub open spec fn argument_chunk(arguments: Seq<char>) -> ChunkToolCallView {
    ChunkToolCallView { index: 0, id: None, kind: None, name: None, arguments }
}

/// The piece of the arguments that has not been handed out, if there is one.
pub open spec fn pending(arguments: Seq<char>, pos: usize) -> Option<ChunkToolCallView> {
    if pos >= byte_len(arguments) {
        None
    } else {
        Some(argument_chunk(text_after(arguments, pos as int)))
    }
}

/// How many bytes of the arguments have been handed out once the pending piece has.
pub open spec fn pos_after(arguments: Seq<char>, pos: usize) -> int {
    if pos >= byte_len(arguments) {
        pos as int
    } else {
        byte_len(arguments) as int
    }
}

/// The model of an optional piece.
pub open spec fn chunk_of(chunk: Option<ChunkToolCall>) -> Option<ChunkToolCallView> {
    match chunk {
        Some(c) => Some(c.model()),
        None => None,
    }
}

/// The arguments with a closing brace, if they lack one.
pub open spec fn braced(arguments: Seq<char>) -> Seq<char> {
    if lacks_end(arguments, '}') {
        arguments.push('}')
    } else {
        arguments
    }
}

/// What becomes of the parts when a call ends: waiting tokens are decoded, as the name if there
/// is none yet, or as the rest of the arguments.
pub open spec fn closing<F: ToolArgFormatter>(
    tokenizer: TokenizerView,
    ongoing: GenerationDataType,
    parts: CallParts<F>,
    end: u32,
) -> (Result<(), Seq<char>>, CallParts<F>) {
    let clean = without_end(parts.ids, end);
    match ongoing {
        GenerationDataType::ToolCallName => if parts.name.len() > 0 {
            (Ok(()), CallParts { ids: seq![], ..parts })
        } else {
            let text = if clean.len() == 0 {
                Formatting { result: Ok(()), buffer: parts.scratch, stream: parts.stream }
            } else {
                joined(parts.scratch, tokenizer.decoding(parts.stream, clean))
            };
            match text.result {
                Err(message) => (Err(message), CallParts { stream: text.stream, ..parts }),
                Ok(()) => (
                    Ok(()),
                    CallParts {
                        stream: text.stream,
                        ids: seq![],
                        scratch: seq![],
                        name: name_part(text.buffer),
                        ..parts
                    },
                ),
            }
        },
        GenerationDataType::ToolCallArguments => if clean.len() == 0 {
            (
                Ok(()),
                CallParts { ids: clean, arguments: braced(parts.arguments), ..parts },
            )
        } else {
            let text = parts.formatter.formatted(tokenizer, clean, parts.scratch, parts.stream);
            match text.result {
                Err(message) => (
                    Err(message),
                    CallParts { stream: text.stream, scratch: text.buffer, ids: clean, ..parts },
                ),
                Ok(()) => {
                    let grown = arguments_grown(
                        CallParts {
                            stream: text.stream,
                            scratch: text.buffer,
                            ids: seq![],
                            ..parts
                        },
                    );
                    (Ok(()), CallParts { arguments: braced(grown.arguments), ..grown })
                },
            }
        },
        _ => (Ok(()), parts),
    }
}

/// What `serde_json` makes of a text that is to be an object: its members by name, or the text
/// of the error.
pub uninterp spec fn json_object(text: Seq<char>) -> Result<Map<Seq<char>, Value>, Seq<char>>;

/// `serde_json::from_str` into a map from names to values; what it makes of the text depends on
/// the text alone. Which texts are objects, and what their members are, is not stated.
#[verifier::external_body]
fn parse_object(text: &str) -> (result: Result<HashMap<String, Value>, String>)
    ensures
        match result {
            Ok(members) => json_object(text@) == Ok::<Map<Seq<char>, Value>, Seq<char>>(
                argument_map(members@),
            ),
            Err(message) => json_object(text@) == Err::<Map<Seq<char>, Value>, Seq<char>>(
                message@,
            ),
        },
{
    serde_json::from_str::<HashMap<String, Value>>(text).map_err(|e| e.to_string())
}

/// The arguments of a finished call: none if there is no text, else what the JSON text says.
pub open spec fn final_arguments(text: Seq<char>) -> Result<Map<Seq<char>, Value>, Seq<char>> {
    if text.len() == 0 {
        Ok(Map::empty())
    } else {
        json_object(text)
    }
}

/// The report of arguments that are no JSON object.
pub open spec fn bad_arguments(text: Seq<char>, error: Seq<char>) -> Seq<char> {
    "Failed to parse model tool arguments into JSON. Raw String: '"@ + text + "'. Error: "@ + error
}

/// The model of the outcome of a parse.
pub open spec fn parsed_members(parsed: Result<HashMap<String, Value>, String>) -> Result<
    Map<Seq<char>, Value>,
    Seq<char>,
> {
    match parsed {
        Ok(members) => Ok(argument_map(members@)),
        Err(message) => Err(message@),
    }
}

/// A supervisor of the tool calls of a generation.
/// An implementation that is not verified may leave the specification functions out.
pub trait ToolCallingSupervisorInterface: Sized {
    /// `result` and `after` are a possible outcome of `advance`.
    closed spec fn advances(
        &self,
        token_ids: Seq<u32>,
        ongoing: GenerationDataType,
        result: Result<GenerationEvent, String>,
        after: Self,
    ) -> bool {
        arbitrary()
    }

    /// The answer of `tool_calls`.
    closed spec fn calls(&self) -> Option<Seq<ToolCallView>> {
        arbitrary()
    }

    /// The supervisor is in order.
    closed spec fn wf(&self) -> bool {
        arbitrary()
    }

    fn advance(&mut self, token_ids: &[u32], ongoing_gen_type: &GenerationDataType) -> (result:
        Result<GenerationEvent, String>)
        requires
            old(self).wf(),
        ensures
            final(self).wf(),
            old(self).advances(token_ids@, *ongoing_gen_type, result, *final(self)),
    ;

    fn tool_calls(&self) -> (result: Option<Vec<ToolCall>>)
        ensures
            match result {
                Some(list) => self.calls() == Some(call_models(list@)),
                None => self.calls() is None,
            },
    ;
}

/// Reads tool calls out of the token stream.
pub struct ToolCallingSupervisor<'a, F: ToolArgFormatter, T: Tokenizer> {
    pub context: ToolCallingSupervisorContext<'a, F, T>,
    pub tool_call_parsing_state: StateEnum,
}

impl<'a, F: ToolArgFormatter, T: Tokenizer> ToolCallingSupervisor<'a, F, T> {
    /// The parts of the current call.
    pub open spec fn parts(&self) -> CallParts<F> {
        self.context.parts()
    }

    /// The pending piece of the arguments begins with a whole character, if there is one.
    pub open spec fn can_emit(&self) -> bool {
        self.context.stream_args_pos < byte_len(self.parts().arguments) ==> is_boundary(
            self.parts().arguments,
            self.context.stream_args_pos as int,
        )
    }

    /// The tokenizer and the marker tokens are the same.
    pub open spec fn same_setup(&self, other: Self) -> bool {
        &&& self.context.tokenizer == other.context.tokenizer
        &&& self.context.tool_call_start_token_id == other.context.tool_call_start_token_id
        &&& self.context.tool_call_end_token_id == other.context.tool_call_end_token_id
    }

    /// Everything but the id, the parts and what was handed out is the same.
    pub open spec fn same_calls(&self, other: Self) -> bool {
        &&& self.same_setup(other)
        &&& self.context.tool_calls == other.context.tool_calls
        &&& self.tool_call_parsing_state == other.tool_call_parsing_state
    }

    pub fn detect_tool_call_start(&self, token_ids: &[u32]) -> (result: bool)
        ensures
            result == ends_in(token_ids@, self.context.tool_call_start_token_id),
    {
        last_is(token_ids, self.context.tool_call_start_token_id)
    }

    pub fn detect_tool_call_end(&self) -> (result: bool)
        ensures
            result == ends_in(self.parts().ids, self.context.tool_call_end_token_id),
    {
        last_is(self.context.current_ids_buffer.as_slice(), self.context.tool_call_end_token_id)
    }

    /// The piece that announces the current call; the call gets an id if it has none.
    pub fn emit_initial_tool_call_chunk(&mut self) -> (result: ChunkToolCall)
        ensures
            final(self).same_calls(*old(self)),
            final(self).parts() == old(self).parts(),
            final(self).context.stream_args_pos == old(self).context.stream_args_pos,
            kept_or_new(old(self).context.current_tool_id@, final(self).context.current_tool_id@),
            result.model() == initial_chunk(
                final(self).context.current_tool_id@,
                old(self).parts().name,
            ),
    {
        if self.context.current_tool_id.as_str().is_empty() {
            self.context.current_tool_id = new_id_text();
        }
        ChunkToolCall {
            index: 0,
            id: Some(self.context.current_tool_id.clone()),
            kind: Some(String::from_str("function")),
            function: ChunkFunctionCall {
                name: Some(self.context.current_tool_name.clone()),
                arguments: String::new(),
            },
        }
    }

    /// The piece of the arguments that has not been handed out, if there is one.
    pub fn emit_arg_tool_call_chunk(&mut self) -> (result: Option<ChunkToolCall>)
        requires
            old(self).can_emit(),
        ensures
            final(self).same_calls(*old(self)),
            final(self).parts() == old(self).parts(),
            final(self).context.current_tool_id == old(self).context.current_tool_id,
            chunk_of(result) == pending(
                old(self).parts().arguments,
                old(self).context.stream_args_pos,
            ),
            final(self).context.stream_args_pos == pos_after(
                old(self).parts().arguments,
                old(self).context.stream_args_pos,
            ),
    {
        let len: usize = bytes_of(self.context.current_tool_arguments.as_str());
        if self.context.stream_args_pos >= len {
            return None;
        }
        let arguments = after_bytes(
            self.context.current_tool_arguments.as_str(),
            self.context.stream_args_pos,
        );
        self.context.stream_args_pos = len;
        Some(
            ChunkToolCall {
                index: 0,
                id: None,
                kind: None,
                function: ChunkFunctionCall { name: None, arguments },
            },
        )
    }

    /// The event to report after a step, if there is one: the name once it is known, or a piece
    /// of the arguments.
    pub fn emit_tool_call_chunk_event(&mut self, ongoing_gen_type: &GenerationDataType) -> (result:
        Option<GenerationEvent>)
        requires
            *ongoing_gen_type is ToolCallArguments ==> old(self).can_emit(),
        ensures
            final(self).same_calls(*old(self)),
            final(self).parts() == old(self).parts(),
            match *ongoing_gen_type {
                GenerationDataType::ToolCallName => {
                    &&& final(self).context.stream_args_pos == old(self).context.stream_args_pos
                    &&& if old(self).parts().name.len() > 0 {
                        &&& kept_or_new(
                            old(self).context.current_tool_id@,
                            final(self).context.current_tool_id@,
                        )
                        &&& result matches Some(GenerationEvent::ToolCallNameChunk { chunk })
                        &&& chunk.model() == initial_chunk(
                            final(self).context.current_tool_id@,
                            old(self).parts().name,
                        )
                    } else {
                        &&& final(self).context.current_tool_id
                            == old(self).context.current_tool_id
                        &&& result is None
                    }
                },
                GenerationDataType::ToolCallArguments => {
                    &&& final(self).context.current_tool_id == old(self).context.current_tool_id
                    &&& final(self).context.stream_args_pos == pos_after(
                        old(self).parts().arguments,
                        old(self).context.stream_args_pos,
                    )
                    &&& match pending(
                        old(self).parts().arguments,
                        old(self).context.stream_args_pos,
                    ) {
                        Some(piece) => {
                            &&& result matches Some(
                                GenerationEvent::ToolCallArgumentsChunk { chunk },
                            )
                            &&& chunk.model() == piece
                        },
                        None => result is None,
                    }
                },
                _ => result is None && *final(self) == *old(self),
            },
    {
        match ongoing_gen_type {
            GenerationDataType::ToolCallName => {
                if !self.context.current_tool_name.as_str().is_empty() {
                    let chunk = self.emit_initial_tool_call_chunk();
                    Some(GenerationEvent::ToolCallNameChunk { chunk })
                } else {
                    None
                }
            },
            GenerationDataType::ToolCallArguments => match self.emit_arg_tool_call_chunk() {
                Some(chunk) => Some(GenerationEvent::ToolCallArgumentsChunk { chunk }),
                None => None,
            },
            _ => None,
        }
    }

    /// Drops the end token from the waiting tokens, if they end in it.
    fn drop_end_token(&mut self)
        ensures
            final(self).same_calls(*old(self)),
            final(self).context.current_tool_id == old(self).context.current_tool_id,
            final(self).context.stream_args_pos == old(self).context.stream_args_pos,
            final(self).parts() == (CallParts {
                ids: without_end(old(self).parts().ids, old(self).context.tool_call_end_token_id),
                ..old(self).parts()
            }),
    {
        if self.detect_tool_call_end() {
            let n: usize = self.context.current_ids_buffer.len();
            self.context.current_ids_buffer.truncate(n - 1);
            assert(self.context.current_ids_buffer@ =~= old(self).parts().ids.drop_last());
        }
    }

    /// Decodes what is left of the call and gives the piece that is to be handed out.
    fn complete_parts(&mut self, ongoing_gen_type: &GenerationDataType) -> (result: Result<
        Option<ChunkToolCall>,
        String,
    >)
        requires
            old(self).wf(),
        ensures
            final(self).wf(),
            final(self).same_calls(*old(self)),
            ({
                let (outcome, parts) = closing(
                    old(self).context.tokenizer.model(),
                    *ongoing_gen_type,
                    old(self).parts(),
                    old(self).context.tool_call_end_token_id,
                );
                &&& final(self).parts() == parts
                &&& match outcome {
                    Err(message) => {
                        &&& result is Err
                        &&& result->Err_0@ == message
                        &&& final(self).context.current_tool_id
                            == old(self).context.current_tool_id
                        &&& final(self).context.stream_args_pos
                            == old(self).context.stream_args_pos
                    },
                    Ok(()) => {
                        &&& result is Ok
                        &&& final(self).closing_figures(
                            *old(self),
                            *ongoing_gen_type,
                            result->Ok_0,
                        )
                    },
                }
            }),
    {
        match ongoing_gen_type {
            GenerationDataType::ToolCallName => {
                if self.context.current_tool_name.as_str().is_empty() {
                    let tokenizer = self.context.tokenizer;
                    let mut clean: Vec<u32> = self.context.current_ids_buffer.clone();
                    assert(clean@ =~= self.context.current_ids_buffer@);
                    if last_is(clean.as_slice(), self.context.tool_call_end_token_id) {
                        let n: usize = clean.len();
                        clean.truncate(n - 1);
                        assert(clean@ =~= self.context.current_ids_buffer@.drop_last());
                    }
                    if clean.len() > 0 {
                        match tokenizer.process_multiple_token_stream(
                            &mut self.context.stream_ctx,
                            clean.as_slice(),
                        ) {
                            Ok(Some(text)) => {
                                self.context.decoded_scratchpad.append(text.as_str());
                            },
                            Ok(None) => {},
                            Err(message) => {
                                return Err(message);
                            },
                        }
                    }
                    let name = self.context.decoded_scratchpad.clone();
                    self.context.decoded_scratchpad = String::new();
                    self.context.set_tool_name(name);
                }
                self.context.current_ids_buffer.clear();
                Ok(Some(self.emit_initial_tool_call_chunk()))
            },
            GenerationDataType::ToolCallArguments => {
                self.drop_end_token();
                if self.context.current_ids_buffer.len() > 0 {
                    match self.context.format_and_decode_args() {
                        Ok(()) => {},
                        Err(message) => {
                            return Err(message);
                        },
                    }
                    self.context.fix_and_update_args();
                }
                if trimmed_lacks_end(self.context.current_tool_arguments.as_str(), '}') {
                    self.context.current_tool_arguments.push('}');
                }
                proof {
                    let given = old(self).parts().arguments;
                    let grown = self.parts().arguments;
                    assert(given =~= grown.subrange(0, given.len() as int));
                    lemma_boundary_stays(given, grown, self.context.stream_args_pos as int);
                    lemma_outer_boundaries(grown);
                }
                Ok(self.emit_arg_tool_call_chunk())
            },
            _ => Ok(None),
        }
    }

    /// The id, what was handed out and the piece that goes out when a call ends.
    pub open spec fn closing_figures(
        &self,
        before: Self,
        ongoing: GenerationDataType,
        chunk: Option<ChunkToolCall>,
    ) -> bool {
        match ongoing {
            GenerationDataType::ToolCallName => {
                &&& kept_or_new(
                    before.context.current_tool_id@,
                    self.context.current_tool_id@,
                )
                &&& self.context.stream_args_pos == before.context.stream_args_pos
                &&& chunk_of(chunk) == Some(
                    initial_chunk(self.context.current_tool_id@, self.parts().name),
                )
            },
            GenerationDataType::ToolCallArguments => {
                &&& self.context.current_tool_id == before.context.current_tool_id
                &&& self.context.stream_args_pos == pos_after(
                    self.parts().arguments,
                    before.context.stream_args_pos,
                )
                &&& chunk_of(chunk) == pending(
                    self.parts().arguments,
                    before.context.stream_args_pos,
                )
            },
            _ => {
                &&& self.context.current_tool_id == before.context.current_tool_id
                &&& self.context.stream_args_pos == before.context.stream_args_pos
                &&& chunk is None
            },
        }
    }

    /// Adds the current call to the finished ones, with the arguments that were parsed.
    pub fn record_call(&mut self, parsed: Result<HashMap<String, Value>, String>) -> (result:
        Result<(), String>)
        ensures
            final(self).parts() == old(self).parts(),
            final(self).same_setup(*old(self)),
            final(self).tool_call_parsing_state == old(self).tool_call_parsing_state,
            final(self).context.current_tool_id == old(self).context.current_tool_id,
            final(self).context.stream_args_pos == old(self).context.stream_args_pos,
            match parsed_members(parsed) {
                Ok(arguments) => {
                    &&& result is Ok
                    &&& call_models(final(self).context.tool_calls@) == call_models(
                        old(self).context.tool_calls@,
                    ).push(
                        ToolCallView {
                            id: old(self).context.current_tool_id@,
                            kind: "function"@,
                            name: old(self).parts().name,
                            arguments,
                        },
                    )
                },
                Err(error) => {
                    &&& result is Err
                    &&& result->Err_0@ == bad_arguments(old(self).parts().arguments, error)
                    &&& final(self).context.tool_calls == old(self).context.tool_calls
                },
            },
    {
        match parsed {
            Ok(arguments) => {
                let call = ToolCall {
                    id: self.context.current_tool_id.clone(),
                    kind: String::from_str("function"),
                    function: FunctionDefinition {
                        name: self.context.current_tool_name.clone(),
                        arguments,
                    },
                };
                let ghost before = self.context.tool_calls@;
                let ghost model = call.model();
                self.context.tool_calls.push(call);
                assert(call_models(self.context.tool_calls@) =~= call_models(before).push(model));
                Ok(())
            },
            Err(error) => {
                let mut message = String::from_str(
                    "Failed to parse model tool arguments into JSON. Raw String: '",
                );
                message.append(self.context.current_tool_arguments.as_str());
                message.append("'. Error: ");
                message.append(error.as_str());
                Err(message)
            },
        }
    }

    /// Ends the current call: decodes the rest, repairs a missing brace, parses the arguments and
    /// adds the call to the finished ones. Gives the piece that is to be handed out.
    pub fn finalize_tool_call(&mut self, ongoing_gen_type: &GenerationDataType) -> (result: Result<
        Option<ChunkToolCall>,
        String,
    >)
        requires
            old(self).wf(),
        ensures
            final(self).wf(),
            final(self).finalizes(*old(self), *ongoing_gen_type, result),
    {
        let chunk = match self.complete_parts(ongoing_gen_type) {
            Ok(chunk) => chunk,
            Err(message) => {
                return Err(message);
            },
        };
        let ghost text = self.parts().arguments;
        let parsed: Result<HashMap<String, Value>, String> =
            if self.context.current_tool_arguments.as_str().is_empty() {
            let none: HashMap<String, Value> = HashMap::new();
            assert(argument_map(none@) =~= Map::<Seq<char>, Value>::empty());
            Ok(none)
        } else {
            parse_object(self.context.current_tool_arguments.as_str())
        };
        assert(parsed_members(parsed) == final_arguments(text));
        let ghost piece = chunk;
        let recorded = self.record_call(parsed);
        assert(self.closing_figures(*old(self), *ongoing_gen_type, piece));
        match recorded {
            Ok(()) => Ok(chunk),
            Err(message) => Err(message),
        }
    }

    /// This supervisor is what finalizing makes of `before`.
    pub open spec fn finalizes(
        &self,
        before: Self,
        ongoing: GenerationDataType,
        result: Result<Option<ChunkToolCall>, String>,
    ) -> bool {
        let (outcome, parts) = closing(
            before.context.tokenizer.model(),
            ongoing,
            before.parts(),
            before.context.tool_call_end_token_id,
        );
        &&& self.same_setup(before)
        &&& self.tool_call_parsing_state == before.tool_call_parsing_state
        &&& self.parts() == parts
        &&& match outcome {
            Err(message) => {
                &&& result is Err
                &&& result->Err_0@ == message
                &&& self.context.current_tool_id == before.context.current_tool_id
                &&& self.context.stream_args_pos == before.context.stream_args_pos
                &&& self.context.tool_calls == before.context.tool_calls
            },
            Ok(()) => match final_arguments(parts.arguments) {
                Err(error) => {
                    &&& result is Err
                    &&& result->Err_0@ == bad_arguments(parts.arguments, error)
                    &&& self.context.tool_calls == before.context.tool_calls
                    &&& exists|chunk: Option<ChunkToolCall>|
                        #[trigger] self.closing_figures(before, ongoing, chunk)
                },
                Ok(arguments) => {
                    &&& result is Ok
                    &&& self.closing_figures(before, ongoing, result->Ok_0)
                    &&& call_models(self.context.tool_calls@) == call_models(
                        before.context.tool_calls@,
                    ).push(
                        ToolCallView {
                            id: self.context.current_tool_id@,
                            kind: "function"@,
                            name: parts.name,
                            arguments,
                        },
                    )
                },
            },
        }
    }

    /// Forgets the current call. Text that is not assigned yet is kept.
    pub fn reset(&mut self)
        ensures
            final(self).wf(),
            final(self).is_reset_of(*old(self)),
    {
        proof {
            lemma_outer_boundaries(seq![]);
        }
        self.context.current_ids_buffer.clear();
        self.context.current_tool_name = String::new();
        self.context.current_tool_id = String::new();
        self.context.current_tool_arguments = String::new();
        self.context.stream_args_pos = 0;
        self.context.formatter.reset();
        self.tool_call_parsing_state = StateEnum::Idle;
        self.context.stream_ctx.reset();
    }

    pub open spec fn is_reset_of(&self, before: Self) -> bool {
        &&& self.same_setup(before)
        &&& self.context.tool_calls == before.context.tool_calls
        &&& self.tool_call_parsing_state == StateEnum::Idle
        &&& self.context.current_tool_id@ == Seq::<char>::empty()
        &&& self.context.stream_args_pos == 0
        &&& self.parts() == (CallParts {
            formatter: before.parts().formatter.cleared(),
            stream: fresh_stream(),
            ids: seq![],
            scratch: before.parts().scratch,
            name: seq![],
            arguments: seq![],
        })
    }

    /// `result` is the answer of `get_tool_choice_template`.
    pub open spec fn gives_template(
        &self,
        tokenizer: TokenizerView,
        tool_choice: ToolChoiceView,
        result: Result<Option<Vec<u32>>, String>,
    ) -> bool {
        let start = self.context.tool_call_start_token_id;
        let expected = match tool_choice {
            ToolChoiceView::Mode(ToolChoiceMode::Required) => Some(
                self.context.formatter.template(tokenizer, start, None),
            ),
            ToolChoiceView::Specific(_, name) => Some(
                self.context.formatter.template(tokenizer, start, Some(name)),
            ),
            _ => None,
        };
        match expected {
            Some(Ok(ids)) => result matches Ok(Some(template)) && template@ == ids,
            Some(Err(message)) => result matches Err(text) && text@ == message,
            None => result matches Ok(None),
        }
    }

    /// The tokens that force the chosen tool: the opening of any call, the opening of the call of
    /// the named tool, or none.
    pub fn get_tool_choice_template(&self, tokenizer: &T, tool_choice: &ToolChoice) -> (result:
        Result<Option<Vec<u32>>, String>)
        ensures
            self.gives_template(tokenizer.model(), tool_choice.model(), result),
    {
        match tool_choice {
            ToolChoice::Mode(ToolChoiceMode::Required) => {
                match self.context.formatter.build_tool_call_template(
                    &self.context.tool_call_start_token_id,
                    None,
                    tokenizer,
                ) {
                    Ok(ids) => Ok(Some(ids)),
                    Err(message) => Err(message),
                }
            },
            ToolChoice::Specific(choice) => {
                match self.context.formatter.build_tool_call_template(
                    &self.context.tool_call_start_token_id,
                    Some(choice.function.name.as_str()),
                    tokenizer,
                ) {
                    Ok(ids) => Ok(Some(ids)),
                    Err(message) => Err(message),
                }
            },
            _ => Ok(None),
        }
    }
}

impl<'a, F: ToolArgFormatter, T: Tokenizer> ToolCallingSupervisor<'a, F, T> {
    /// The parts with further waiting tokens.
    pub open spec fn extended(&self, token_ids: Seq<u32>) -> CallParts<F> {
        CallParts { ids: self.parts().ids + token_ids, ..self.parts() }
    }

    /// `before` with further waiting tokens.
    pub open spec fn is_extended(&self, before: Self, token_ids: Seq<u32>) -> bool {
        &&& self.same_calls(before)
        &&& self.parts() == before.extended(token_ids)
        &&& self.context.current_tool_id == before.context.current_tool_id
        &&& self.context.stream_args_pos == before.context.stream_args_pos
    }

    /// This supervisor and the result are what reading on makes of `before`, whose call goes on.
    pub open spec fn reads_on(
        &self,
        before: Self,
        ongoing: GenerationDataType,
        result: Result<GenerationEvent, String>,
    ) -> bool {
        let step = step_from(
            before.tool_call_parsing_state,
            before.context.tokenizer.model(),
            before.parts(),
        );
        let announced = ongoing is ToolCallName && step.parts.name.len() > 0;
        &&& self.same_setup(before)
        &&& self.context.tool_calls == before.context.tool_calls
        &&& self.parts() == step.parts
        &&& match step.result {
            Err(message) => {
                &&& result is Err
                &&& result->Err_0@ == message
                &&& self.tool_call_parsing_state == before.tool_call_parsing_state
                &&& self.context.stream_args_pos == before.context.stream_args_pos
                &&& if step.named {
                    is_id_text(self.context.current_tool_id@)
                } else {
                    self.context.current_tool_id == before.context.current_tool_id
                }
            },
            Ok(state) => {
                &&& result is Ok
                &&& self.tool_call_parsing_state == state
                &&& if step.named {
                    is_id_text(self.context.current_tool_id@)
                } else if announced {
                    kept_or_new(
                        before.context.current_tool_id@,
                        self.context.current_tool_id@,
                    )
                } else {
                    self.context.current_tool_id == before.context.current_tool_id
                }
                &&& match ongoing {
                    GenerationDataType::ToolCallName => {
                        &&& self.context.stream_args_pos == before.context.stream_args_pos
                        &&& if announced {
                            &&& result->Ok_0 matches GenerationEvent::ToolCallNameChunk { chunk }
                            &&& chunk.model() == initial_chunk(
                                self.context.current_tool_id@,
                                step.parts.name,
                            )
                        } else {
                            result->Ok_0 is Nothing
                        }
                    },
                    _ => {
                        &&& self.context.stream_args_pos == pos_after(
                            step.parts.arguments,
                            before.context.stream_args_pos,
                        )
                        &&& match pending(
                            step.parts.arguments,
                            before.context.stream_args_pos,
                        ) {
                            Some(piece) => {
                                &&& result->Ok_0 matches GenerationEvent::ToolCallArgumentsChunk {
                                    chunk,
                                }
                                &&& chunk.model() == piece
                            },
                            None => result->Ok_0 is Nothing,
                        }
                    },
                }
            },
        }
    }

    /// A supervisor, if the model calls tools and its marker tokens are known.
    fn assembled(
        formatter: F,
        config: &PostSamplingConfig,
        tokenizer: &'a T,
    ) -> (result: Option<Self>)
        ensures
            result is Some <==> config.tool_call_start_token_id is Some
                && config.tool_call_end_token_id is Some,
            result matches Some(supervisor) ==> supervisor.is_fresh(formatter, *config, tokenizer)
                && supervisor.wf(),
    {
        proof {
            lemma_outer_boundaries(seq![]);
        }
        let tool_call_start_token_id: u32 = match config.tool_call_start_token_id {
            Some(id) => id,
            None => {
                return None;
            },
        };
        let tool_call_end_token_id: u32 = match config.tool_call_end_token_id {
            Some(id) => id,
            None => {
                return None;
            },
        };
        let context = ToolCallingSupervisorContext {
            formatter,
            tokenizer,
            stream_ctx: StreamContext::with_capacity(16),
            tool_call_start_token_id,
            tool_call_end_token_id,
            tool_calls: Vec::new(),
            current_tool_id: String::new(),
            current_tool_name: String::new(),
            current_tool_arguments: String::new(),
            current_ids_buffer: Vec::with_capacity(50),
            decoded_scratchpad: String::new(),
            stream_args_pos: 0,
        };
        Some(ToolCallingSupervisor { context, tool_call_parsing_state: StateEnum::Idle })
    }

    /// No call has been read.
    pub open spec fn is_fresh(
        &self,
        formatter: F,
        config: PostSamplingConfig,
        tokenizer: &T,
    ) -> bool {
        &&& self.context.tokenizer == tokenizer
        &&& config.tool_call_start_token_id == Some(self.context.tool_call_start_token_id)
        &&& config.tool_call_end_token_id == Some(self.context.tool_call_end_token_id)
        &&& self.context.tool_calls@ == Seq::<ToolCall>::empty()
        &&& self.context.current_tool_id@ == Seq::<char>::empty()
        &&& self.context.stream_args_pos == 0
        &&& self.tool_call_parsing_state == StateEnum::Idle
        &&& self.parts() == (CallParts {
            formatter,
            stream: fresh_stream(),
            ids: seq![],
            scratch: seq![],
            name: seq![],
            arguments: seq![],
        })
    }
}

impl<'a, T: Tokenizer> ToolCallingSupervisor<'a, ToolFormatter, T> {
    /// `result` is the supervisor of a new generation, if there is one.
    pub open spec fn is_new(
        supports_tool_calling: bool,
        config: PostSamplingConfig,
        tokenizer: &T,
        result: Result<Option<Self>, String>,
    ) -> bool {
        if !supports_tool_calling {
            result matches Ok(None)
        } else {
            match formatter_for(config) {
                Err(message) => {
                    &&& result is Err
                    &&& result->Err_0@ == "Failed to build tool argument formatter: "@ + message
                },
                Ok(formatter) => {
                    &&& result is Ok
                    &&& result->Ok_0 is Some <==> config.tool_call_start_token_id is Some
                        && config.tool_call_end_token_id is Some
                    &&& result->Ok_0 matches Some(supervisor) ==> supervisor.is_fresh(
                        formatter,
                        config,
                        tokenizer,
                    )
                },
            }
        }
    }

    /// A supervisor for a model's notation. There is none if the model calls no tools or if its
    /// marker tokens are not known; an incomplete notation is an error.
    pub fn new(
        supports_tool_calling: bool,
        config: &PostSamplingConfig,
        tokenizer: &'a T,
    ) -> (result: Result<Option<Self>, String>)
        ensures
            Self::is_new(supports_tool_calling, *config, tokenizer, result),
            result matches Ok(Some(supervisor)) ==> supervisor.wf(),
    {
        if !supports_tool_calling {
            return Ok(None);
        }
        match ToolArgFormatterBuilder::new(config).build() {
            Ok(formatter) => Ok(Self::assembled(formatter, config, tokenizer)),
            Err(reason) => {
                let mut message = String::from_str("Failed to build tool argument formatter: ");
                message.append(reason.as_str());
                Err(message)
            },
        }
    }
}

impl<'a, F: ToolArgFormatter, T: Tokenizer> ToolCallingSupervisorInterface for
    ToolCallingSupervisor<'a, F, T> {
    open spec fn advances(
        &self,
        token_ids: Seq<u32>,
        ongoing: GenerationDataType,
        result: Result<GenerationEvent, String>,
        after: Self,
    ) -> bool {
        match ongoing {
            GenerationDataType::DirectContent => {
                &&& after == *self
                &&& result is Ok
                &&& if ends_in(token_ids, self.context.tool_call_start_token_id) {
                    result->Ok_0 is ToolCallStarted
                } else {
                    result->Ok_0 is Nothing
                }
            },
            GenerationDataType::Reasoning => {
                &&& after == *self
                &&& result is Ok
                &&& result->Ok_0 is Nothing
            },
            _ => exists|waiting: Self|
                {
                    &&& #[trigger] waiting.is_extended(*self, token_ids)
                    &&& if ends_in(
                        waiting.parts().ids,
                        self.context.tool_call_end_token_id,
                    ) {
                        match result {
                            Ok(event) => exists|ended: Self|
                                {
                                    &&& event is ToolCallStopped
                                    &&& #[trigger] ended.finalizes(
                                        waiting,
                                        ongoing,
                                        Ok(event->ToolCallStopped_chunk),
                                    )
                                    &&& after.is_reset_of(ended)
                                },
                            Err(message) => after.finalizes(waiting, ongoing, Err(message)),
                        }
                    } else {
                        after.reads_on(waiting, ongoing, result)
                    }
                },
        }
    }

    open spec fn calls(&self) -> Option<Seq<ToolCallView>> {
        Some(call_models(self.context.tool_calls@))
    }

    /// What has been handed out of the arguments ends between two of their characters.
    open spec fn wf(&self) -> bool {
        is_boundary(self.parts().arguments, self.context.stream_args_pos as int)
    }

    fn advance(&mut self, token_ids: &[u32], ongoing_gen_type: &GenerationDataType) -> (result:
        Result<GenerationEvent, String>) {
        match ongoing_gen_type {
            GenerationDataType::DirectContent => {
                if self.detect_tool_call_start(token_ids) {
                    Ok(GenerationEvent::ToolCallStarted)
                } else {
                    Ok(GenerationEvent::Nothing)
                }
            },
            GenerationDataType::ToolCallName | GenerationDataType::ToolCallArguments => {
                self.context.current_ids_buffer.extend_from_slice(token_ids);
                assert(self.context.current_ids_buffer@ =~= old(self).parts().ids + token_ids@);
                let ghost waiting = *self;
                assert(waiting.is_extended(*old(self), token_ids@));
                if self.detect_tool_call_end() {
                    match self.finalize_tool_call(ongoing_gen_type) {
                        Ok(chunk) => {
                            let ghost ended = *self;
                            self.reset();
                            assert(ended.finalizes(waiting, *ongoing_gen_type, Ok(chunk)));
                            Ok(GenerationEvent::ToolCallStopped { chunk })
                        },
                        Err(message) => Err(message),
                    }
                } else {
                    let state = self.tool_call_parsing_state;
                    let outcome = state.next_state(&mut self.context);
                    proof {
                        let given = waiting.parts();
                        lemma_arguments_grow(state, self.context.tokenizer.model(), given);
                        lemma_boundary_stays(
                            given.arguments,
                            self.parts().arguments,
                            self.context.stream_args_pos as int,
                        );
                        lemma_outer_boundaries(self.parts().arguments);
                    }
                    match outcome {
                        Ok(next) => {
                            self.tool_call_parsing_state = next;
                            match self.emit_tool_call_chunk_event(ongoing_gen_type) {
                                Some(event) => Ok(event),
                                None => Ok(GenerationEvent::Nothing),
                            }
                        },
                        Err(message) => Err(message),
                    }
                }
            },
            _ => Ok(GenerationEvent::Nothing),
        }
    }

    fn tool_calls(&self) -> (result: Option<Vec<ToolCall>>) {
        Some(copy_calls(&self.context.tool_calls))
    }
}

/// A step leaves the arguments as they are or adds to them.
proof fn lemma_arguments_grow<F: ToolArgFormatter>(
    state: StateEnum,
    tokenizer: TokenizerView,
    parts: CallParts<F>,
)
    ensures
        parts.arguments.is_prefix_of(step_from(state, tokenizer, parts).parts.arguments),
{
    let after = step_from(state, tokenizer, parts).parts.arguments;
    assert(parts.arguments =~= after.subrange(0, parts.arguments.len() as int));
}

/// Finished calls stay: whatever comes in, the finished calls before are a prefix of those after,
/// and at most one is added.
pub proof fn law_finished_calls_stay<'a, F: ToolArgFormatter, T: Tokenizer>(
    before: ToolCallingSupervisor<'a, F, T>,
    token_ids: Seq<u32>,
    ongoing: GenerationDataType,
    result: Result<GenerationEvent, String>,
    after: ToolCallingSupervisor<'a, F, T>,
)
    requires
        before.advances(token_ids, ongoing, result, after),
    ensures
        before.calls()->Some_0.is_prefix_of(after.calls()->Some_0),
        after.calls()->Some_0.len() <= before.calls()->Some_0.len() + 1,
        after.calls()->Some_0.len() > before.calls()->Some_0.len() <==> result matches Ok(
            GenerationEvent::ToolCallStopped { .. },
        ),
{
    let old_calls = before.calls()->Some_0;
    let new_calls = after.calls()->Some_0;
    if new_calls.len() == old_calls.len() + 1 && new_calls.drop_last() == old_calls {
        assert(old_calls =~= new_calls.subrange(0, old_calls.len() as int));
    }
    if ongoing is ToolCallName || ongoing is ToolCallArguments {
        let waiting = choose|waiting: ToolCallingSupervisor<'a, F, T>|
            {
                &&& #[trigger] waiting.is_extended(before, token_ids)
                &&& if ends_in(waiting.parts().ids, before.context.tool_call_end_token_id) {
                    match result {
                        Ok(event) => exists|ended: ToolCallingSupervisor<'a, F, T>|
                            {
                                &&& event is ToolCallStopped
                                &&& #[trigger] ended.finalizes(
                                    waiting,
                                    ongoing,
                                    Ok(event->ToolCallStopped_chunk),
                                )
                                &&& after.is_reset_of(ended)
                            },
                        Err(message) => after.finalizes(waiting, ongoing, Err(message)),
                    }
                } else {
                    after.reads_on(waiting, ongoing, result)
                }
            };
        assert(call_models(waiting.context.tool_calls@) == old_calls);
        if ends_in(waiting.parts().ids, before.context.tool_call_end_token_id) {
            if let Ok(event) = result {
                let ended = choose|ended: ToolCallingSupervisor<'a, F, T>|
                    {
                        &&& event is ToolCallStopped
                        &&& #[trigger] ended.finalizes(
                            waiting,
                            ongoing,
                            Ok(event->ToolCallStopped_chunk),
                        )
                        &&& after.is_reset_of(ended)
                    };
                assert(call_models(ended.context.tool_calls@) == new_calls);
                assert(new_calls.drop_last() =~= old_calls);
                assert(old_calls =~= new_calls.subrange(0, old_calls.len() as int));
            } else {
                assert(new_calls == old_calls);
                assert(old_calls =~= new_calls.subrange(0, old_calls.len() as int));
            }
        } else {
            assert(new_calls == old_calls);
            assert(old_calls =~= new_calls.subrange(0, old_calls.len() as int));
        }
    } else {
        assert(old_calls =~= new_calls.subrange(0, old_calls.len() as int));
    }
}

/// The pieces of the arguments that are handed out make up the arguments: what was handed out
/// before and the pending piece are together the arguments, and nothing is pending afterwards.
pub proof fn law_pieces_make_arguments(arguments: Seq<char>, pos: usize)
    requires
        is_boundary(arguments, pos as int),
        byte_len(arguments) <= usize::MAX,
    ensures
        pos_after(arguments, pos) == byte_len(arguments),
        pending(arguments, byte_len(arguments) as usize) is None,
        match pending(arguments, pos) {
            Some(piece) => text_before(arguments, pos as int) + piece.arguments == arguments,
            None => text_before(arguments, pos as int) == arguments,
        },
{
    assert(arguments.is_prefix_of(arguments)) by {
        assert(arguments =~= arguments.subrange(0, arguments.len() as int));
    }
    lemma_boundary_stays(arguments, arguments, pos as int);
    lemma_split_at_boundary(arguments, pos as int);
    if pos == byte_len(arguments) {
        lemma_whole_text(arguments);
    }
}

/// A closed call leaves room for the next one: nothing of its name, id or arguments is left.
pub proof fn law_stopped_call_is_forgotten<'a, F: ToolArgFormatter, T: Tokenizer>(
    before: ToolCallingSupervisor<'a, F, T>,
    token_ids: Seq<u32>,
    ongoing: GenerationDataType,
    chunk: Option<ChunkToolCall>,
    after: ToolCallingSupervisor<'a, F, T>,
)
    requires
        before.advances(
            token_ids,
            ongoing,
            Ok(GenerationEvent::ToolCallStopped { chunk }),
            after,
        ),
    ensures
        after.tool_call_parsing_state == StateEnum::Idle,
        after.context.current_tool_id@.len() == 0,
        after.parts().name.len() == 0,
        after.parts().arguments.len() == 0,
        after.parts().ids.len() == 0,
        after.context.stream_args_pos == 0,
{
}

} // verus!
