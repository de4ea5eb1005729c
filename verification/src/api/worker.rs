//! Serves requests: what is sent at which point, and with which model.
use vstd::prelude::*;
use vstd::string::*;

use crate::api::types::{
    ChatCompletionChunk, ChatCompletionResponse, Choice, ChunkChoice, ChunkDelta, StreamOptions,
    ValidatedChatCompletionRequest,
};
use crate::config::generation_config::GenerationOverrides;
use crate::error::{error_text, ErrorView, LociError};
use crate::ids::{is_id_text, new_id_text};
use crate::inference::engine::{file_part, model_name_of};
use crate::inference::types::{GenerationDataType, GenerationReport, StreamFrame};
use crate::text::{chars_of, find_last, lemma_last_place, same_text, stands_at, text_of};
use crate::types::{ChatMessage, ChunkLogprob, ChunkToolCall, FinishReason, Role, Usage};

verus! {

/// What all pieces of a response have in common.
#[derive(Debug, Clone, PartialEq)]
pub struct StaticChatCompletionData {
    pub id: String,
    pub created: u64,
    pub model: String,
    pub system_fingerprint: String,
}

/// The mathematical model of what all pieces of a response have in common.
pub struct StaticView {
    pub id: Seq<char>,
    pub created: u64,
    pub model: Seq<char>,
    pub system_fingerprint: Seq<char>,
}

impl View for StaticChatCompletionData {
    type V = StaticView;

    open spec fn view(&self) -> StaticView {
        StaticView {
            id: self.id@,
            created: self.created,
            model: self.model@,
            system_fingerprint: self.system_fingerprint@,
        }
    }
}

/// The mark of a model in responses.
pub open spec fn fingerprint_of(model: Seq<char>) -> Seq<char> {
    "loci-"@ + model
}

fn fingerprint(model: &str) -> (result: String)
    ensures
        result@ == fingerprint_of(model@),
{
    let mut text = String::from_str("loci-");
    text.append(model);
    text
}

impl StaticChatCompletionData {
    /// The data of a new response, at a time in seconds.
    pub fn new(model: &str, created: u64) -> (result: Self)
        ensures
            is_id_text(result.id@),
            result.created == created,
            result.model@ == model@,
            result.system_fingerprint@ == fingerprint_of(model@),
    {
        StaticChatCompletionData {
            id: new_id_text(),
            created,
            model: String::from_str(model),
            system_fingerprint: fingerprint(model),
        }
    }

    /// A copy.
    pub fn copy(&self) -> (result: Self)
        ensures
            result@ == self@,
    {
        StaticChatCompletionData {
            id: String::from_str(self.id.as_str()),
            created: self.created,
            model: String::from_str(self.model.as_str()),
            system_fingerprint: String::from_str(self.system_fingerprint.as_str()),
        }
    }
}

/// A piece of the response with these data.
pub open spec fn is_piece_of(chunk: ChatCompletionChunk, data: StaticView) -> bool {
    &&& chunk.id@ == data.id
    &&& chunk.object@ == "chat.completion.chunk"@
    &&& chunk.created == data.created
    &&& chunk.model@ == data.model
    &&& chunk.system_fingerprint@ == data.system_fingerprint
}

fn piece(
    static_data: StaticChatCompletionData,
    choices: Vec<ChunkChoice>,
    usage: Option<Usage>,
) -> (result: ChatCompletionChunk)
    ensures
        is_piece_of(result, static_data@),
        result.choices == choices,
        result.usage == usage,
{
    ChatCompletionChunk {
        id: static_data.id,
        object: String::from_str("chat.completion.chunk"),
        created: static_data.created,
        model: static_data.model,
        system_fingerprint: static_data.system_fingerprint,
        choices,
        usage,
    }
}

/// The one choice of a piece.
pub open spec fn only_choice(chunk: ChatCompletionChunk, choice: ChunkChoice) -> bool {
    chunk.choices@ == seq![choice]
}

/// The first piece of an answer: it is the assistant's, and empty.
pub open spec fn is_initial_chunk(chunk: ChatCompletionChunk, data: StaticView) -> bool {
    &&& is_piece_of(chunk, data)
    &&& chunk.usage is None
    &&& chunk.choices@.len() == 1
    &&& {
        let choice = chunk.choices@[0];
        &&& choice.index == 0
        &&& choice.delta.role == Some(Role::Assistant)
        &&& text_of(choice.delta.content) == Some(Seq::<char>::empty())
        &&& choice.delta.reasoning_content is None
        &&& choice.delta.tool_calls is None
        &&& choice.logprobs is None
        &&& choice.finish_reason is None
    }
}

/// The first piece: the answer begins, and it is the assistant's.
pub fn build_initial_chunk(static_data: StaticChatCompletionData) -> (result: ChatCompletionChunk)
    ensures
        is_initial_chunk(result, static_data@),
{
    let choice = ChunkChoice {
        index: 0,
        delta: ChunkDelta {
            role: Some(Role::Assistant),
            content: Some(String::new()),
            reasoning_content: None,
            tool_calls: None,
        },
        logprobs: None,
        finish_reason: None,
    };
    piece(static_data, vec![choice], None)
}

/// The change that a frame stands for.
pub open spec fn is_delta_of(delta: ChunkDelta, frame: StreamFrame) -> bool {
    &&& delta.role is None
    &&& text_of(delta.content) == (if frame.output_type is DirectContent {
        Some(frame.output@)
    } else {
        None
    })
    &&& text_of(delta.reasoning_content) == (if frame.output_type is Reasoning {
        Some(frame.output@)
    } else {
        None
    })
    &&& match (delta.tool_calls, frame.tool_call_chunk) {
        (Some(list), Some(chunk)) => list@ == seq![chunk] && (frame.output_type is ToolCallName
            || frame.output_type is ToolCallArguments),
        (None, chunk) => chunk is None || frame.output_type is DirectContent
            || frame.output_type is Reasoning,
        _ => false,
    }
}

/// The piece of an answer that a frame makes.
pub open spec fn is_regular_chunk(
    chunk: ChatCompletionChunk,
    data: StaticView,
    frame: StreamFrame,
) -> bool {
    &&& is_piece_of(chunk, data)
    &&& chunk.usage is None
    &&& chunk.choices@.len() == 1
    &&& {
        let choice = chunk.choices@[0];
        &&& choice.index == 0
        &&& is_delta_of(choice.delta, frame)
        &&& match (choice.logprobs, frame.logprobs) {
            (Some(list), Some(content)) => list.content@ == seq![content],
            (None, None) => true,
            _ => false,
        }
        &&& choice.finish_reason is None
    }
}

/// A piece of the answer, of the reasoning or of a tool call.
pub fn build_regular_chunk(
    static_data: StaticChatCompletionData,
    frame_data: StreamFrame,
) -> (result: ChatCompletionChunk)
    ensures
        is_regular_chunk(result, static_data@, frame_data),
{
    let delta = match frame_data.output_type {
        GenerationDataType::DirectContent => ChunkDelta {
            role: None,
            content: Some(frame_data.output),
            reasoning_content: None,
            tool_calls: None,
        },
        GenerationDataType::ToolCallName => ChunkDelta {
            role: None,
            content: None,
            reasoning_content: None,
            tool_calls: one_call(frame_data.tool_call_chunk),
        },
        GenerationDataType::ToolCallArguments => ChunkDelta {
            role: None,
            content: None,
            reasoning_content: None,
            tool_calls: one_call(frame_data.tool_call_chunk),
        },
        GenerationDataType::Reasoning => ChunkDelta {
            role: None,
            content: None,
            reasoning_content: Some(frame_data.output),
            tool_calls: None,
        },
    };
    let logprobs = match frame_data.logprobs {
        Some(content) => {
            let list = vec![content];
            assert(list@ =~= seq![content]);
            Some(ChunkLogprob { content: list })
        },
        None => None,
    };
    piece(static_data, vec![ChunkChoice { index: 0, delta, logprobs, finish_reason: None }], None)
}

fn one_call(chunk: Option<ChunkToolCall>) -> (result: Option<Vec<ChunkToolCall>>)
    ensures
        match (result, chunk) {
            (Some(list), Some(call)) => list@ == seq![call],
            (None, None) => true,
            _ => false,
        },
{
    match chunk {
        Some(call) => {
            let list = vec![call];
            assert(list@ =~= seq![call]);
            Some(list)
        },
        None => None,
    }
}

/// The piece that ends an answer.
pub open spec fn is_final_chunk(
    chunk: ChatCompletionChunk,
    data: StaticView,
    finish_reason: FinishReason,
) -> bool {
    &&& is_piece_of(chunk, data)
    &&& chunk.usage is None
    &&& only_choice(
        chunk,
        ChunkChoice {
            index: 0,
            delta: ChunkDelta {
                role: None,
                content: None,
                reasoning_content: None,
                tool_calls: None,
            },
            logprobs: None,
            finish_reason: Some(finish_reason),
        },
    )
}

/// The piece that says why the answer ends.
pub fn build_final_content_chunk(
    static_data: StaticChatCompletionData,
    finish_reason: FinishReason,
) -> (result: ChatCompletionChunk)
    ensures
        is_final_chunk(result, static_data@, finish_reason),
{
    let choice = ChunkChoice {
        index: 0,
        delta: ChunkDelta { role: None, content: None, reasoning_content: None, tool_calls: None },
        logprobs: None,
        finish_reason: Some(finish_reason),
    };
    let choices = vec![choice];
    assert(choices@ =~= seq![choice]);
    piece(static_data, choices, None)
}

/// The piece with the figures of an answer.
pub open spec fn is_usage_chunk(chunk: ChatCompletionChunk, data: StaticView, usage: Usage) -> bool {
    &&& is_piece_of(chunk, data)
    &&& chunk.choices@.len() == 0
    &&& chunk.usage == Some(usage)
}

/// The piece with the figures.
pub fn build_usage_chunk(
    static_data: StaticChatCompletionData,
    report: GenerationReport,
) -> (result: ChatCompletionChunk)
    ensures
        is_usage_chunk(result, static_data@, report.usage),
{
    piece(static_data, Vec::new(), Some(report.usage))
}

/// The response in one piece to a request for a model, at a time in seconds.
pub open spec fn is_response(
    response: ChatCompletionResponse,
    model: Seq<char>,
    report: GenerationReport,
    created: u64,
) -> bool {
    &&& is_id_text(response.id@)
    &&& response.object@ == "chat.completion"@
    &&& response.created == created
    &&& response.model@ == model
    &&& response.system_fingerprint@ == fingerprint_of(model)
    &&& response.choices@.len() == 1
    &&& response.choices@[0].index == 0
    &&& response.choices@[0].message == report.chat_message
    &&& response.choices@[0].finish_reason == Some(report.finish_reason)
    &&& response.usage == Some(report.usage)
}

/// A response in one piece, at a time in seconds.
pub fn build_chat_completion_response(model: &str, report: GenerationReport, created: u64) -> (result:
    ChatCompletionResponse)
    ensures
        is_response(result, model@, report, created),
{
    let choice = Choice {
        index: 0,
        message: report.chat_message,
        finish_reason: Some(report.finish_reason),
    };
    ChatCompletionResponse {
        id: new_id_text(),
        object: String::from_str("chat.completion"),
        created,
        model: String::from_str(model),
        system_fingerprint: fingerprint(model),
        choices: vec![choice],
        usage: Some(report.usage),
    }
}

/// The overrides that a request asks for.
pub open spec fn overrides_of(request: ValidatedChatCompletionRequest) -> GenerationOverrides {
    GenerationOverrides {
        temperature: request.temperature,
        top_p: request.top_p,
        max_tokens: request.max_tokens,
        repetition_penalty: request.repetition_penalty,
        tool_choice: Some(request.tool_choice),
        reasoning_effort: request.reasoning_effort,
        stop_tokens: request.stop,
        logprobs: request.logprobs,
        top_logprobs: request.top_logprobs,
        seed: request.seed,
        file_config: None,
    }
}

/// A request that was taken apart.
pub struct RequestParts {
    pub messages: Vec<ChatMessage>,
    pub tools: Vec<crate::types::Tool>,
    pub overrides: GenerationOverrides,
    pub include_usage: bool,
}

/// The figures are asked for.
pub open spec fn asks_for_usage(options: Option<StreamOptions>) -> bool {
    options matches Some(o) && o.include_usage == Some(true)
}

/// Takes a request apart: the conversation, the tools, the overrides, and whether the figures are
/// to be sent.
pub fn take_apart(request: ValidatedChatCompletionRequest) -> (result: RequestParts)
    ensures
        result.messages == request.messages,
        match request.tools {
            Some(list) => result.tools == list,
            None => result.tools@.len() == 0,
        },
        result.overrides == overrides_of(request),
        result.include_usage == asks_for_usage(request.stream_options),
{
    let overrides = GenerationOverrides::default().with_temperature(request.temperature).with_top_p(
        request.top_p,
    ).with_max_tokens(request.max_tokens).with_repetition_penalty(
        request.repetition_penalty,
    ).with_tool_choice(Some(request.tool_choice)).with_reasoning_effort(
        request.reasoning_effort,
    ).with_stop_tokens(request.stop).with_logprobs(request.logprobs).with_top_logprobs(
        request.top_logprobs,
    ).with_seed(request.seed);
    let include_usage = match request.stream_options {
        Some(options) => match options.include_usage {
            Some(wanted) => wanted,
            None => false,
        },
        None => false,
    };
    RequestParts {
        messages: request.messages,
        tools: match request.tools {
            Some(list) => list,
            None => Vec::new(),
        },
        overrides,
        include_usage,
    }
}

/// The model that is loaded is the one that a request names: the names of their files agree.
pub open spec fn serves(active: Option<Seq<char>>, requested: Seq<char>) -> bool {
    active == Some(file_part(requested))
}

/// Whether a request can be served with the model that is loaded. A request names a model by the
/// path of its file.
pub fn is_served_by(active_model: Option<&str>, requested_path: &str) -> (result: bool)
    ensures
        result == serves(
            match active_model {
                Some(name) => Some(name@),
                None => None,
            },
            requested_path@,
        ),
{
    match active_model {
        Some(name) => {
            let requested = model_name_of(requested_path);
            same_text(name, requested.as_str())
        },
        None => false,
    }
}

/// Whether a model that is loaded is to be given up: it was not used for longer than the timeout.
pub fn is_idle(loaded: bool, idle_nanos: u128, timeout_secs: u64) -> (result: bool)
    ensures
        result == idles_too_long(loaded, idle_nanos, timeout_secs),
{
    loaded && idle_nanos > timeout_secs as u128 * 1_000_000_000
}

/// How a piece was received by a channel.
#[derive(Debug, Clone, Copy, PartialEq, Eq, Structural)]
pub enum SendOutcome {
    Sent,
    Full,
    Closed,
}

/// The listener's answer before a piece is sent: the generation stops when the server does.
pub fn before_stream_chunk(cancelled: bool) -> (result: Result<(), LociError>)
    ensures
        result is Err <==> cancelled,
        result matches Err(error) ==> error@ == ErrorView::Stream(
            "Server shutdown signal received."@,
        ),
{
    if cancelled {
        Err(LociError::Stream(String::from_str("Server shutdown signal received.")))
    } else {
        Ok(())
    }
}

/// The listener's answer for a response in one piece: the generation stops when the user is gone
/// or the server stops.
pub fn before_single_chunk(closed: bool, cancelled: bool) -> (result: Result<(), LociError>)
    ensures
        result is Err <==> closed || cancelled,
        result matches Err(error) ==> error@ == ErrorView::Stream(
            if closed {
                "User disconnected"@
            } else {
                "Server shutdown signal received."@
            },
        ),
{
    if closed {
        return Err(LociError::Stream(String::from_str("User disconnected")));
    }
    before_stream_chunk(cancelled)
}

/// The listener's answer after a piece was sent, and sent once more if the channel was full.
pub fn after_stream_chunk(first: SendOutcome, second: SendOutcome) -> (result: Result<
    (),
    LociError,
>)
    ensures
        result is Ok <==> first is Sent || first is Full && second is Sent,
        result matches Err(error) ==> error@ == ErrorView::Stream(
            if first is Closed {
                "User disconnected"@
            } else {
                "Stream channel backed up or closed"@
            },
        ),
{
    match first {
        SendOutcome::Sent => Ok(()),
        SendOutcome::Closed => Err(LociError::Stream(String::from_str("User disconnected"))),
        SendOutcome::Full => if second == SendOutcome::Sent {
            Ok(())
        } else {
            Err(LociError::Stream(String::from_str("Stream channel backed up or closed")))
        },
    }
}

/// The text says that the user is gone.
pub open spec fn says_disconnected(text: Seq<char>) -> bool {
    exists|i: int| #[trigger] stands_at(text, "User disconnected"@, i)
}

/// What is answered to a failure: nothing if the user is gone.
pub open spec fn failure_answer(error: ErrorView) -> Option<Seq<char>> {
    if says_disconnected(error_text(error)) {
        None
    } else {
        Some("Generation failed with an engine error: "@ + error_text(error))
    }
}

/// What to answer to a failure of the engine, if anyone is left to hear it.
pub fn answer_failure(error: &LociError) -> (result: Option<String>)
    ensures
        text_of(result) == failure_answer(error@),
{
    let text = error.message();
    let chars = chars_of(text.as_str());
    let pattern = chars_of("User disconnected");
    proof {
        lemma_last_place(chars@, pattern@, chars@.len() - pattern@.len());
    }
    match find_last(&chars, &pattern) {
        Some(k) => {
            assert(stands_at(text@, "User disconnected"@, k as int));
            None
        },
        None => {
            assert(!says_disconnected(text@)) by {
                assert forall|i: int| !#[trigger] stands_at(text@, "User disconnected"@, i) by {
                    if stands_at(text@, "User disconnected"@, i) {
                        assert(i <= chars@.len() - pattern@.len());
                    }
                }
            }
            let mut answer = String::from_str("Generation failed with an engine error: ");
            answer.append(text.as_str());
            Some(answer)
        },
    }
}

/// What happens while an answer is sent piece by piece.
#[derive(Debug)]
pub enum StreamEvent {
    /// The last piece was taken, or could not be written down.
    Heard,
    /// No one takes pieces any more.
    Unheard,
    /// The generation has ended.
    Generated { report: GenerationReport },
    /// The generation has failed.
    Failed { error: LociError },
}

/// What is to be done next for an answer that is sent piece by piece.
#[derive(Debug)]
pub enum StreamAction {
    Send { chunk: ChatCompletionChunk },
    /// Runs the generation, whose frames are sent as they come.
    Generate,
    SendError { message: String },
    Finish,
}

/// How far an answer has come that is sent piece by piece.
#[derive(Debug)]
pub enum StreamPhase {
    /// The first piece is on its way.
    Opening,
    Generating,
    /// The piece that ends the answer is on its way.
    Closing { report: GenerationReport },
    /// The last piece is on its way.
    Leaving,
    Done,
}

/// An answer that is sent piece by piece.
#[derive(Debug)]
pub struct StreamedAnswer {
    pub static_data: StaticChatCompletionData,
    /// The figures are to be sent.
    pub include_usage: bool,
    pub phase: StreamPhase,
}

impl StreamedAnswer {
    /// `action` is what an event leads to, and `after` the phase that comes then. An event that
    /// does not belong to the phase ends the answer.
    pub open spec fn leads_to(
        &self,
        event: StreamEvent,
        action: StreamAction,
        after: StreamPhase,
    ) -> bool {
        match (self.phase, event) {
            (StreamPhase::Opening, StreamEvent::Heard) => {
                action is Generate && after is Generating
            },
            (StreamPhase::Generating, StreamEvent::Generated { report }) => {
                &&& action matches StreamAction::Send { chunk }
                &&& is_final_chunk(chunk, self.static_data@, report.finish_reason)
                &&& after == (StreamPhase::Closing { report })
            },
            (StreamPhase::Generating, StreamEvent::Failed { error }) => match failure_answer(
                error@,
            ) {
                Some(text) => {
                    &&& action matches StreamAction::SendError { message }
                    &&& message@ == text
                    &&& after is Leaving
                },
                None => action is Finish && after is Done,
            },
            (StreamPhase::Closing { report }, StreamEvent::Heard) => if self.include_usage {
                &&& action matches StreamAction::Send { chunk }
                &&& is_usage_chunk(chunk, self.static_data@, report.usage)
                &&& after is Leaving
            } else {
                action is Finish && after is Done
            },
            _ => action is Finish && after is Done,
        }
    }

    /// Begins an answer with its first piece.
    pub fn begin(static_data: StaticChatCompletionData, include_usage: bool) -> (result: (
        Self,
        StreamAction,
    ))
        ensures
            result.0.static_data@ == static_data@,
            result.0.include_usage == include_usage,
            result.0.phase is Opening,
            result.1 matches StreamAction::Send { chunk } && is_initial_chunk(chunk, static_data@),
    {
        let chunk = build_initial_chunk(static_data.copy());
        (
            StreamedAnswer { static_data, include_usage, phase: StreamPhase::Opening },
            StreamAction::Send { chunk },
        )
    }

    /// Takes an event and says what is to be done.
    pub fn next(&mut self, event: StreamEvent) -> (action: StreamAction)
        ensures
            old(self).leads_to(event, action, final(self).phase),
            final(self).static_data == old(self).static_data,
            final(self).include_usage == old(self).include_usage,
    {
        let mut phase = StreamPhase::Done;
        std::mem::swap(&mut phase, &mut self.phase);
        match (phase, event) {
            (StreamPhase::Opening, StreamEvent::Heard) => {
                self.phase = StreamPhase::Generating;
                StreamAction::Generate
            },
            (StreamPhase::Generating, StreamEvent::Generated { report }) => {
                let chunk = build_final_content_chunk(self.static_data.copy(), report.finish_reason);
                self.phase = StreamPhase::Closing { report };
                StreamAction::Send { chunk }
            },
            (StreamPhase::Generating, StreamEvent::Failed { error }) => match answer_failure(
                &error,
            ) {
                Some(message) => {
                    self.phase = StreamPhase::Leaving;
                    StreamAction::SendError { message }
                },
                None => StreamAction::Finish,
            },
            (StreamPhase::Closing { report }, StreamEvent::Heard) => if self.include_usage {
                let chunk = build_usage_chunk(self.static_data.copy(), report);
                self.phase = StreamPhase::Leaving;
                StreamAction::Send { chunk }
            } else {
                StreamAction::Finish
            },
            _ => StreamAction::Finish,
        }
    }
}

/// What is to be done with a response in one piece.
#[derive(Debug)]
pub enum SingleAction {
    Send { response: ChatCompletionResponse },
    SendError { message: String },
    Finish,
}

/// What is answered in one piece when a generation has ended or failed, at a time in seconds.
pub fn answer_in_one(model: &str, outcome: Result<GenerationReport, LociError>, created: u64) -> (result:
    SingleAction)
    ensures
        match outcome {
            Ok(report) => result matches SingleAction::Send { response } && is_response(
                response,
                model@,
                report,
                created,
            ),
            Err(error) => match failure_answer(error@) {
                Some(text) => result matches SingleAction::SendError { message } && message@
                    == text,
                None => result is Finish,
            },
        },
{
    match outcome {
        Ok(report) => SingleAction::Send {
            response: build_chat_completion_response(model, report, created),
        },
        Err(error) => match answer_failure(&error) {
            Some(message) => SingleAction::SendError { message },
            None => SingleAction::Finish,
        },
    }
}

/// What happens to the worker that owns the loaded model.
#[derive(Debug)]
pub enum WorkerEvent {
    /// A request names the model at a path.
    Request { model: String },
    /// The model of the request that waits was loaded, or was not.
    Loaded { outcome: Result<(), String> },
    /// A conversation with it was opened, or was not.
    ContextOpened { outcome: Result<(), String> },
    /// Nothing was asked for this long.
    Idle { nanos: u128 },
    /// No request can come any more.
    Closed,
}

/// What the worker is to do next.
#[derive(Debug)]
pub enum WorkerAction {
    Wait,
    /// Gives up the model that is loaded and loads the one at a path.
    Load { path: String },
    /// Opens a conversation with the model of a name.
    OpenContext { model: String },
    /// Answers the request with an error.
    Refuse { message: String },
    /// Answers the request with a generation.
    Generate,
    /// Accepts the request and says nothing: there is no conversation to go on with.
    Abandon,
    /// Gives up the model that is loaded.
    Unload,
    /// Gives up the model that is loaded and ends.
    Stop,
}

/// The mathematical model of an event.
pub enum WorkerEventView {
    Request { model: Seq<char> },
    Loaded { outcome: Result<(), Seq<char>> },
    ContextOpened { outcome: Result<(), Seq<char>> },
    Idle { nanos: u128 },
    Closed,
}

/// The mathematical model of an action.
pub enum WorkerActionView {
    Wait,
    Load { path: Seq<char> },
    OpenContext { model: Seq<char> },
    Refuse { message: Seq<char> },
    Generate,
    Abandon,
    Unload,
    Stop,
}

/// The model of an outcome.
pub open spec fn outcome_view(outcome: Result<(), String>) -> Result<(), Seq<char>> {
    match outcome {
        Ok(_) => Ok(()),
        Err(message) => Err(message@),
    }
}

impl View for WorkerEvent {
    type V = WorkerEventView;

    open spec fn view(&self) -> WorkerEventView {
        match *self {
            WorkerEvent::Request { model } => WorkerEventView::Request { model: model@ },
            WorkerEvent::Loaded { outcome } => WorkerEventView::Loaded {
                outcome: outcome_view(outcome),
            },
            WorkerEvent::ContextOpened { outcome } => WorkerEventView::ContextOpened {
                outcome: outcome_view(outcome),
            },
            WorkerEvent::Idle { nanos } => WorkerEventView::Idle { nanos },
            WorkerEvent::Closed => WorkerEventView::Closed,
        }
    }
}

impl View for WorkerAction {
    type V = WorkerActionView;

    open spec fn view(&self) -> WorkerActionView {
        match *self {
            WorkerAction::Wait => WorkerActionView::Wait,
            WorkerAction::Load { path } => WorkerActionView::Load { path: path@ },
            WorkerAction::OpenContext { model } => WorkerActionView::OpenContext { model: model@ },
            WorkerAction::Refuse { message } => WorkerActionView::Refuse { message: message@ },
            WorkerAction::Generate => WorkerActionView::Generate,
            WorkerAction::Abandon => WorkerActionView::Abandon,
            WorkerAction::Unload => WorkerActionView::Unload,
            WorkerAction::Stop => WorkerActionView::Stop,
        }
    }
}

/// The worker that owns the loaded model: what it has loaded, and the request that waits for its
/// model.
#[derive(Debug, Clone, PartialEq)]
pub struct EngineWorker {
    /// The name of the model that is loaded.
    pub active_model: Option<String>,
    /// There is a conversation with it.
    pub has_context: bool,
    /// The path that the request names which waits for its model.
    pub awaited: Option<String>,
    /// In seconds.
    pub idle_timeout: u64,
}

/// The mathematical model of a worker.
pub struct WorkerView {
    pub active_model: Option<Seq<char>>,
    pub has_context: bool,
    pub awaited: Option<Seq<char>>,
    pub idle_timeout: u64,
}

impl View for EngineWorker {
    type V = WorkerView;

    open spec fn view(&self) -> WorkerView {
        WorkerView {
            active_model: text_of(self.active_model),
            has_context: self.has_context,
            awaited: text_of(self.awaited),
            idle_timeout: self.idle_timeout,
        }
    }
}

/// A model that is loaded is to be given up: it was not used for longer than the timeout.
pub open spec fn idles_too_long(loaded: bool, nanos: u128, timeout_secs: u64) -> bool {
    loaded && nanos > timeout_secs * 1_000_000_000
}

impl WorkerView {
    /// A worker without a model.
    pub open spec fn emptied(self) -> WorkerView {
        WorkerView { active_model: None, has_context: false, ..self }
    }

    /// The worker after an event, and what it does.
    pub open spec fn next(self, event: WorkerEventView) -> (WorkerView, WorkerActionView) {
        match event {
            WorkerEventView::Request { model } => if !serves(self.active_model, model) {
                (
                    WorkerView { awaited: Some(model), ..self.emptied() },
                    WorkerActionView::Load { path: model },
                )
            } else if self.has_context {
                (self, WorkerActionView::Generate)
            } else {
                (self, WorkerActionView::Abandon)
            },
            WorkerEventView::Loaded { outcome } => match (self.awaited, outcome) {
                (Some(path), Ok(_)) => (
                    WorkerView { active_model: Some(file_part(path)), ..self },
                    WorkerActionView::OpenContext { model: file_part(path) },
                ),
                (Some(_), Err(message)) => (
                    WorkerView { awaited: None, ..self },
                    WorkerActionView::Refuse { message },
                ),
                (None, _) => (self, WorkerActionView::Wait),
            },
            WorkerEventView::ContextOpened { outcome } => match (self.awaited, outcome) {
                (Some(_), Ok(_)) => (
                    WorkerView { has_context: true, awaited: None, ..self },
                    WorkerActionView::Generate,
                ),
                (Some(_), Err(message)) => (
                    WorkerView { awaited: None, ..self },
                    WorkerActionView::Refuse { message },
                ),
                (None, _) => (self, WorkerActionView::Wait),
            },
            WorkerEventView::Idle { nanos } => if idles_too_long(
                self.active_model is Some,
                nanos,
                self.idle_timeout,
            ) {
                (self.emptied(), WorkerActionView::Unload)
            } else {
                (self, WorkerActionView::Wait)
            },
            WorkerEventView::Closed => (self.emptied(), WorkerActionView::Stop),
        }
    }
}

impl EngineWorker {
    /// A worker that may have a model loaded already, with a conversation.
    pub fn new(active_model: Option<String>, idle_timeout: u64) -> (result: Self)
        ensures
            result@ == (WorkerView {
                active_model: text_of(active_model),
                has_context: active_model is Some,
                awaited: None,
                idle_timeout,
            }),
    {
        let has_context = active_model.is_some();
        EngineWorker { active_model, has_context, awaited: None, idle_timeout }
    }

    fn clear(&mut self)
        ensures
            final(self)@ == old(self)@.emptied(),
    {
        self.active_model = None;
        self.has_context = false;
    }

    /// Takes an event and says what the worker is to do.
    pub fn next(&mut self, event: WorkerEvent) -> (action: WorkerAction)
        ensures
            (final(self)@, action@) == old(self)@.next(event@),
    {
        match event {
            WorkerEvent::Request { model } => {
                let active: Option<&str> = match &self.active_model {
                    Some(name) => Some(name.as_str()),
                    None => None,
                };
                if !is_served_by(active, model.as_str()) {
                    self.clear();
                    self.awaited = Some(String::from_str(model.as_str()));
                    WorkerAction::Load { path: model }
                } else if self.has_context {
                    WorkerAction::Generate
                } else {
                    WorkerAction::Abandon
                }
            },
            WorkerEvent::Loaded { outcome } => match &self.awaited {
                Some(path) => match outcome {
                    Ok(_) => {
                        let name = model_name_of(path.as_str());
                        let model = String::from_str(name.as_str());
                        self.active_model = Some(name);
                        WorkerAction::OpenContext { model }
                    },
                    Err(message) => {
                        self.awaited = None;
                        WorkerAction::Refuse { message }
                    },
                },
                None => WorkerAction::Wait,
            },
            WorkerEvent::ContextOpened { outcome } => if self.awaited.is_some() {
                self.awaited = None;
                match outcome {
                    Ok(_) => {
                        self.has_context = true;
                        WorkerAction::Generate
                    },
                    Err(message) => WorkerAction::Refuse { message },
                }
            } else {
                WorkerAction::Wait
            },
            WorkerEvent::Idle { nanos } => if is_idle(
                self.active_model.is_some(),
                nanos,
                self.idle_timeout,
            ) {
                self.clear();
                WorkerAction::Unload
            } else {
                WorkerAction::Wait
            },
            WorkerEvent::Closed => {
                self.clear();
                WorkerAction::Stop
            },
        }
    }
}

/// Each request comes to one answer, and a generation only ever runs with the model that the
/// request names: with the one that is loaded if it is the same, else with one that is loaded for
/// it. What cannot be loaded is refused with the reason.
pub proof fn law_requests_get_their_model(
    worker: WorkerView,
    path: Seq<char>,
    load: Result<(), Seq<char>>,
    open: Result<(), Seq<char>>,
)
    ensures
        ({
            let asked = worker.next(WorkerEventView::Request { model: path });
            let loaded = asked.0.next(WorkerEventView::Loaded { outcome: load });
            let opened = loaded.0.next(WorkerEventView::ContextOpened { outcome: open });
            if worker.active_model == Some(file_part(path)) {
                &&& asked.1 == (if worker.has_context {
                    WorkerActionView::Generate
                } else {
                    WorkerActionView::Abandon
                })
                &&& asked.0 == worker
            } else {
                &&& asked.1 == (WorkerActionView::Load { path })
                &&& match load {
                    Err(message) => {
                        &&& loaded.1 == (WorkerActionView::Refuse { message })
                        &&& loaded.0 == (WorkerView { awaited: None, ..worker.emptied() })
                    },
                    Ok(_) => {
                        &&& loaded.1 == (WorkerActionView::OpenContext { model: file_part(path) })
                        &&& opened.0.active_model == Some(file_part(path))
                        &&& opened.0.awaited is None
                        &&& opened.0.has_context == (open is Ok)
                        &&& opened.1 == (match open {
                            Ok(_) => WorkerActionView::Generate,
                            Err(message) => WorkerActionView::Refuse { message },
                        })
                    },
                }
            }
        }),
{
}

/// A model that was loaded for a request stays loaded for the next one that names it, until it
/// was idle for too long.
pub proof fn law_models_stay_loaded(worker: WorkerView, path: Seq<char>, nanos: u128)
    requires
        worker.active_model == Some(file_part(path)),
        worker.has_context,
        nanos <= worker.idle_timeout * 1_000_000_000,
    ensures
        worker.next(WorkerEventView::Idle { nanos }) == (worker, WorkerActionView::Wait),
        worker.next(WorkerEventView::Request { model: path }) == (
            worker,
            WorkerActionView::Generate,
        ),
{
}

/// The pieces of an answer that was sent to its end: the first one, one for each frame, the one
/// that ends the answer, and the one with the figures if they were asked for.
pub open spec fn are_pieces_of(
    pieces: Seq<ChatCompletionChunk>,
    data: StaticView,
    frames: Seq<StreamFrame>,
    report: GenerationReport,
    include_usage: bool,
) -> bool {
    &&& pieces.len() == frames.len() + if include_usage {
        3int
    } else {
        2
    }
    &&& is_initial_chunk(pieces[0], data)
    &&& forall|i: int|
        0 <= i < frames.len() ==> is_regular_chunk(#[trigger] pieces[i + 1], data, frames[i])
    &&& is_final_chunk(pieces[frames.len() as int + 1], data, report.finish_reason)
    &&& include_usage ==> is_usage_chunk(pieces.last(), data, report.usage)
}

/// The text of the answer in the first pieces.
pub open spec fn sent_text(pieces: Seq<ChatCompletionChunk>, count: int) -> Seq<char>
    decreases count,
{
    if count <= 0 {
        seq![]
    } else {
        let before = sent_text(pieces, count - 1);
        let piece = pieces[count - 1];
        if piece.choices@.len() == 1 {
            match text_of(piece.choices@[0].delta.content) {
                Some(text) => before + text,
                None => before,
            }
        } else {
            before
        }
    }
}

/// The text of the answer in the first frames.
pub open spec fn frame_text(frames: Seq<StreamFrame>, count: int) -> Seq<char>
    decreases count,
{
    if count <= 0 {
        seq![]
    } else {
        let before = frame_text(frames, count - 1);
        if frames[count - 1].output_type is DirectContent {
            before + frames[count - 1].output@
        } else {
            before
        }
    }
}

proof fn lemma_sent_so_far(
    pieces: Seq<ChatCompletionChunk>,
    data: StaticView,
    frames: Seq<StreamFrame>,
    report: GenerationReport,
    include_usage: bool,
    count: int,
)
    requires
        are_pieces_of(pieces, data, frames, report, include_usage),
        0 <= count <= frames.len(),
    ensures
        sent_text(pieces, count + 1) == frame_text(frames, count),
    decreases count,
{
    if count > 0 {
        lemma_sent_so_far(pieces, data, frames, report, include_usage, count - 1);
        assert(is_regular_chunk(pieces[count - 1 + 1], data, frames[count - 1]));
    } else {
        reveal_with_fuel(sent_text, 2);
        assert(sent_text(pieces, 1) =~= seq![]);
    }
}

/// The pieces of an answer belong together: all have the same head; the first alone says whose
/// the answer is; the one after the frames alone says why it ends; the last alone, and only if
/// that was asked for, has the figures and no choice; and put together they hold the text of the
/// frames.
pub proof fn law_pieces_make_an_answer(
    pieces: Seq<ChatCompletionChunk>,
    data: StaticView,
    frames: Seq<StreamFrame>,
    report: GenerationReport,
    include_usage: bool,
)
    requires
        are_pieces_of(pieces, data, frames, report, include_usage),
    ensures
        forall|i: int| 0 <= i < pieces.len() ==> is_piece_of(#[trigger] pieces[i], data),
        forall|i: int|
            0 <= i < pieces.len() ==> ((#[trigger] pieces[i]).usage is Some <==> include_usage && i
                == pieces.len() - 1),
        forall|i: int|
            0 <= i < pieces.len() ==> (#[trigger] pieces[i]).choices@.len() == (
            if pieces[i].usage is Some {
                0int
            } else {
                1
            }),
        forall|i: int|
            0 <= i < pieces.len() && (#[trigger] pieces[i]).usage is None ==> {
                &&& pieces[i].choices@[0].delta.role is Some <==> i == 0
                &&& pieces[i].choices@[0].finish_reason is Some <==> i == frames.len() + 1
            },
        sent_text(pieces, pieces.len() as int) == frame_text(frames, frames.len() as int),
{
    let n = frames.len() as int;
    assert forall|i: int| 0 <= i < pieces.len() implies {
        ||| i == 0 && is_initial_chunk(#[trigger] pieces[i], data)
        ||| 0 < i <= n && is_regular_chunk(pieces[i], data, frames[i - 1])
        ||| i == n + 1 && is_final_chunk(pieces[i], data, report.finish_reason)
        ||| i == n + 2 && include_usage && is_usage_chunk(pieces[i], data, report.usage)
    } by {
        if 0 < i <= n {
            assert(is_regular_chunk(pieces[i - 1 + 1], data, frames[i - 1]));
        }
    }
    lemma_sent_so_far(pieces, data, frames, report, include_usage, n);
    reveal_with_fuel(sent_text, 3);
    assert(pieces[n + 1].choices@.len() == 1);
    assert(sent_text(pieces, n + 2) == sent_text(pieces, n + 1));
}

} // verus!
