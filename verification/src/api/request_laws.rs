//! What a request comes to: the settings that its generation runs with, and the pieces that are
//! sent.
use vstd::prelude::*;

use crate::api::types::{
    is_validated, resolved_tool_choice, with_slashes, ChatCompletionChunk, ChatCompletionRequest,
    ChatCompletionResponse, RequestError, StreamOptions, ValidatedChatCompletionRequest,
};
use crate::api::worker::{
    are_pieces_of, asks_for_usage, failure_answer, frame_text, is_delta_of, is_piece_of,
    is_regular_chunk, is_response, overrides_of, says_disconnected, StaticView, StreamAction,
    StreamEvent, StreamPhase, StreamedAnswer, WorkerActionView, WorkerEventView, WorkerView,
};
use crate::config::generation_config::{
    overridden, resolved_generation_config, GenerationConfig, GenerationConfigBuilder,
};
use crate::error::{error_text, ErrorView};
use crate::inference::engine::{InferenceEngine, StreamCallback};
use crate::inference::generation_context::{CacheLoader, ModelCacheManagerInterface};
use crate::inference::generation_run::{heard_text, law_report_is_what_was_heard, Stage, Turn};
use crate::inference::reasoning_supervisor::ReasoningSupervisorInterface;
use crate::inference::sampler::Sampler;
use crate::inference::tool_calling_supervisor::ToolCallingSupervisorInterface;
use crate::inference::types::{GenerationDataType, GenerationReport, StreamFrame};
use crate::model::Model;
use crate::text::{list_of, stands_at, text_of};
use crate::tokenizer::Tokenizer;
use crate::types::{ChunkToolCall, Role, ToolChoice, ToolChoiceMode};

verus! {

/// Each setting that a request makes is the setting of the same name in the configuration that its
/// generation runs with.
pub proof fn law_request_settings_decide(
    request: ChatCompletionRequest,
    valid: ValidatedChatCompletionRequest,
    builder: GenerationConfigBuilder,
)
    requires
        is_validated(request, valid),
    ensures
        ({
            let config = resolved_generation_config(overridden(builder, overrides_of(valid)));
            &&& request.temperature matches Some(t) ==> config.temperature == t
            &&& request.top_p matches Some(p) ==> config.top_p == p
            &&& request.max_tokens matches Some(n) ==> config.max_tokens == n
            &&& request.repetition_penalty matches Some(p) ==> config.repetition_penalty == p
            &&& request.reasoning_effort matches Some(e) ==> config.reasoning_effort == e
            &&& request.stop is Some ==> config.stop_tokens == list_of(request.stop)
            &&& request.logprobs matches Some(l) ==> config.logprobs == l
            &&& request.top_logprobs is Some ==> config.top_logprobs == request.top_logprobs
            &&& request.seed matches Some(s) ==> config.seed == s
            &&& request.tool_choice matches Some(c) ==> config.tool_choice == c.model()
            &&& request.tool_choice is None && request.tools is None ==> config.tool_choice
                == ToolChoice::Mode(ToolChoiceMode::Off).model()
        }),
{
}

/// What a request leaves open stays as the engine has it.
pub proof fn law_open_settings_stay(
    request: ChatCompletionRequest,
    valid: ValidatedChatCompletionRequest,
    builder: GenerationConfigBuilder,
)
    requires
        is_validated(request, valid),
    ensures
        ({
            let config = resolved_generation_config(overridden(builder, overrides_of(valid)));
            let own = resolved_generation_config(builder);
            &&& request.temperature is None ==> config.temperature == own.temperature
            &&& request.top_p is None ==> config.top_p == own.top_p
            &&& request.max_tokens is None ==> config.max_tokens == own.max_tokens
            &&& request.repetition_penalty is None ==> config.repetition_penalty
                == own.repetition_penalty
            &&& request.reasoning_effort is None ==> config.reasoning_effort
                == own.reasoning_effort
            &&& request.stop is None ==> config.stop_tokens == own.stop_tokens
            &&& request.logprobs is None ==> config.logprobs == own.logprobs
            &&& request.top_logprobs is None ==> config.top_logprobs == own.top_logprobs
            &&& request.seed is None ==> config.seed == own.seed
        }),
{
}

/// A choice that a request makes stands; else tools are offered if there are any.
pub proof fn law_tools_are_offered(
    choice: ToolChoice,
    tools: Option<Vec<crate::types::Tool>>,
)
    ensures
        resolved_tool_choice(Some(choice), tools) == choice,
        tools matches Some(list) && list@.len() > 0 ==> resolved_tool_choice(None, tools)
            == ToolChoice::Mode(ToolChoiceMode::Auto),
        tools is None || tools->Some_0@.len() == 0 ==> resolved_tool_choice(None, tools)
            == ToolChoice::Mode(ToolChoiceMode::Off),
{
}

/// The path of a model keeps all that is no backslash.
pub proof fn law_paths_keep_names(path: Seq<char>, i: int)
    requires
        0 <= i < path.len(),
    ensures
        with_slashes(path).len() == path.len(),
        path[i] != '\\' ==> with_slashes(path)[i] == path[i],
        path[i] == '\\' ==> with_slashes(path)[i] == '/',
{
}

/// The conversation that is served is the one that was asked for, in its order, behind the message
/// that opens it if it lacked one.
pub proof fn law_conversation_is_kept(
    request: ChatCompletionRequest,
    valid: ValidatedChatCompletionRequest,
    i: int,
)
    requires
        is_validated(request, valid),
        0 <= i < request.messages@.len(),
    ensures
        ({
            let shift = valid.messages@.len() - request.messages@.len();
            &&& shift == 0 || shift == 1
            &&& valid.messages@[i + shift] == request.messages@[i]
            &&& shift == 1 ==> valid.messages@[0].role == Role::System && text_of(
                valid.messages@[0].content,
            ) == Some("You are a helpful assistant."@)
            &&& shift == 1 ==> forall|k: int|
                0 <= k < request.messages@.len() && (#[trigger] request.messages@[k]).role
                    == Role::System ==> request.messages@[k].content is None || text_of(
                    request.messages@[k].content,
                ) == Some(Seq::<char>::empty())
            &&& valid.tools == request.tools
            &&& valid.stream == request.stream
            &&& asks_for_usage(valid.stream_options) == asks_for_usage(request.stream_options)
            &&& valid.model@.len() == request.model->Some_0@.len()
        }),
{
    if valid.messages@.len() != request.messages@.len() {
        assert(valid.messages@.skip(1)[i] == valid.messages@[i + 1]);
        assert forall|k: int|
            0 <= k < request.messages@.len() && (#[trigger] request.messages@[k]).role
                == Role::System implies request.messages@[k].content is None || text_of(
            request.messages@[k].content,
        ) == Some(Seq::<char>::empty()) by {
            assert(!crate::api::types::speaks(request.messages@[k], Role::System));
            if let Some(text) = text_of(request.messages@[k].content) {
                assert(text =~= Seq::<char>::empty());
            }
        }
    }
}

/// The figures are sent exactly if they are asked for.
pub proof fn law_usage_is_asked_for(wanted: bool)
    ensures
        asks_for_usage(Some(StreamOptions { include_usage: Some(wanted) })) == wanted,
        !asks_for_usage(Some(StreamOptions { include_usage: None })),
        !asks_for_usage(None),
{
}

/// The text of the reasoning in the first pieces.
pub open spec fn sent_reasoning(pieces: Seq<ChatCompletionChunk>, count: int) -> Seq<char>
    decreases count,
{
    if count <= 0 {
        seq![]
    } else {
        let before = sent_reasoning(pieces, count - 1);
        let piece = pieces[count - 1];
        if piece.choices@.len() == 1 && piece.choices@[0].delta.reasoning_content is Some {
            before + piece.choices@[0].delta.reasoning_content->Some_0@
        } else {
            before
        }
    }
}

/// The text of the reasoning in the first frames.
pub open spec fn frame_reasoning(frames: Seq<StreamFrame>, count: int) -> Seq<char>
    decreases count,
{
    if count <= 0 {
        seq![]
    } else {
        let before = frame_reasoning(frames, count - 1);
        if frames[count - 1].output_type == GenerationDataType::Reasoning {
            before + frames[count - 1].output@
        } else {
            before
        }
    }
}

/// The pieces of tool calls in the first pieces.
pub open spec fn sent_calls(pieces: Seq<ChatCompletionChunk>, count: int) -> Seq<ChunkToolCall>
    decreases count,
{
    if count <= 0 {
        seq![]
    } else {
        let before = sent_calls(pieces, count - 1);
        let piece = pieces[count - 1];
        if piece.choices@.len() == 1 && piece.choices@[0].delta.tool_calls is Some {
            before + piece.choices@[0].delta.tool_calls->Some_0@
        } else {
            before
        }
    }
}

/// The pieces of tool calls in the first frames.
pub open spec fn frame_calls(frames: Seq<StreamFrame>, count: int) -> Seq<ChunkToolCall>
    decreases count,
{
    if count <= 0 {
        seq![]
    } else {
        let before = frame_calls(frames, count - 1);
        let frame = frames[count - 1];
        if (frame.output_type == GenerationDataType::ToolCallName || frame.output_type
            == GenerationDataType::ToolCallArguments) && frame.tool_call_chunk is Some {
            before.push(frame.tool_call_chunk->Some_0)
        } else {
            before
        }
    }
}

proof fn lemma_sent_rest(
    pieces: Seq<ChatCompletionChunk>,
    data: StaticView,
    frames: Seq<StreamFrame>,
    report: GenerationReport,
    include_usage: bool,
    count: int,
)
    requires
        are_pieces_of(pieces, data, frames, report, include_usage),
        0 <= count <= frames.len(),
    ensures
        sent_reasoning(pieces, count + 1) == frame_reasoning(frames, count),
        sent_calls(pieces, count + 1) == frame_calls(frames, count),
    decreases count,
{
    if count > 0 {
        lemma_sent_rest(pieces, data, frames, report, include_usage, count - 1);
        assert(is_regular_chunk(pieces[count - 1 + 1], data, frames[count - 1]));
        let before = sent_calls(pieces, count);
        if let Some(call) = frames[count - 1].tool_call_chunk {
            assert(before + seq![call] =~= before.push(call));
        }
    } else {
        reveal_with_fuel(sent_reasoning, 2);
        reveal_with_fuel(sent_calls, 2);
    }
}

/// Put together, the pieces of an answer hold the reasoning and the pieces of tool calls of the
/// frames, in their order, and say why the generation ended and, if that was asked for, its
/// figures.
pub proof fn law_pieces_hold_the_rest(
    pieces: Seq<ChatCompletionChunk>,
    data: StaticView,
    frames: Seq<StreamFrame>,
    report: GenerationReport,
    include_usage: bool,
)
    requires
        are_pieces_of(pieces, data, frames, report, include_usage),
    ensures
        sent_reasoning(pieces, pieces.len() as int) == frame_reasoning(frames, frames.len() as int),
        sent_calls(pieces, pieces.len() as int) == frame_calls(frames, frames.len() as int),
        pieces[frames.len() as int + 1].choices@[0].finish_reason == Some(report.finish_reason),
        include_usage ==> pieces.last().usage == Some(report.usage),
        pieces[0].choices@[0].delta.role == Some(Role::Assistant),
        forall|i: int|
            0 <= i < pieces.len() ==> {
                &&& (#[trigger] pieces[i]).id@ == data.id
                &&& pieces[i].created == data.created
                &&& pieces[i].model@ == data.model
            },
{
    let n = frames.len() as int;
    lemma_sent_rest(pieces, data, frames, report, include_usage, n);
    crate::api::worker::law_pieces_make_an_answer(pieces, data, frames, report, include_usage);
    reveal_with_fuel(sent_reasoning, 3);
    reveal_with_fuel(sent_calls, 3);
    assert(pieces[n + 1].choices@.len() == 1);
    assert(sent_reasoning(pieces, n + 2) == sent_reasoning(pieces, n + 1));
    assert(sent_calls(pieces, n + 2) == sent_calls(pieces, n + 1));
}

/// The frames that the listener was handed in the first turns.
pub open spec fn frames_of<
    S: Sampler,
    R: ReasoningSupervisorInterface,
    C: ToolCallingSupervisorInterface,
>(turns: Seq<Turn<S, R, C>>, count: int) -> Seq<StreamFrame>
    decreases count,
{
    if count <= 0 {
        seq![]
    } else {
        match turns[count - 1].step.frame {
            Some(frame) => frames_of(turns, count - 1).push(frame),
            None => frames_of(turns, count - 1),
        }
    }
}

proof fn lemma_frames_so_far<
    S: Sampler,
    R: ReasoningSupervisorInterface,
    C: ToolCallingSupervisorInterface,
>(turns: Seq<Turn<S, R, C>>, count: int)
    ensures
        ({
            let frames = frames_of(turns, count);
            &&& frame_text(frames, frames.len() as int) == heard_text(
                turns,
                count,
                GenerationDataType::DirectContent,
            )
            &&& frame_reasoning(frames, frames.len() as int) == heard_text(
                turns,
                count,
                GenerationDataType::Reasoning,
            )
        }),
    decreases count,
{
    if count > 0 {
        lemma_frames_so_far(turns, count - 1);
        let before = frames_of(turns, count - 1);
        if let Some(frame) = turns[count - 1].step.frame {
            lemma_frames_ahead(before, frame, before.len() as int);
            let frames = before.push(frame);
            assert(frames[frames.len() - 1] == frame);
        }
    }
}

proof fn lemma_frames_ahead(frames: Seq<StreamFrame>, last: StreamFrame, count: int)
    requires
        count <= frames.len(),
    ensures
        frame_text(frames.push(last), count) == frame_text(frames, count),
        frame_reasoning(frames.push(last), count) == frame_reasoning(frames, count),
    decreases count,
{
    if count > 0 {
        lemma_frames_ahead(frames, last, count - 1);
        assert(frames.push(last)[count - 1] == frames[count - 1]);
    }
}

/// An answer says the same whether it comes in one piece or in many: the text in the pieces that
/// are sent for the frames of a generation is the text that the generation is reported with, and
/// so is the reasoning.
pub proof fn law_stream_says_what_is_reported<
    T: Tokenizer,
    D: Model,
    S: Sampler<Logits = candle_core::Tensor>,
    R: ReasoningSupervisorInterface,
    C: ToolCallingSupervisorInterface,
    M: ModelCacheManagerInterface,
    L: CacheLoader,
    K: StreamCallback,
>(
    engine: InferenceEngine<T, D>,
    config: GenerationConfig,
    stages: Seq<Stage<S, R, C, M, L, K>>,
    turns: Seq<Turn<S, R, C>>,
    prompt_len: int,
    report: GenerationReport,
    pieces: Seq<ChatCompletionChunk>,
    data: StaticView,
    include_usage: bool,
)
    requires
        engine.is_run(config, stages, turns),
        stages[0].progress.content_text@ == Seq::<char>::empty(),
        stages[0].progress.reasoning_text@ == Seq::<char>::empty(),
        stages[0].progress.steps == 0,
        stages.last().is_reported(prompt_len, report),
        are_pieces_of(pieces, data, frames_of(turns, turns.len() as int), report, include_usage),
    ensures
        Some(crate::api::worker::sent_text(pieces, pieces.len() as int)) == text_of(
            report.chat_message.content,
        ),
        match text_of(report.chat_message.reasoning_content) {
            Some(text) => sent_reasoning(pieces, pieces.len() as int) == text,
            None => sent_reasoning(pieces, pieces.len() as int).len() == 0,
        },
{
    let n = turns.len() as int;
    let frames = frames_of(turns, n);
    law_report_is_what_was_heard(engine, config, stages, turns);
    lemma_frames_so_far(turns, n);
    crate::api::worker::law_pieces_make_an_answer(pieces, data, frames, report, include_usage);
    law_pieces_hold_the_rest(pieces, data, frames, report, include_usage);
}

/// What a frame changes of the answer: its text goes to the answer or to the reasoning, as its kind
/// says, and a piece of a tool call to the calls; nothing goes to two places.
pub proof fn law_frame_goes_to_its_place(
    delta: crate::api::types::ChunkDelta,
    frame: StreamFrame,
)
    requires
        is_delta_of(delta, frame),
    ensures
        frame.output_type == GenerationDataType::DirectContent ==> {
            &&& text_of(delta.content) == Some(frame.output@)
            &&& delta.reasoning_content is None
            &&& delta.tool_calls is None
        },
        frame.output_type == GenerationDataType::Reasoning ==> {
            &&& text_of(delta.reasoning_content) == Some(frame.output@)
            &&& delta.content is None
            &&& delta.tool_calls is None
        },
        (frame.output_type == GenerationDataType::ToolCallName || frame.output_type
            == GenerationDataType::ToolCallArguments) && frame.tool_call_chunk is Some ==> {
            &&& delta.content is None
            &&& delta.reasoning_content is None
            &&& delta.tool_calls matches Some(list) && list@ == seq![frame.tool_call_chunk->Some_0]
        },
{
}

/// An answer that is sent piece by piece goes its way as long as it is heard: the generation runs
/// after the first piece, the piece that ends the answer follows the generation, the figures
/// follow that if they are asked for, and then it is finished.
pub proof fn law_answer_goes_its_way(
    answer: StreamedAnswer,
    report: GenerationReport,
    action: StreamAction,
    after: StreamPhase,
)
    ensures
        answer.phase is Opening && answer.leads_to(StreamEvent::Heard, action, after)
            ==> action is Generate && after is Generating,
        answer.phase is Generating && answer.leads_to(
            StreamEvent::Generated { report },
            action,
            after,
        ) ==> {
            &&& action matches StreamAction::Send { chunk }
            &&& chunk.choices@.len() == 1
            &&& chunk.choices@[0].finish_reason == Some(report.finish_reason)
            &&& after == (StreamPhase::Closing { report })
        },
        answer.phase == (StreamPhase::Closing { report }) && answer.leads_to(
            StreamEvent::Heard,
            action,
            after,
        ) ==> if answer.include_usage {
            &&& action matches StreamAction::Send { chunk }
            &&& chunk.usage == Some(report.usage)
            &&& chunk.choices@.len() == 0
            &&& after is Leaving
        } else {
            action is Finish && after is Done
        },
        answer.phase is Leaving && answer.leads_to(StreamEvent::Heard, action, after)
            ==> action is Finish && after is Done,
        answer.leads_to(StreamEvent::Unheard, action, after) ==> action is Finish && after is Done,
{
}

/// A user who is gone is not answered; any other failure is answered with its reason.
pub proof fn law_gone_users_are_not_answered(reason: Seq<char>)
    ensures
        failure_answer(ErrorView::Stream("User disconnected"@)) is None,
        ({
            let error = ErrorView::Inference(reason);
            !says_disconnected(error_text(error)) ==> failure_answer(error) == Some(
                "Generation failed with an engine error: "@ + error_text(error),
            )
        }),
        error_text(ErrorView::Inference(reason)) == "Inference error: "@ + reason,
{
    let text = error_text(ErrorView::Stream("User disconnected"@));
    let head = "Stream error: "@;
    assert(text == head + "User disconnected"@);
    assert(text.subrange(head.len() as int, head.len() + "User disconnected"@.len() as int)
        =~= "User disconnected"@);
    assert(stands_at(text, "User disconnected"@, head.len() as int));
}

/// A model that is not used for longer than the timeout is given up, and so it is when the worker
/// ends; one that is used in time is not.
pub proof fn law_idle_models_are_given_up(worker: WorkerView, nanos: u128)
    ensures
        ({
            let (after, action) = worker.next(WorkerEventView::Idle { nanos });
            if worker.active_model is Some && nanos > worker.idle_timeout * 1_000_000_000 {
                &&& action == WorkerActionView::Unload
                &&& after.active_model is None
                &&& !after.has_context
            } else {
                action == WorkerActionView::Wait && after == worker
            }
        }),
        ({
            let (after, action) = worker.next(WorkerEventView::Closed);
            action == WorkerActionView::Stop && after.active_model is None && !after.has_context
        }),
{
}

/// What is answered to a request that cannot be served.
pub proof fn law_refusals(reason: String)
    ensures
        RequestError::ModelRequired.text() == "model is required"@,
        RequestError::UserMessageRequired.text()
            == "messages must contain at least one user message"@,
        RequestError::InvalidJson(reason).text() == "Invalid JSON: "@ + reason@,
        RequestError::UnreadableBody(reason).text() == "Failed to read request body: "@ + reason@,
{
}

/// A response in one piece holds the message of the report, why it ended and its figures, under the
/// name of the model; and pieces and responses say what they are.
pub proof fn law_response_holds_the_report(
    response: ChatCompletionResponse,
    model: Seq<char>,
    report: GenerationReport,
    created: u64,
    chunk: ChatCompletionChunk,
    data: StaticView,
)
    ensures
        is_response(response, model, report, created) ==> {
            &&& response.choices@.len() == 1
            &&& response.choices@[0].message == report.chat_message
            &&& response.choices@[0].finish_reason == Some(report.finish_reason)
            &&& response.usage == Some(report.usage)
            &&& response.model@ == model
            &&& response.created == created
            &&& response.object@ == "chat.completion"@
            &&& response.system_fingerprint@ == "loci-"@ + model
        },
        is_piece_of(chunk, data) ==> {
            &&& chunk.object@ == "chat.completion.chunk"@
            &&& chunk.id@ == data.id
            &&& chunk.created == data.created
            &&& chunk.model@ == data.model
            &&& chunk.system_fingerprint@ == data.system_fingerprint
        },
{
}

} // verus!
