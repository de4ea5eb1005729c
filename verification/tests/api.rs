use loci::api::types::{
    sanitize_path, ChatCompletionChunk, ChatCompletionRequest, ChunkChoice, RequestError,
    StreamOptions, ValidatedChatCompletionRequest,
};
use loci::api::worker::{
    after_stream_chunk, answer_failure, answer_in_one, before_single_chunk, before_stream_chunk,
    build_chat_completion_response, build_final_content_chunk, build_initial_chunk,
    build_regular_chunk, build_usage_chunk, is_idle, is_served_by, take_apart, EngineWorker,
    SendOutcome, SingleAction, StaticChatCompletionData, StreamAction, StreamEvent,
    StreamedAnswer, WorkerAction, WorkerEvent,
};
use loci::error::LociError;
use loci::float::{Float32, Float64};
use loci::inference::types::{GenerationDataType, GenerationReport, StreamFrame};
use loci::render::{render_frame, OutputStyle};
use loci::types::{
    ChatMessage, ChunkFunctionCall, ChunkToolCall, CompletionTokensDetails, FinishReason, Function,
    FunctionParameters, LogprobsContent, PromptTokensDetails, ReasoningEffort, Role, Tool,
    ToolChoice, ToolChoiceMode, Usage,
};

fn mock_static_chat_completions_data() -> StaticChatCompletionData {
    StaticChatCompletionData {
        id: "1234".to_string(),
        created: 1234567u64,
        model: "test".to_string(),
        system_fingerprint: "loci-test".to_string(),
    }
}

fn mock_generation_report() -> GenerationReport {
    GenerationReport {
        chat_message: ChatMessage {
            role: Role::Assistant,
            content: Some("content".to_string()),
            reasoning_content: None,
            tool_calls: None,
            tool_call_id: None,
        },
        finish_reason: FinishReason::Length,
        usage: Usage {
            prompt_tokens: 51,
            completion_tokens: 79,
            total_tokens: 130,
            prompt_tokens_details: Some(PromptTokensDetails {
                cached_tokens: 0,
                audio_tokens: 0,
            }),
            completion_tokens_details: Some(CompletionTokensDetails::default()),
        },
        token_generation_sec: Float64 {
            bits: 2.0f64.to_bits(),
        },
    }
}

fn assert_head(response: &ChatCompletionChunk) {
    assert_eq!(response.id, "1234");
    assert_eq!(response.object, "chat.completion.chunk");
    assert_eq!(response.created, 1234567);
    assert_eq!(response.model, "test");
    assert_eq!(response.system_fingerprint, "loci-test");
}

fn only_choice(response: &ChatCompletionChunk) -> &ChunkChoice {
    assert_head(response);
    assert_eq!(response.usage, None);
    assert_eq!(response.choices.len(), 1);
    assert_eq!(response.choices[0].index, 0);
    assert_eq!(response.choices[0].logprobs, None);
    &response.choices[0]
}

fn frame(output: &str, output_type: GenerationDataType) -> StreamFrame {
    StreamFrame {
        output: output.to_string(),
        output_type,
        tool_call_chunk: None,
        logprobs: None,
    }
}

#[test]
fn test_build_initial_chunk() {
    let response = build_initial_chunk(mock_static_chat_completions_data());
    let choice = only_choice(&response);
    assert_eq!(choice.delta.role, Some(Role::Assistant));
    assert_eq!(choice.delta.content, Some("".to_string()));
    assert_eq!(choice.delta.reasoning_content, None);
    assert_eq!(choice.delta.tool_calls, None);
    assert_eq!(choice.finish_reason, None);
}

#[test]
fn test_build_regular_chunk_with_direct_content() {
    let response = build_regular_chunk(
        mock_static_chat_completions_data(),
        frame("content", GenerationDataType::DirectContent),
    );
    let choice = only_choice(&response);
    assert_eq!(choice.delta.role, None);
    assert_eq!(choice.delta.content, Some("content".to_string()));
    assert_eq!(choice.delta.reasoning_content, None);
    assert_eq!(choice.delta.tool_calls, None);
    assert_eq!(choice.finish_reason, None);
}

#[test]
fn test_build_regular_chunk_with_reasoning() {
    let response = build_regular_chunk(
        mock_static_chat_completions_data(),
        frame("content", GenerationDataType::Reasoning),
    );
    let choice = only_choice(&response);
    assert_eq!(choice.delta.role, None);
    assert_eq!(choice.delta.content, None);
    assert_eq!(choice.delta.reasoning_content, Some("content".to_string()));
    assert_eq!(choice.delta.tool_calls, None);
    assert_eq!(choice.finish_reason, None);
}

#[test]
fn test_build_regular_chunk_with_tool_call_name() {
    let chunk = ChunkToolCall {
        index: 0,
        id: Some(String::from("4321")),
        kind: Some(String::from("function")),
        function: ChunkFunctionCall {
            name: Some(String::from("test_tool")),
            arguments: String::new(),
        },
    };
    let mut frame_data = frame("", GenerationDataType::ToolCallName);
    frame_data.tool_call_chunk = Some(chunk.clone());
    let response = build_regular_chunk(mock_static_chat_completions_data(), frame_data);
    let choice = only_choice(&response);
    assert_eq!(choice.delta.role, None);
    assert_eq!(choice.delta.content, None);
    assert_eq!(choice.delta.reasoning_content, None);
    assert_eq!(choice.delta.tool_calls, Some(vec![chunk]));
    assert_eq!(choice.finish_reason, None);
}

#[test]
fn test_build_regular_chunk_with_tool_call_arguments() {
    let chunk = ChunkToolCall {
        index: 0,
        id: None,
        kind: None,
        function: ChunkFunctionCall {
            name: None,
            arguments: String::from("[\"arg1\", \"arg2\"]"),
        },
    };
    let mut frame_data = frame("", GenerationDataType::ToolCallArguments);
    frame_data.tool_call_chunk = Some(chunk.clone());
    let response = build_regular_chunk(mock_static_chat_completions_data(), frame_data);
    let choice = only_choice(&response);
    assert_eq!(choice.delta.role, None);
    assert_eq!(choice.delta.content, None);
    assert_eq!(choice.delta.reasoning_content, None);
    assert_eq!(choice.delta.tool_calls, Some(vec![chunk]));
    assert_eq!(choice.finish_reason, None);
}

#[test]
fn scores_travel_with_their_piece() {
    let scores = LogprobsContent {
        token: "a".to_string(),
        logprob: Float32 {
            bits: (-0.25f32).to_bits(),
        },
        bytes: vec![97],
        top_logprobs: None,
    };
    let mut frame_data = frame("a", GenerationDataType::DirectContent);
    frame_data.logprobs = Some(scores.clone());
    let response = build_regular_chunk(mock_static_chat_completions_data(), frame_data);
    let logprobs = response.choices[0].logprobs.as_ref().expect("the scores");
    assert_eq!(logprobs.content, vec![scores]);
}

fn assert_final(finish_reason: FinishReason) {
    let response = build_final_content_chunk(mock_static_chat_completions_data(), finish_reason);
    let choice = only_choice(&response);
    assert_eq!(choice.delta.role, None);
    assert_eq!(choice.delta.content, None);
    assert_eq!(choice.delta.reasoning_content, None);
    assert_eq!(choice.delta.tool_calls, None);
    assert_eq!(choice.finish_reason, Some(finish_reason));
}

#[test]
fn test_build_final_content_chunk_with_finish_reason_stop() {
    assert_final(FinishReason::Stop);
}

#[test]
fn test_build_final_content_chunk_with_finish_reason_length() {
    assert_final(FinishReason::Length);
}

#[test]
fn test_build_final_content_chunk_with_finish_reason_tool_calls() {
    assert_final(FinishReason::ToolCalls);
}

#[test]
fn test_build_usage_chunk() {
    let response = build_usage_chunk(mock_static_chat_completions_data(), mock_generation_report());
    assert_head(&response);
    assert!(response.choices.is_empty());
    assert_eq!(response.usage, Some(mock_generation_report().usage));
}

#[test]
fn test_build_chat_completion_response() {
    let report = mock_generation_report();
    let response = build_chat_completion_response("test-model", report, 77);
    assert!(!response.id.is_empty());
    assert_eq!(response.created, 77);
    assert_eq!(response.object, "chat.completion");
    assert_eq!(response.model, "test-model");
    assert_eq!(response.system_fingerprint, "loci-test-model");
    assert_eq!(response.usage, Some(mock_generation_report().usage));
    assert_eq!(response.choices.len(), 1);
    assert_eq!(response.choices[0].index, 0);
    assert_eq!(response.choices[0].message, mock_generation_report().chat_message);
    assert_eq!(response.choices[0].finish_reason, Some(FinishReason::Length));
}

#[test]
fn pieces_of_one_answer_share_their_head() {
    let data = StaticChatCompletionData::new("test-model", 99);
    assert!(!data.id.is_empty());
    assert_eq!(data.created, 99);
    assert_eq!(data.model, "test-model");
    assert_eq!(data.system_fingerprint, "loci-test-model");
    assert_eq!(data.copy(), data);
    let first = build_initial_chunk(data.copy());
    let last = build_final_content_chunk(data.copy(), FinishReason::Stop);
    assert_eq!(first.id, last.id);
    assert_ne!(StaticChatCompletionData::new("test-model", 99).id, data.id);
}

fn request(model: Option<&str>, messages: Vec<ChatMessage>) -> ChatCompletionRequest {
    ChatCompletionRequest {
        model: model.map(|name| name.to_string()),
        messages,
        tools: None,
        tool_choice: None,
        temperature: None,
        top_p: None,
        max_tokens: None,
        repetition_penalty: None,
        reasoning_effort: None,
        stream: None,
        stream_options: None,
        stop: None,
        logprobs: None,
        top_logprobs: None,
        seed: None,
    }
}

fn hello() -> Vec<ChatMessage> {
    vec![ChatMessage::new(Role::User, "Hello")]
}

fn tool() -> Tool {
    Tool {
        kind: "function".to_string(),
        function: Function {
            name: "get_candidate_status".to_string(),
            description: None,
            parameters: FunctionParameters {
                kind: "object".to_string(),
                properties: None,
                required: vec!["candidate_id".to_string()],
            },
        },
    }
}

fn refused(payload: ChatCompletionRequest) -> RequestError {
    match ValidatedChatCompletionRequest::from_request(payload) {
        Ok(_) => panic!("a request that is to be refused"),
        Err(error) => error,
    }
}

fn accepted(payload: ChatCompletionRequest) -> ValidatedChatCompletionRequest {
    match ValidatedChatCompletionRequest::from_request(payload) {
        Ok(request) => request,
        Err(error) => panic!("{}", error.message()),
    }
}

#[test]
fn test_model_is_required() {
    let error = refused(request(None, hello()));
    assert_eq!(error, RequestError::ModelRequired);
    assert_eq!(error.message(), "model is required");
}

#[test]
fn test_user_message_is_required() {
    let error = refused(request(
        Some("gpt-4"),
        vec![ChatMessage::new(Role::Assistant, "Hello")],
    ));
    assert_eq!(error, RequestError::UserMessageRequired);
    assert_eq!(error.message(), "messages must contain at least one user message");
}

#[test]
fn unreadable_requests_in_words() {
    assert_eq!(
        RequestError::InvalidJson("EOF while parsing".to_string()).message(),
        "Invalid JSON: EOF while parsing"
    );
    assert!(RequestError::UnreadableBody("gone".to_string())
        .message()
        .contains("gone"));
}

#[test]
fn test_system_message_injected_when_missing() {
    let result = accepted(request(Some("gpt-4"), hello()));
    assert_eq!(result.messages[0].role, Role::System);
    assert_eq!(
        result.messages[0].content.as_ref().unwrap(),
        "You are a helpful assistant."
    );
    assert_eq!(result.messages.len(), 2);
    assert_eq!(result.messages[1].content.as_ref().unwrap(), "Hello");
}

#[test]
fn a_system_message_is_kept() {
    let mut messages = vec![ChatMessage::new(Role::System, "Be brief.")];
    messages.extend(hello());
    let result = accepted(request(Some("gpt-4"), messages.clone()));
    assert_eq!(result.messages, messages);
}

#[test]
fn test_tool_choice_resolution() {
    let off = ToolChoice::Mode(ToolChoiceMode::Off);
    let auto = ToolChoice::Mode(ToolChoiceMode::Auto);
    let cases = vec![
        (None, None, off.clone()),
        (Some(vec![tool()]), None, auto.clone()),
        (Some(vec![]), None, off.clone()),
        (None, Some(auto.clone()), auto.clone()),
        (Some(vec![tool()]), Some(off.clone()), off.clone()),
    ];
    for (tools, tool_choice, expected_tool_choice) in cases {
        let mut payload = request(Some("gpt-4"), hello());
        payload.tools = tools;
        payload.tool_choice = tool_choice;
        assert_eq!(accepted(payload).tool_choice, expected_tool_choice);
    }
}

#[test]
fn test_normalized_model_name() {
    for (model, expected_model) in [
        ("modelgpt-4", "modelgpt-4"),
        ("model\\gpt-4", "model/gpt-4"),
        ("model\\\\gpt-4", "model//gpt-4"),
    ] {
        assert_eq!(accepted(request(Some(model), hello())).model, expected_model);
    }
    assert_eq!(sanitize_path("a/b"), "a/b");
    assert_eq!(sanitize_path(&sanitize_path("a\\b")), "a/b");
}

#[test]
fn a_request_is_taken_apart() {
    let mut payload = request(Some("gpt-4"), hello());
    payload.temperature = Some(Float32 {
        bits: 0.5f32.to_bits(),
    });
    payload.max_tokens = Some(12);
    payload.reasoning_effort = Some(ReasoningEffort::Low);
    payload.stop = Some(vec!["end".to_string()]);
    payload.seed = Some(3);
    payload.stream_options = Some(StreamOptions {
        include_usage: Some(true),
    });
    payload.tools = Some(vec![tool()]);
    let parts = take_apart(accepted(payload));
    assert_eq!(parts.messages.len(), 2);
    assert_eq!(parts.tools.len(), 1);
    assert!(parts.include_usage);
    assert_eq!(parts.overrides.max_tokens, Some(12));
    assert_eq!(parts.overrides.seed, Some(3));
    assert_eq!(parts.overrides.stop_tokens, Some(vec!["end".to_string()]));
    assert_eq!(parts.overrides.reasoning_effort, Some(ReasoningEffort::Low));
    assert_eq!(
        parts.overrides.tool_choice,
        Some(ToolChoice::Mode(ToolChoiceMode::Auto))
    );
    let parts = take_apart(accepted(request(Some("gpt-4"), hello())));
    assert!(!parts.include_usage);
    assert!(parts.tools.is_empty());
    assert_eq!(parts.overrides.temperature, None);
}

#[test]
fn models_are_served_by_their_file_name() {
    assert!(is_served_by(Some("model.gguf"), "models/model.gguf"));
    assert!(is_served_by(Some("model.gguf"), "model.gguf"));
    assert!(!is_served_by(Some("model.gguf"), "models/other.gguf"));
    assert!(!is_served_by(None, "model.gguf"));
}

#[test]
fn an_unused_engine_is_given_up() {
    let second = 1_000_000_000u128;
    assert!(!is_idle(true, 300 * second, 300));
    assert!(is_idle(true, 300 * second + 1, 300));
    assert!(!is_idle(false, 301 * second, 300));
}

#[test]
fn test_drop_engine_due_to_timeout() {
    let second = 1_000_000_000u128;
    let mut worker = EngineWorker::new(Some("mock".to_string()), 600);
    assert!(worker.active_model.is_some());
    assert!(worker.has_context);
    let action = worker.next(WorkerEvent::Idle { nanos: 600 * second });
    assert!(matches!(action, WorkerAction::Wait));
    assert!(worker.active_model.is_some());
    let action = worker.next(WorkerEvent::Idle { nanos: 630 * second });
    assert!(matches!(action, WorkerAction::Unload));
    assert!(worker.active_model.is_none());
    assert!(!worker.has_context);
    let action = worker.next(WorkerEvent::Idle { nanos: 630 * second });
    assert!(matches!(action, WorkerAction::Wait));
}

fn ask(worker: &mut EngineWorker, path: &str) -> WorkerAction {
    worker.next(WorkerEvent::Request {
        model: path.to_string(),
    })
}

#[test]
fn a_request_gets_its_model() {
    let mut worker = EngineWorker::new(None, 600);
    match ask(&mut worker, "models/a.gguf") {
        WorkerAction::Load { path } => assert_eq!(path, "models/a.gguf"),
        other => panic!("{:?}", other),
    }
    match worker.next(WorkerEvent::Loaded { outcome: Ok(()) }) {
        WorkerAction::OpenContext { model } => assert_eq!(model, "a.gguf"),
        other => panic!("{:?}", other),
    }
    let action = worker.next(WorkerEvent::ContextOpened { outcome: Ok(()) });
    assert!(matches!(action, WorkerAction::Generate));
    assert_eq!(worker.active_model, Some("a.gguf".to_string()));
    assert!(matches!(ask(&mut worker, "other/a.gguf"), WorkerAction::Generate));
    assert!(matches!(ask(&mut worker, "models/b.gguf"), WorkerAction::Load { .. }));
    assert_eq!(worker.active_model, None);
    match worker.next(WorkerEvent::Loaded {
        outcome: Err("Model not found".to_string()),
    }) {
        WorkerAction::Refuse { message } => assert_eq!(message, "Model not found"),
        other => panic!("{:?}", other),
    }
    assert!(matches!(ask(&mut worker, "models/b.gguf"), WorkerAction::Load { .. }));
    worker.next(WorkerEvent::Loaded { outcome: Ok(()) });
    match worker.next(WorkerEvent::ContextOpened {
        outcome: Err("no directory".to_string()),
    }) {
        WorkerAction::Refuse { message } => assert_eq!(message, "no directory"),
        other => panic!("{:?}", other),
    }
    assert!(matches!(ask(&mut worker, "models/b.gguf"), WorkerAction::Abandon));
    assert!(matches!(worker.next(WorkerEvent::Closed), WorkerAction::Stop));
    assert_eq!(worker.active_model, None);
}

#[test]
fn an_unexpected_outcome_changes_nothing() {
    let mut worker = EngineWorker::new(Some("a.gguf".to_string()), 600);
    let before = worker.clone();
    let action = worker.next(WorkerEvent::Loaded { outcome: Ok(()) });
    assert!(matches!(action, WorkerAction::Wait));
    let action = worker.next(WorkerEvent::ContextOpened {
        outcome: Err("late".to_string()),
    });
    assert!(matches!(action, WorkerAction::Wait));
    assert_eq!(worker, before);
}

fn sent(action: StreamAction) -> ChatCompletionChunk {
    match action {
        StreamAction::Send { chunk } => chunk,
        other => panic!("{:?}", other),
    }
}

fn generated() -> StreamEvent {
    StreamEvent::Generated {
        report: mock_generation_report(),
    }
}

#[test]
fn an_answer_is_sent_piece_by_piece() {
    let (mut answer, action) = StreamedAnswer::begin(mock_static_chat_completions_data(), true);
    let first = sent(action);
    assert_eq!(first.choices[0].delta.role, Some(Role::Assistant));
    assert!(matches!(answer.next(StreamEvent::Heard), StreamAction::Generate));
    let last = sent(answer.next(generated()));
    assert_eq!(last.choices[0].finish_reason, Some(FinishReason::Length));
    assert_eq!(last.usage, None);
    let figures = sent(answer.next(StreamEvent::Heard));
    assert!(figures.choices.is_empty());
    assert_eq!(figures.usage.map(|usage| usage.total_tokens), Some(130));
    assert!(matches!(answer.next(StreamEvent::Heard), StreamAction::Finish));
}

#[test]
fn an_answer_ends_where_nobody_listens() {
    let (mut answer, _) = StreamedAnswer::begin(mock_static_chat_completions_data(), true);
    assert!(matches!(answer.next(StreamEvent::Unheard), StreamAction::Finish));
    let (mut answer, _) = StreamedAnswer::begin(mock_static_chat_completions_data(), true);
    answer.next(StreamEvent::Heard);
    answer.next(generated());
    assert!(matches!(answer.next(StreamEvent::Unheard), StreamAction::Finish));
    let (mut answer, _) = StreamedAnswer::begin(mock_static_chat_completions_data(), false);
    answer.next(StreamEvent::Heard);
    answer.next(generated());
    assert!(matches!(answer.next(StreamEvent::Heard), StreamAction::Finish));
}

#[test]
fn a_failed_answer_says_why() {
    let (mut answer, _) = StreamedAnswer::begin(mock_static_chat_completions_data(), true);
    answer.next(StreamEvent::Heard);
    let action = answer.next(StreamEvent::Failed {
        error: LociError::Inference("out of memory".to_string()),
    });
    match action {
        StreamAction::SendError { message } => assert_eq!(
            message,
            "Generation failed with an engine error: Inference error: out of memory"
        ),
        other => panic!("{:?}", other),
    }
    assert!(matches!(answer.next(StreamEvent::Heard), StreamAction::Finish));
    let (mut answer, _) = StreamedAnswer::begin(mock_static_chat_completions_data(), true);
    answer.next(StreamEvent::Heard);
    let action = answer.next(StreamEvent::Failed {
        error: LociError::Stream("User disconnected".to_string()),
    });
    assert!(matches!(action, StreamAction::Finish));
}

#[test]
fn an_answer_in_one_piece() {
    match answer_in_one("test-model", Ok(mock_generation_report()), 7) {
        SingleAction::Send { response } => {
            assert_eq!(response.created, 7);
            assert_eq!(response.model, "test-model");
            assert_eq!(response.choices[0].message.content, Some("content".to_string()));
        }
        other => panic!("{:?}", other),
    }
    let failed = Err(LociError::Inference("out of memory".to_string()));
    assert!(matches!(
        answer_in_one("test-model", failed, 7),
        SingleAction::SendError { .. }
    ));
    let gone = Err(LociError::Stream("User disconnected".to_string()));
    assert!(matches!(answer_in_one("test-model", gone, 7), SingleAction::Finish));
}

#[test]
fn listeners_stop_a_generation() {
    assert!(before_stream_chunk(false).is_ok());
    assert!(before_stream_chunk(true).is_err());
    assert!(before_single_chunk(false, false).is_ok());
    let gone = before_single_chunk(true, true).expect_err("nobody listens");
    assert_eq!(gone.message(), "Stream error: User disconnected");
    assert!(after_stream_chunk(SendOutcome::Sent, SendOutcome::Closed).is_ok());
    assert!(after_stream_chunk(SendOutcome::Full, SendOutcome::Sent).is_ok());
    assert!(after_stream_chunk(SendOutcome::Full, SendOutcome::Full).is_err());
    let closed = after_stream_chunk(SendOutcome::Closed, SendOutcome::Sent).expect_err("closed");
    assert_eq!(answer_failure(&closed), None);
    assert_eq!(answer_failure(&gone), None);
    assert_eq!(
        answer_failure(&LociError::Inference("out of memory".to_string())),
        Some("Generation failed with an engine error: Inference error: out of memory".to_string())
    );
}

#[test]
fn frames_on_a_terminal() {
    let plain = render_frame(frame("hi", GenerationDataType::DirectContent));
    assert_eq!(plain.text, "hi");
    let thought = render_frame(frame("hm", GenerationDataType::Reasoning));
    assert_eq!(thought.text, "hm");
    assert_eq!(thought.style, OutputStyle::Reasoning);
    let mut call = frame("", GenerationDataType::ToolCallName);
    call.tool_call_chunk = Some(ChunkToolCall {
        index: 0,
        id: Some("1".to_string()),
        kind: Some("function".to_string()),
        function: ChunkFunctionCall {
            name: Some("weather".to_string()),
            arguments: String::new(),
        },
    });
    let shown = render_frame(call);
    assert_eq!(shown.style, OutputStyle::ToolName);
    assert!(shown.text.contains("weather"));
}
