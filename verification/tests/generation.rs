use std::collections::HashMap;

use loci::float::Float32;
use loci::inference::generation_handler::GenerationHandler;
use loci::inference::reasoning_supervisor::{
    ReasoningSupervisor, ReasoningSupervisorInterface, HIGH_REASONING_BUDGET,
    LOW_REASONING_BUDGET, MEDIUM_REASONING_BUDGET,
};
use loci::inference::sampler::Sampler;
use loci::inference::stop_pattern_matcher::{StopPattern, StopPatternMatcher};
use loci::inference::tool_calling_supervisor::{
    StateEnum, ToolCallingSupervisor, ToolCallingSupervisorContext, ToolCallingSupervisorInterface,
};
use loci::inference::tool_formatter::{
    EnclosedJsonFormatter, PythonCallFormatter, ToolArgFormatter, ToolArgFormatterBuilder,
    ToolFormatter, XmlArgPairsFormatter,
};
use loci::inference::types::{
    GenerationDataType, GenerationEvent, PostSamplingConfig, SamplingResult, ToolFormatStyle,
};
use loci::tokenizer::{StreamContext, Tokenizer};
use loci::types::{
    ChatMessage, ChunkFunctionCall, ChunkToolCall, FunctionDefinition, ReasoningEffort,
    SpecificFunctionChoice, SpecificToolChoice, Tool, ToolCall, ToolChoice, ToolChoiceMode,
};
use serde_json::Value;

/// A tokenizer with fixed answers.
struct MockTokenizer {
    encoded: Vec<u32>,
    piece: Option<String>,
}

impl MockTokenizer {
    fn new() -> Self {
        MockTokenizer {
            encoded: vec![],
            piece: None,
        }
    }

    fn decoding(piece: Option<&str>) -> Self {
        MockTokenizer {
            encoded: vec![],
            piece: piece.map(|text| text.to_string()),
        }
    }

    fn encoding(encoded: Vec<u32>) -> Self {
        MockTokenizer {
            encoded,
            piece: None,
        }
    }
}

impl Tokenizer for MockTokenizer {
    fn eos_token_id(&self) -> u32 {
        4
    }

    fn special_token_ids(&self) -> Vec<u32> {
        vec![]
    }

    fn apply_chat_template(
        &self,
        _messages: &Vec<ChatMessage>,
        _tools: &Vec<Tool>,
        _enable_thinking: bool,
        _flatten_tools_to_functions: bool,
    ) -> Result<String, String> {
        Err("no template".to_string())
    }

    fn encode(&self, _text: &str, _add_special_tokens: bool) -> Result<Vec<u32>, String> {
        Ok(self.encoded.clone())
    }

    fn decode(&self, _ids: &[u32], _skip_special_tokens: bool) -> Result<String, String> {
        Ok(String::new())
    }

    fn process_token_stream(
        &self,
        _stream_ctx: &mut StreamContext,
        _token_id: u32,
    ) -> Result<Option<String>, String> {
        Ok(self.piece.clone())
    }

    fn process_multiple_token_stream(
        &self,
        _stream_ctx: &mut StreamContext,
        _token_ids: &[u32],
    ) -> Result<Option<String>, String> {
        Ok(self.piece.clone())
    }
}

/// A sampler that always picks the same and notes what it was asked for.
struct MockSampler {
    answer: Option<SamplingResult>,
    asked: Vec<Option<usize>>,
    noted: Vec<u32>,
}

impl MockSampler {
    fn new() -> Self {
        MockSampler {
            answer: None,
            asked: vec![],
            noted: vec![],
        }
    }

    fn answering(answer: SamplingResult) -> Self {
        MockSampler {
            answer: Some(answer),
            asked: vec![],
            noted: vec![],
        }
    }
}

impl Sampler for MockSampler {
    type Logits = Vec<u32>;

    fn add_token(&mut self, token_id: u32) {
        self.noted.push(token_id);
    }

    fn sample(
        &mut self,
        _logits: &Vec<u32>,
        top_k: Option<usize>,
    ) -> Result<SamplingResult, String> {
        self.asked.push(top_k);
        match &self.answer {
            Some(answer) => Ok(answer.clone()),
            None => Err("nothing to sample".to_string()),
        }
    }
}

struct MockReasoning {
    event: GenerationEvent,
    count: u32,
}

impl ReasoningSupervisorInterface for MockReasoning {
    fn advance(
        &mut self,
        _token_ids: &[u32],
        _ongoing_gen_type: &GenerationDataType,
    ) -> GenerationEvent {
        self.event.clone()
    }

    fn reasoning_tokens_count(&self) -> u32 {
        self.count
    }

    fn get_reasoning_budget(&self) -> u32 {
        0
    }
}

struct MockToolCalling {
    event: Result<GenerationEvent, String>,
    calls: Option<Vec<ToolCall>>,
}

impl ToolCallingSupervisorInterface for MockToolCalling {
    fn advance(
        &mut self,
        _token_ids: &[u32],
        _ongoing_gen_type: &GenerationDataType,
    ) -> Result<GenerationEvent, String> {
        self.event.clone()
    }

    fn tool_calls(&self) -> Option<Vec<ToolCall>> {
        self.calls.clone()
    }
}

type Handler = GenerationHandler<MockSampler, MockReasoning, MockToolCalling>;

fn sampled(token: u32) -> SamplingResult {
    SamplingResult {
        token,
        logprob: None,
        top_k_logprobs: None,
    }
}

fn handler_with(sampler: MockSampler) -> Handler {
    GenerationHandler {
        input_tokens: vec![],
        sampler,
        ongoing_gen_type: GenerationDataType::DirectContent,
        tokens_to_force: vec![],
        reasoning_supervisor: None,
        tool_calling_supervisor: None,
        tool_choice_template: None,
        eos_token_id: 4,
    }
}

fn name_chunk(id: &str, name: &str) -> ChunkToolCall {
    ChunkToolCall {
        index: 0,
        id: Some(id.to_string()),
        kind: Some("function".to_string()),
        function: ChunkFunctionCall {
            name: Some(name.to_string()),
            arguments: String::new(),
        },
    }
}

fn args_chunk(args: &str) -> ChunkToolCall {
    ChunkToolCall {
        index: 0,
        id: None,
        kind: None,
        function: ChunkFunctionCall {
            name: None,
            arguments: args.to_string(),
        },
    }
}

fn forced(tokens: Vec<u32>) -> GenerationEvent {
    GenerationEvent::ForceTokens { tokens }
}

#[test]
fn test_handler_init() {
    init_case(GenerationEvent::Nothing, GenerationEvent::Nothing, None, GenerationDataType::DirectContent, vec![]);
    init_case(GenerationEvent::Nothing, GenerationEvent::Nothing, Some(vec![21, 21]), GenerationDataType::DirectContent, vec![21, 21]);
    init_case(GenerationEvent::ReasoningStarted, GenerationEvent::Nothing, None, GenerationDataType::Reasoning, vec![]);
    init_case(GenerationEvent::ReasoningStopped, GenerationEvent::Nothing, None, GenerationDataType::DirectContent, vec![]);
    init_case(forced(vec![21, 21]), GenerationEvent::Nothing, None, GenerationDataType::DirectContent, vec![21, 21]);
    init_case(GenerationEvent::Nothing, GenerationEvent::ToolCallStarted, None, GenerationDataType::ToolCallName, vec![]);
    init_case(forced(vec![21, 21]), GenerationEvent::ToolCallStarted, None, GenerationDataType::ToolCallName, vec![21, 21]);
    init_case(GenerationEvent::Nothing, GenerationEvent::ToolCallStarted, Some(vec![21, 21]), GenerationDataType::ToolCallName, vec![]);
}

fn init_case(
    reasoning: GenerationEvent,
    tool_calling: GenerationEvent,
    tool_choice_template: Option<Vec<u32>>,
    expected_ongoing_gen_type: GenerationDataType,
    expected_tokens_to_force: Vec<u32>,
) {
    let handler: Handler = match GenerationHandler::new(
        &[1, 2, 3],
        MockSampler::new(),
        Some(MockReasoning {
            event: reasoning,
            count: 0,
        }),
        Some(MockToolCalling {
            event: Ok(tool_calling),
            calls: None,
        }),
        4,
        tool_choice_template,
    ) {
        Ok(handler) => handler,
        Err(message) => panic!("{}", message),
    };
    assert_eq!(handler.input_tokens, vec![1, 2, 3]);
    assert_eq!(handler.ongoing_gen_type, expected_ongoing_gen_type);
    assert_eq!(handler.tokens_to_force, expected_tokens_to_force);
}

#[test]
fn a_failing_supervisor_stops_the_start() {
    let handler: Result<Handler, String> = GenerationHandler::new(
        &[1],
        MockSampler::new(),
        None,
        Some(MockToolCalling {
            event: Err("broken".to_string()),
            calls: None,
        }),
        4,
        None,
    );
    assert!(matches!(handler, Err(message) if message == "broken"));
}

fn advance_case(
    tokens_to_force: Vec<u32>,
    ongoing_gen_type: GenerationDataType,
    reasoning: GenerationEvent,
    tool_calling: GenerationEvent,
    sample_output: SamplingResult,
    tool_choice_template: Option<Vec<u32>>,
    expected_times_sample_called: usize,
    expected_event: GenerationEvent,
    expected_ongoing_gen_type: GenerationDataType,
    expected_tokens_to_force: Vec<u32>,
) {
    let mut handler = GenerationHandler {
        input_tokens: vec![],
        sampler: MockSampler::answering(sample_output.clone()),
        ongoing_gen_type,
        tokens_to_force: tokens_to_force.clone(),
        reasoning_supervisor: Some(MockReasoning {
            event: reasoning,
            count: 0,
        }),
        tool_calling_supervisor: Some(MockToolCalling {
            event: Ok(tool_calling),
            calls: None,
        }),
        tool_choice_template,
        eos_token_id: 4,
    };
    let event = handler.advance(&vec![0, 0, 0], false, None).unwrap();
    assert_eq!(event, expected_event);
    assert_eq!(handler.sampler.asked.len(), expected_times_sample_called);
    assert_eq!(handler.ongoing_gen_type, expected_ongoing_gen_type);
    assert_eq!(handler.tokens_to_force, expected_tokens_to_force);
    if event != GenerationEvent::GenerationStopped {
        let next_token = tokens_to_force.get(0).unwrap_or(&sample_output.token);
        assert_eq!(handler.input_tokens, vec![*next_token]);
    }
}

#[test]
fn test_handler_advance() {
    let nothing = || GenerationEvent::Nothing;
    let content = |token: u32| GenerationEvent::ContentSampled {
        sampling_result: sampled(token),
    };
    let reasoned = |token: u32| GenerationEvent::ReasoningSampled {
        sampling_result: sampled(token),
    };
    let direct = GenerationDataType::DirectContent;
    let reasoning = GenerationDataType::Reasoning;
    let name = GenerationDataType::ToolCallName;
    let arguments = GenerationDataType::ToolCallArguments;
    advance_case(vec![], direct, nothing(), nothing(), sampled(55), None, 1, content(55), direct, vec![]);
    advance_case(vec![21, 21], direct, nothing(), nothing(), sampled(55), None, 0, content(21), direct, vec![21]);
    advance_case(vec![], direct, nothing(), nothing(), sampled(4), None, 1, GenerationEvent::GenerationStopped, direct, vec![]);
    advance_case(vec![], direct, GenerationEvent::ReasoningStarted, nothing(), sampled(55), None, 1, reasoned(55), reasoning, vec![]);
    advance_case(vec![], reasoning, GenerationEvent::ReasoningStopped, nothing(), sampled(55), None, 1, reasoned(55), direct, vec![]);
    advance_case(vec![], reasoning, forced(vec![21]), nothing(), sampled(55), None, 1, reasoned(55), reasoning, vec![21]);
    advance_case(vec![], direct, nothing(), GenerationEvent::ToolCallStarted, sampled(55), None, 1, GenerationEvent::ToolCallStarted, name, vec![]);
    advance_case(vec![], name, nothing(), GenerationEvent::ToolCallStopped { chunk: None }, sampled(55), None, 1, GenerationEvent::ToolCallStopped { chunk: None }, direct, vec![]);
    advance_case(
        vec![],
        name,
        nothing(),
        GenerationEvent::ToolCallStopped { chunk: Some(name_chunk("id", "name")) },
        sampled(55),
        None,
        1,
        GenerationEvent::ToolCallNameChunk { chunk: name_chunk("id", "name") },
        direct,
        vec![],
    );
    advance_case(
        vec![],
        arguments,
        nothing(),
        GenerationEvent::ToolCallStopped { chunk: Some(args_chunk("some arguments")) },
        sampled(55),
        None,
        1,
        GenerationEvent::ToolCallArgumentsChunk { chunk: args_chunk("some arguments") },
        direct,
        vec![],
    );
    advance_case(
        vec![],
        name,
        nothing(),
        GenerationEvent::ToolCallNameChunk { chunk: name_chunk("id", "name") },
        sampled(55),
        None,
        1,
        GenerationEvent::ToolCallNameChunk { chunk: name_chunk("id", "name") },
        arguments,
        vec![],
    );
    advance_case(
        vec![],
        arguments,
        nothing(),
        GenerationEvent::ToolCallArgumentsChunk { chunk: args_chunk("some arguments") },
        sampled(55),
        None,
        1,
        GenerationEvent::ToolCallArgumentsChunk { chunk: args_chunk("some arguments") },
        arguments,
        vec![],
    );
    advance_case(vec![], direct, nothing(), nothing(), sampled(55), Some(vec![1, 2, 3]), 1, content(55), direct, vec![1, 2, 3]);
    advance_case(vec![], name, nothing(), nothing(), sampled(55), None, 1, nothing(), name, vec![]);
}

#[test]
fn test_advance_with_no_supervisors() {
    let mut handler = handler_with(MockSampler::answering(sampled(55)));
    let event = handler.advance(&vec![0, 0, 0], false, None);
    assert!(event.is_ok());
    let event = event.unwrap();
    assert_eq!(
        event,
        GenerationEvent::ContentSampled {
            sampling_result: SamplingResult {
                token: 55,
                logprob: None,
                top_k_logprobs: None
            }
        }
    );
    assert_eq!(handler.ongoing_gen_type, GenerationDataType::DirectContent);
}

#[test]
fn test_advance_logprobs() {
    for (with_logprobs, top_k, expected) in
        [(false, None, None), (true, None, Some(0)), (true, Some(5), Some(5))]
    {
        let mut handler = handler_with(MockSampler::answering(sampled(55)));
        assert!(handler.advance(&vec![0, 0, 0], with_logprobs, top_k).is_ok());
        assert_eq!(handler.sampler.asked, vec![expected]);
    }
}

#[test]
fn a_failing_sampler_fails_the_step() {
    let mut handler = handler_with(MockSampler::new());
    assert_eq!(
        handler.advance(&vec![0], false, None),
        Err("nothing to sample".to_string())
    );
}

#[test]
fn forced_tokens_come_before_sampled_ones() {
    let mut handler = handler_with(MockSampler::answering(sampled(55)));
    handler.tokens_to_force = vec![7, 8];
    assert!(handler.advance(&vec![0], false, None).is_ok());
    assert!(handler.advance(&vec![0], false, None).is_ok());
    assert!(handler.advance(&vec![0], false, None).is_ok());
    assert_eq!(handler.sampler.asked, vec![None]);
    assert!(handler.sampler.noted.is_empty());
}

#[test]
fn test_soft_stop() {
    let mut handler = handler_with(MockSampler::new());
    handler.soft_stop();
    assert_eq!(handler.tokens_to_force, vec![4]);
    assert_eq!(
        handler.advance(&vec![0], false, None),
        Ok(GenerationEvent::GenerationStopped)
    );
}

#[test]
fn test_force_tool_choice() {
    let cases = vec![
        (GenerationDataType::DirectContent, None, vec![]),
        (GenerationDataType::Reasoning, Some(vec![1, 2, 3]), vec![]),
        (
            GenerationDataType::DirectContent,
            Some(vec![1, 2, 3]),
            vec![1, 2, 3],
        ),
    ];
    for (ongoing_gen_type, tool_choice_template, expected_tokens_to_force) in cases {
        let mut handler = handler_with(MockSampler::new());
        handler.ongoing_gen_type = ongoing_gen_type;
        handler.tool_choice_template = tool_choice_template;
        handler.force_tool_choice();
        assert_eq!(handler.tokens_to_force, expected_tokens_to_force);
    }
}

fn call(id: &str, name: &str, arguments: HashMap<String, Value>) -> ToolCall {
    ToolCall {
        id: String::from(id),
        kind: String::from("function"),
        function: FunctionDefinition {
            name: String::from(name),
            arguments,
        },
    }
}

#[test]
fn test_tool_calls() {
    let handler = handler_with(MockSampler::new());
    assert_eq!(handler.tool_calls(), None);
    let mut handler = handler_with(MockSampler::new());
    let calls = Some(vec![call("id", "name", HashMap::new())]);
    handler.tool_calling_supervisor = Some(MockToolCalling {
        event: Ok(GenerationEvent::Nothing),
        calls: calls.clone(),
    });
    assert_eq!(handler.tool_calls(), calls);
}

#[test]
fn test_handler_reasoning_tokens_count() {
    let mut handler = handler_with(MockSampler::new());
    assert_eq!(handler.reasoning_tokens_count(), 0);
    handler.reasoning_supervisor = Some(MockReasoning {
        event: GenerationEvent::Nothing,
        count: 4,
    });
    assert_eq!(handler.reasoning_tokens_count(), 4);
}

#[test]
fn test_reasoning_supervisor_init() {
    let config = |start: Option<u32>, end: Option<u32>| PostSamplingConfig {
        reasoning_start_token_id: start,
        reasoning_end_token_id: end,
        ..Default::default()
    };
    let supervisor = |budget: u32| {
        Some(ReasoningSupervisor {
            reasoning_budget: budget,
            reasoning_tokens: 0,
            reasoning_start_token_id: 1,
            reasoning_end_token_id: 2,
        })
    };
    let none = PostSamplingConfig::default();
    let both = config(Some(1), Some(2));
    assert_eq!(ReasoningSupervisor::new(false, &ReasoningEffort::Off, &none), None);
    assert_eq!(ReasoningSupervisor::new(true, &ReasoningEffort::Off, &none), None);
    assert_eq!(
        ReasoningSupervisor::new(true, &ReasoningEffort::Low, &config(None, Some(2))),
        None
    );
    assert_eq!(
        ReasoningSupervisor::new(true, &ReasoningEffort::Low, &config(Some(1), None)),
        None
    );
    assert_eq!(
        ReasoningSupervisor::new(true, &ReasoningEffort::Low, &both),
        supervisor(LOW_REASONING_BUDGET)
    );
    assert_eq!(
        ReasoningSupervisor::new(true, &ReasoningEffort::Medium, &both),
        supervisor(MEDIUM_REASONING_BUDGET)
    );
    assert_eq!(
        ReasoningSupervisor::new(true, &ReasoningEffort::High, &both),
        supervisor(HIGH_REASONING_BUDGET)
    );
    assert_eq!(ReasoningSupervisor::new(false, &ReasoningEffort::High, &both), None);
}

fn plain_supervisor() -> ReasoningSupervisor {
    ReasoningSupervisor {
        reasoning_start_token_id: 1,
        reasoning_end_token_id: 2,
        ..Default::default()
    }
}

#[test]
fn test_detect_reasoning_start() {
    assert!(!plain_supervisor().detect_reasoning_start(&[]));
    assert!(plain_supervisor().detect_reasoning_start(&[1]));
    assert!(plain_supervisor().detect_reasoning_start(&[3, 2, 3, 4, 1]));
}

#[test]
fn test_detect_reasoning_end() {
    assert!(!plain_supervisor().detect_reasoning_end(&[]));
    assert!(plain_supervisor().detect_reasoning_end(&[2]));
    assert!(plain_supervisor().detect_reasoning_end(&[3, 2, 3, 4, 2]));
}

#[test]
fn test_reasoning_budget_exceeded() {
    let cases = [
        (0, 0, true),
        (0, 1, false),
        (1, 0, true),
        (1, 1, false),
        (1, 2, false),
        (2, 0, true),
        (2, 1, true),
        (2, 2, false),
    ];
    for (reasoning_tokens, reasoning_budget, expected) in cases {
        let supervisor = ReasoningSupervisor {
            reasoning_budget,
            reasoning_tokens,
            ..Default::default()
        };
        assert_eq!(supervisor.reasoning_budget_exceeded(), expected);
    }
}

#[test]
fn test_reasoning_tokens_count() {
    for (reasoning_tokens, expected) in [(0, 0), (1, 0), (2, 1), (3, 2)] {
        let supervisor = ReasoningSupervisor {
            reasoning_tokens,
            ..Default::default()
        };
        assert_eq!(supervisor.reasoning_tokens_count(), expected);
    }
}

#[test]
fn test_reasoning_advance() {
    let cases = vec![
        (vec![1], GenerationDataType::DirectContent, 5, 0, GenerationEvent::ReasoningStarted),
        (vec![2], GenerationDataType::Reasoning, 0, 1, GenerationEvent::ReasoningStopped),
        (vec![3], GenerationDataType::Reasoning, 3, 3, forced(vec![2])),
        (vec![4, 5, 6], GenerationDataType::Reasoning, 5, 0, GenerationEvent::Nothing),
        (vec![7, 8, 9], GenerationDataType::DirectContent, 0, 0, GenerationEvent::Nothing),
    ];
    for (token_ids, ongoing_gen_type, reasoning_budget, reasoning_tokens, expected) in cases {
        let mut supervisor = ReasoningSupervisor {
            reasoning_start_token_id: 1,
            reasoning_end_token_id: 2,
            reasoning_budget,
            reasoning_tokens,
        };
        assert_eq!(supervisor.advance(&token_ids, &ongoing_gen_type), expected);
    }
}

#[test]
fn test_stop_pattern_init() {
    for pattern in [vec![], vec![1], vec![1, 2], vec![1, 2, 3]] {
        let _ = StopPattern::new(pattern);
    }
}

#[test]
fn test_stop_pattern_advance_and_match() {
    let cases: Vec<(Vec<u32>, Vec<u32>, Vec<usize>)> = vec![
        (vec![], vec![], vec![]),
        (vec![1], vec![], vec![]),
        (vec![], vec![1], vec![]),
        (vec![1], vec![1], vec![0]),
        (vec![1, 2, 3], vec![1, 2, 3], vec![2]),
        (vec![1, 2], vec![1, 2], vec![1]),
        (vec![1, 2], vec![1, 1, 1, 2], vec![3]),
        (vec![1, 2, 3], vec![1, 2, 6, 1, 2, 3], vec![5]),
        (vec![1, 1, 1], vec![1, 1, 1, 1], vec![2]),
        (vec![1, 2, 3], vec![1, 2, 3, 1, 2, 3], vec![2, 5]),
        (vec![1, 2, 1, 3], vec![1, 2, 1, 2, 1, 3], vec![5]),
    ];
    for (pattern, tokens, expected) in cases {
        let mut stop_pattern = StopPattern::new(pattern);
        let mut matched_positions = Vec::new();
        for (i, t) in tokens.iter().enumerate() {
            if stop_pattern.advance_and_match(*t) {
                matched_positions.push(i);
            }
        }
        assert_eq!(matched_positions, expected);
    }
}

#[test]
fn test_stop_pattern_matcher() {
    let cases: Vec<(Vec<&str>, Vec<u32>, Vec<u32>, bool)> = vec![
        (vec![], vec![], vec![], false),
        (vec!["hello"], vec![1], vec![1], true),
        (vec!["hello", "world"], vec![1, 2], vec![1, 2], true),
        (vec!["hello"], vec![1], vec![1, 2], true),
        (vec!["hello", "world"], vec![1, 2], vec![1], false),
        (vec!["hello", "world"], vec![1, 2, 3], vec![1, 2], false),
        (vec!["hello", "world"], vec![1, 2], vec![1, 2, 3], true),
    ];
    for (patterns, encode_result, tokens, expected_matched) in cases {
        let tokenizer = MockTokenizer::encoding(encode_result);
        let patterns = patterns.iter().map(|text| text.to_string()).collect();
        let mut matcher = StopPatternMatcher::new(Some(patterns), &tokenizer);
        let mut matched = false;
        for token in tokens {
            matched = matcher.matches(token);
            if matched {
                break;
            }
        }
        assert_eq!(matched, expected_matched);
    }
    let mut silent = StopPatternMatcher::new(None, &MockTokenizer::encoding(vec![1]));
    assert!(!silent.matches(1));
}

#[test]
fn test_xml_arg_pairs_formatter_format_args() {
    let cases: Vec<(Vec<u32>, &str)> = vec![
        (vec![], r#""#),
        (vec![19], r#"{"BYPASSED"#),
        (vec![19, 2, 3, 19, 4], r#"{"BYPASSED": "BYPASSED""#),
        (
            vec![19, 2, 3, 19, 4, 1, 19, 19, 2, 3, 19, 19, 4],
            r#"{"BYPASSED": "BYPASSED", "BYPASSEDBYPASSED": "BYPASSEDBYPASSED""#,
        ),
    ];
    for (token_ids, expected) in cases {
        let mut formatter = XmlArgPairsFormatter::new(1, 2, 3, 4).unwrap();
        let mut decoded_buffer = String::new();
        let mut stream_ctx = StreamContext::with_capacity(10);
        let tokenizer = MockTokenizer::decoding(Some("BYPASSED"));
        let _ = formatter.format_args(&token_ids, &mut decoded_buffer, &tokenizer, &mut stream_ctx);
        formatter.fix_json(&mut decoded_buffer, true);
        assert_eq!(decoded_buffer, expected);
    }
}

#[test]
fn test_xml_arg_pairs_formatter_fix_json() {
    let cases = [
        (true, "", ""),
        (false, "BYPASSED", "BYPASSED"),
        (true, "BYPASSED", r#"{"BYPASSED"#),
    ];
    for (first_chunk, decoded_buffer, expected) in cases {
        let mut formatter = XmlArgPairsFormatter::new(1, 2, 3, 4).unwrap();
        let mut decoded_buffer = decoded_buffer.to_string();
        formatter.fix_json(&mut decoded_buffer, first_chunk);
        assert_eq!(decoded_buffer, expected);
    }
}

#[test]
fn test_xml_arg_pairs_formatter_build_tool_call_template() {
    let cases: Vec<(Option<&str>, Vec<u32>, Vec<u32>)> = vec![
        (None, vec![19], vec![9]),
        (Some("Name"), vec![19], vec![9, 19]),
        (Some("Name"), vec![19, 2, 3, 19, 4], vec![9, 19, 2, 3, 19, 4]),
    ];
    for (tool_name, encoded, expected) in cases {
        let formatter = XmlArgPairsFormatter::new(1, 2, 3, 4).unwrap();
        let tokenizer = MockTokenizer::encoding(encoded);
        let result = formatter.build_tool_call_template(&9, tool_name, &tokenizer);
        assert_eq!(result, Ok(expected));
    }
}

#[test]
fn test_enclosed_json_formatter_try_strip_name_prefix() {
    let cases = [
        (r#"{"name": ""#, "", true),
        (r#"{"name": "name"#, "name", true),
        (r#"prefix{"name": ""#, "", true),
        (r#"wdewdwe"#, "wdewdwe", false),
        (r#"prefix{"name": "name"#, "name", true),
    ];
    for (decoded_buffer, decoded_buffer_expected, expected) in cases {
        let formatter = EnclosedJsonFormatter::new().unwrap();
        let mut decoded_buffer = decoded_buffer.to_string();
        assert_eq!(formatter.try_strip_name_prefix(&mut decoded_buffer), expected);
        assert_eq!(decoded_buffer, decoded_buffer_expected);
    }
}

#[test]
fn test_enclosed_json_formatter_try_extract_function_name() {
    let cases = [
        (r#"na"#, Some(r#"me""#), "", Some("name")),
        (r#"name"#, None, r#"name"#, None),
        (r#"name"#, Some(r#"""#), "", Some("name")),
        (r#"name"#, Some(r#""arg"#), "arg", Some("name")),
        (r#"na"#, Some(r#"me"#), "name", None),
    ];
    for (decoded_buffer, decoded_tokens, decoded_buffer_expected, expected_name) in cases {
        let formatter = EnclosedJsonFormatter::new().unwrap();
        let mut decoded_buffer = decoded_buffer.to_string();
        let tokenizer = MockTokenizer::decoding(decoded_tokens);
        let result = formatter.try_extract_function_name(
            &[1, 2, 3],
            &mut decoded_buffer,
            &tokenizer,
            &mut StreamContext::with_capacity(10),
        );
        assert_eq!(result, Ok(expected_name.map(|name| name.to_string())));
        assert_eq!(decoded_buffer, decoded_buffer_expected);
    }
}

#[test]
fn test_enclosed_json_formatter_try_strip_arguments_prefix() {
    let cases = [
        (r#""arguments":"#, "", true),
        (r#""arguments":suffix"#, "suffix", true),
        (r#""#, "", false),
        (r#"wdewdwe"#, "wdewdwe", false),
        (r#"prefix"arguments":suffix"#, "suffix", true),
    ];
    for (decoded_buffer, decoded_buffer_expected, expected) in cases {
        let formatter = EnclosedJsonFormatter::new().unwrap();
        let mut decoded_buffer = decoded_buffer.to_string();
        assert_eq!(formatter.try_strip_arguments_prefix(&mut decoded_buffer), expected);
        assert_eq!(decoded_buffer, decoded_buffer_expected);
    }
}

#[test]
fn test_enclosed_json_formatter_fix_json() {
    let cases = [
        (r#""#, r#""#),
        (r#"}}"#, r#""#),
        (r#"{}}"#, r#"{}"#),
        (r#"{}"}""#, r#"{}"}""#),
        (r#"]{}}"#, r#"{}"#),
    ];
    for (decoded_buffer, expected) in cases {
        let mut formatter = EnclosedJsonFormatter::new().unwrap();
        let mut decoded_buffer = decoded_buffer.to_string();
        formatter.fix_json(&mut decoded_buffer, false);
        assert_eq!(decoded_buffer, expected);
    }
}

#[test]
fn pieces_are_repaired_like_the_whole() {
    let whole = r#"{"a": "}\"]", "b": [1]}}}"#;
    for cut in 0..whole.len() {
        let mut at_once = EnclosedJsonFormatter::new().unwrap();
        let mut text = whole.to_string();
        at_once.fix_json(&mut text, true);
        let mut in_pieces = EnclosedJsonFormatter::new().unwrap();
        let mut first = whole[..cut].to_string();
        let mut second = whole[cut..].to_string();
        in_pieces.fix_json(&mut first, true);
        in_pieces.fix_json(&mut second, false);
        assert_eq!(format!("{}{}", first, second), text);
        assert_eq!(in_pieces, at_once);
        let mut again = EnclosedJsonFormatter::new().unwrap();
        let mut repaired = text.clone();
        again.fix_json(&mut repaired, true);
        assert_eq!(repaired, text);
    }
}

#[test]
fn test_enclosed_json_formatter_reset() {
    let mut formatter = EnclosedJsonFormatter::new().unwrap();
    formatter.in_string = true;
    formatter.is_escaping = true;
    formatter.bracket_depth = 1;
    formatter.reset();
    assert!(!formatter.in_string);
    assert!(!formatter.is_escaping);
    assert_eq!(formatter.bracket_depth, 0);
}

#[test]
fn test_python_call_formatter_fix_json() {
    let cases = [
        (r#""#, r#""#, false),
        (r#"some"#, r#"{"some"#, true),
        (r#""}some"#, r#""}some"#, false),
        (r#"())"#, r#"()}"#, false),
        (r#"]some"#, r#"}"#, false),
        (r#"arg="value")"#, r#"{"arg": "value"}"#, true),
        (
            r#"arg1="value1", arg2="value2")"#,
            r#"{"arg1": "value1", "arg2": "value2"}"#,
            true,
        ),
    ];
    for (decoded_buffer, expected, first_chunk) in cases {
        let mut formatter = PythonCallFormatter::new().unwrap();
        let mut decoded_buffer = decoded_buffer.to_string();
        formatter.fix_json(&mut decoded_buffer, first_chunk);
        assert_eq!(decoded_buffer, expected);
    }
}

#[test]
fn test_python_call_formatter_try_extract_function_name() {
    let cases = [
        (r#"na"#, Some(r#"me("#), "", Some("name")),
        (r#"name"#, None, r#"name"#, None),
        (r#"name"#, Some(r#"("#), "", Some("name")),
        (r#"name"#, Some(r#"(arg"#), "arg", Some("name")),
        (r#"na"#, Some(r#"me"#), "name", None),
        (r#"."#, Some(r#",("#), ".,", None),
    ];
    for (decoded_buffer, decoded_tokens, decoded_buffer_expected, expected_name) in cases {
        let formatter = PythonCallFormatter::new().unwrap();
        let mut decoded_buffer = decoded_buffer.to_string();
        let tokenizer = MockTokenizer::decoding(decoded_tokens);
        let result = formatter.try_extract_function_name(
            &[1, 2, 3],
            &mut decoded_buffer,
            &tokenizer,
            &mut StreamContext::with_capacity(10),
        );
        assert_eq!(result, Ok(expected_name.map(|name| name.to_string())));
        assert_eq!(decoded_buffer, decoded_buffer_expected);
    }
}

#[test]
fn test_python_call_formatter_try_strip_arguments_prefix() {
    let cases = [
        (r#"("#, "", false),
        (r#"some"#, "some", true),
        (r#"some("#, "some", true),
        (r#""#, "", false),
        (r#"some_some"#, "some_some", true),
    ];
    for (decoded_buffer, decoded_buffer_expected, expected) in cases {
        let formatter = PythonCallFormatter::new().unwrap();
        let mut decoded_buffer = decoded_buffer.to_string();
        assert_eq!(formatter.try_strip_arguments_prefix(&mut decoded_buffer), expected);
        assert_eq!(decoded_buffer, decoded_buffer_expected);
    }
}

#[test]
fn test_tool_arg_formatter_build() {
    let config = |style: ToolFormatStyle, key_open: Option<u32>| PostSamplingConfig {
        tool_call_format_style: style,
        arg_key_open_token_id: key_open,
        arg_key_close_token_id: Some(2),
        arg_value_open_token_id: Some(3),
        arg_value_close_token_id: Some(4),
        ..Default::default()
    };
    let built = |config: &PostSamplingConfig| ToolArgFormatterBuilder::new(config).build();
    assert!(matches!(
        built(&config(ToolFormatStyle::XmlArgPairs, Some(1))),
        Ok(ToolFormatter::Xml(_))
    ));
    assert!(matches!(
        built(&config(ToolFormatStyle::EnclosedJson, None)),
        Ok(ToolFormatter::Json(_))
    ));
    assert!(matches!(
        built(&config(ToolFormatStyle::PythonCall, None)),
        Ok(ToolFormatter::Python(_))
    ));
    match built(&config(ToolFormatStyle::XmlArgPairs, None)) {
        Ok(_) => panic!("a formatter without its tokens"),
        Err(message) => {
            assert!(message.contains("Missing arg_key_open_token_id for XmlArgPairsFormatter"));
        }
    }
}

#[test]
fn test_python_call_formatter_reset() {
    let mut formatter = PythonCallFormatter::new().unwrap();
    formatter.in_string = true;
    formatter.is_escaping = true;
    formatter.bracket_depth = 1;
    formatter.reset();
    assert!(!formatter.in_string);
    assert!(!formatter.is_escaping);
    assert_eq!(formatter.bracket_depth, 0);
}

/// A formatter with fixed answers that leaves all text as it is.
struct MockFormatter {
    name_prefix: bool,
    name: Option<String>,
    arguments_prefix: bool,
    resets: usize,
}

impl ToolArgFormatter for MockFormatter {
    fn build_tool_call_template<T: Tokenizer>(
        &self,
        tool_call_start_token_id: &u32,
        tool_name: Option<&str>,
        tokenizer: &T,
    ) -> Result<Vec<u32>, String> {
        let mut ids = vec![*tool_call_start_token_id];
        if let Some(name) = tool_name {
            ids.extend(tokenizer.encode(name, false)?);
        }
        Ok(ids)
    }

    fn try_strip_name_prefix(&self, _decoded_buffer: &mut String) -> bool {
        self.name_prefix
    }

    fn try_extract_function_name<T: Tokenizer>(
        &self,
        _token_ids: &[u32],
        _decoded_buffer: &mut String,
        _tokenizer: &T,
        _stream_ctx: &mut StreamContext,
    ) -> Result<Option<String>, String> {
        Ok(self.name.clone())
    }

    fn try_strip_arguments_prefix(&self, _decoded_buffer: &mut String) -> bool {
        self.arguments_prefix
    }

    fn fix_json(&mut self, _decoded_buffer: &mut String, _first_chunk: bool) {}

    fn format_args<T: Tokenizer>(
        &mut self,
        _token_ids: &[u32],
        _decoded_buffer: &mut String,
        _tokenizer: &T,
        _stream_ctx: &mut StreamContext,
    ) -> Result<(), String> {
        Ok(())
    }

    fn reset(&mut self) {
        self.resets += 1;
    }
}

fn mock_formatter(name_prefix: bool, name: Option<&str>, arguments_prefix: bool) -> MockFormatter {
    MockFormatter {
        name_prefix,
        name: name.map(|text| text.to_string()),
        arguments_prefix,
        resets: 0,
    }
}

fn make_context<F: ToolArgFormatter>(
    tokenizer: &MockTokenizer,
    formatter: F,
) -> ToolCallingSupervisorContext<'_, F, MockTokenizer> {
    ToolCallingSupervisorContext {
        formatter,
        tokenizer,
        stream_ctx: StreamContext::with_capacity(16),
        tool_call_start_token_id: 1,
        tool_call_end_token_id: 2,
        tool_calls: Vec::new(),
        current_tool_id: String::new(),
        current_tool_name: String::new(),
        current_tool_arguments: String::new(),
        current_ids_buffer: Vec::with_capacity(50),
        decoded_scratchpad: String::with_capacity(50),
        stream_args_pos: 0,
    }
}

#[test]
fn test_state_machine_transition() {
    let output = Some("output");
    let tool = Some("some_tool");
    let cases = vec![
        (StateEnum::Idle, output, false, None, false, StateEnum::NamePrefix),
        (StateEnum::NamePrefix, output, true, None, false, StateEnum::NameContent),
        (StateEnum::NamePrefix, output, true, tool, false, StateEnum::ArgumentsPrefix),
        (StateEnum::NamePrefix, output, false, None, false, StateEnum::NamePrefix),
        (StateEnum::NamePrefix, None, true, None, false, StateEnum::NamePrefix),
        (StateEnum::NameContent, output, false, tool, false, StateEnum::ArgumentsPrefix),
        (StateEnum::NameContent, output, false, None, false, StateEnum::NameContent),
        (StateEnum::NameContent, None, false, tool, false, StateEnum::ArgumentsPrefix),
        (StateEnum::NameContent, None, false, None, false, StateEnum::NameContent),
        (StateEnum::ArgumentsPrefix, output, false, None, true, StateEnum::ArgumentsContent),
        (StateEnum::ArgumentsPrefix, output, false, None, false, StateEnum::ArgumentsPrefix),
        (StateEnum::ArgumentsPrefix, None, false, None, true, StateEnum::ArgumentsPrefix),
        (StateEnum::ArgumentsContent, output, false, None, true, StateEnum::ArgumentsContent),
        (StateEnum::ArgumentsContent, None, true, None, true, StateEnum::ArgumentsContent),
    ];
    for (state, piece, name_prefix, name, arguments_prefix, next_state) in cases {
        let tokenizer = MockTokenizer::decoding(piece);
        let mut context =
            make_context(&tokenizer, mock_formatter(name_prefix, name, arguments_prefix));
        assert_eq!(state.next_state(&mut context), Ok(next_state));
    }
}

fn idle<'a>(
    context: ToolCallingSupervisorContext<'a, MockFormatter, MockTokenizer>,
) -> ToolCallingSupervisor<'a, MockFormatter, MockTokenizer> {
    ToolCallingSupervisor {
        context,
        tool_call_parsing_state: StateEnum::Idle,
    }
}

#[test]
fn test_detect_tool_call_start() {
    let cases = vec![
        (vec![3, 2, 1], true),
        (vec![1, 2, 3], false),
        (vec![2, 3], false),
        (vec![1], true),
        (vec![], false),
    ];
    for (token_ids, expected) in cases {
        let tokenizer = MockTokenizer::new();
        let supervisor = idle(make_context(&tokenizer, mock_formatter(false, None, false)));
        assert_eq!(supervisor.detect_tool_call_start(&token_ids), expected);
    }
}

#[test]
fn test_detect_tool_call_end() {
    let cases = vec![
        (vec![1, 2], true),
        (vec![1, 2, 3], false),
        (vec![1, 3], false),
        (vec![2], true),
        (vec![], false),
    ];
    for (token_ids, expected) in cases {
        let tokenizer = MockTokenizer::new();
        let mut context = make_context(&tokenizer, mock_formatter(false, None, false));
        context.tool_call_start_token_id = 2;
        context.current_ids_buffer = token_ids;
        assert_eq!(idle(context).detect_tool_call_end(), expected);
    }
}

fn supervise_case(
    state: StateEnum,
    token_ids: Vec<u32>,
    formatter: MockFormatter,
    piece: Option<&str>,
    ongoing_gen_type: GenerationDataType,
    expected: &str,
    expected_reset: bool,
) {
    let tokenizer = MockTokenizer::decoding(piece);
    let mut supervisor = ToolCallingSupervisor {
        context: make_context(&tokenizer, formatter),
        tool_call_parsing_state: state,
    };
    let result = supervisor.advance(&token_ids, &ongoing_gen_type).unwrap();
    assert_eq!(supervisor.context.formatter.resets, if expected_reset { 1 } else { 0 });
    match result {
        GenerationEvent::Nothing => assert_eq!(expected, "nothing"),
        GenerationEvent::ToolCallStarted => assert_eq!(expected, "started"),
        GenerationEvent::ToolCallNameChunk { chunk } => {
            assert_eq!(expected, "name");
            assert!(!supervisor.context.current_tool_name.is_empty());
            assert!(!supervisor.context.current_tool_id.is_empty());
            assert_eq!(chunk.index, 0);
            assert_eq!(chunk.kind, Some("function".to_string()));
            assert_eq!(chunk.function.arguments, String::new());
            assert_eq!(chunk.id, Some(supervisor.context.current_tool_id));
            assert_eq!(chunk.function.name, Some(supervisor.context.current_tool_name));
        }
        GenerationEvent::ToolCallArgumentsChunk { chunk } => {
            assert_eq!(expected, "arguments");
            assert!(!supervisor.context.current_tool_arguments.is_empty());
            assert_eq!(chunk.index, 0);
            assert!(chunk.kind.is_none());
            assert!(chunk.function.name.is_none());
            assert!(!chunk.function.arguments.is_empty());
        }
        GenerationEvent::ToolCallStopped { chunk } => {
            assert_eq!(expected, "stopped");
            assert!(supervisor.context.current_tool_name.is_empty());
            assert!(supervisor.context.current_tool_id.is_empty());
            match ongoing_gen_type {
                GenerationDataType::ToolCallName => {
                    let chunk = chunk.unwrap();
                    assert_eq!(chunk.index, 0);
                    assert_eq!(chunk.kind, Some("function".to_string()));
                    assert_eq!(chunk.function.arguments, String::new());
                    let last_tool_call = supervisor.context.tool_calls.last().unwrap();
                    assert_eq!(chunk.id, Some(last_tool_call.id.clone()));
                    assert_eq!(chunk.function.name, Some(last_tool_call.function.name.clone()));
                }
                GenerationDataType::ToolCallArguments => {
                    assert!(supervisor.context.current_tool_arguments.is_empty());
                    if let Some(chunk) = chunk {
                        assert_eq!(chunk.index, 0);
                        assert!(chunk.kind.is_none());
                        assert!(chunk.function.name.is_none());
                        assert!(!chunk.function.arguments.is_empty());
                    }
                }
                _ => (),
            }
        }
        other => panic!("unexpected event {:?}", other),
    }
}

#[test]
fn test_supervisor_advance() {
    let foo = Some("foo");
    let direct = GenerationDataType::DirectContent;
    let name = GenerationDataType::ToolCallName;
    let arguments = GenerationDataType::ToolCallArguments;
    let long = vec![3, 222, 111];
    let ended = vec![3, 222, 2];
    supervise_case(StateEnum::Idle, vec![], mock_formatter(true, None, true), None, direct, "nothing", false);
    supervise_case(StateEnum::Idle, vec![3, 2], mock_formatter(false, None, false), None, direct, "nothing", false);
    supervise_case(StateEnum::Idle, vec![3, 2, 1], mock_formatter(false, None, false), None, direct, "started", false);
    supervise_case(StateEnum::NameContent, long.clone(), mock_formatter(false, foo, false), foo, name, "name", false);
    supervise_case(StateEnum::Idle, long.clone(), mock_formatter(true, foo, false), foo, name, "name", false);
    supervise_case(StateEnum::ArgumentsContent, long.clone(), mock_formatter(false, foo, false), foo, arguments, "nothing", false);
    supervise_case(StateEnum::ArgumentsPrefix, long.clone(), mock_formatter(false, foo, true), foo, arguments, "arguments", false);
    supervise_case(StateEnum::ArgumentsPrefix, long.clone(), mock_formatter(false, foo, false), foo, arguments, "nothing", false);
    supervise_case(StateEnum::NamePrefix, ended.clone(), mock_formatter(true, foo, false), foo, name, "stopped", true);
    supervise_case(StateEnum::ArgumentsPrefix, ended.clone(), mock_formatter(true, foo, true), foo, arguments, "stopped", true);
    supervise_case(StateEnum::ArgumentsPrefix, ended.clone(), mock_formatter(true, foo, true), None, arguments, "stopped", true);
}

fn one_argument() -> HashMap<String, Value> {
    let mut arguments = HashMap::new();
    arguments.insert("arg".to_string(), Value::String("value".to_string()));
    arguments
}

#[test]
fn test_finalize_tool_call() {
    let name = GenerationDataType::ToolCallName;
    let direct = GenerationDataType::DirectContent;
    let arguments = GenerationDataType::ToolCallArguments;
    let full = r#"{"arg": "value"}"#;
    let open = r#"{"arg": "value""#;
    let cases = vec![
        (name, "", "", "", Some("foo"), true, Some(HashMap::new())),
        (direct, "", "", "", None, false, None),
        (arguments, "foo", "foo", full, Some("foo"), true, Some(one_argument())),
        (arguments, "foo", "foo", open, Some("foo"), true, Some(one_argument())),
        (name, "foo", "foo", "", Some("foo"), true, Some(HashMap::new())),
    ];
    for (ongoing, tool_name, tool_id, tool_arguments, piece, has_chunk, expected) in cases {
        let tokenizer = MockTokenizer::decoding(piece);
        let mut context = make_context(&tokenizer, mock_formatter(true, None, true));
        context.current_tool_name = tool_name.to_string();
        context.current_tool_id = tool_id.to_string();
        context.current_tool_arguments = tool_arguments.to_string();
        context.current_ids_buffer = vec![1, 2, 3];
        let mut supervisor = idle(context);
        let result = supervisor.finalize_tool_call(&ongoing).unwrap();
        assert_eq!(result.is_some(), has_chunk);
        assert_eq!(supervisor.context.tool_calls.len(), 1);
        let last_tool_call = supervisor.context.tool_calls.last().unwrap();
        match expected {
            Some(expected) => {
                assert!(!last_tool_call.id.is_empty());
                assert_eq!(last_tool_call.function.name, "foo");
                assert_eq!(last_tool_call.function.arguments, expected);
            }
            None => assert!(last_tool_call.id.is_empty()),
        }
    }

    let tokenizer = MockTokenizer::decoding(Some("foo"));
    let mut context = make_context(&tokenizer, mock_formatter(true, None, true));
    context.current_tool_name = "foo".to_string();
    context.current_tool_id = "foo".to_string();
    context.current_tool_arguments = "foo".to_string();
    context.current_ids_buffer = vec![1, 2, 3];
    let message = idle(context)
        .finalize_tool_call(&arguments)
        .expect_err("arguments that are no object");
    assert!(message.contains("Failed to parse model tool arguments into JSON"));
}

#[test]
fn test_emit_initial_tool_call_chunk() {
    for tool_id in ["", "foo"] {
        let tokenizer = MockTokenizer::new();
        let mut context = make_context(&tokenizer, mock_formatter(true, None, true));
        context.current_tool_name = "name".to_string();
        context.current_tool_id = tool_id.to_string();
        let result = idle(context).emit_initial_tool_call_chunk();
        assert!(result.id.is_some());
        assert_eq!(result.index, 0);
        assert_eq!(result.kind, Some("function".to_string()));
        assert_eq!(result.function.name, Some("name".to_string()));
        assert!(result.function.arguments.is_empty());
        if !tool_id.is_empty() {
            assert_eq!(result.id, Some(tool_id.to_string()));
        }
    }
}

#[test]
fn new_call_ids_differ() {
    let tokenizer = MockTokenizer::new();
    let mut seen = vec![];
    for _ in 0..3 {
        let context = make_context(&tokenizer, mock_formatter(true, None, true));
        let id = idle(context).emit_initial_tool_call_chunk().id.unwrap();
        assert!(!id.is_empty());
        assert!(!seen.contains(&id));
        seen.push(id);
    }
}

#[test]
fn test_emit_arg_tool_call_chunk() {
    let cases = [("foo", 0, Some("foo")), ("foo", 1, Some("oo")), ("", 0, None), ("foo", 4, None)];
    for (tool_args, stream_args_pos, expected) in cases {
        let tokenizer = MockTokenizer::new();
        let mut context = make_context(&tokenizer, mock_formatter(true, None, true));
        context.current_tool_arguments = tool_args.to_string();
        context.stream_args_pos = stream_args_pos;
        match (idle(context).emit_arg_tool_call_chunk(), expected) {
            (Some(chunk), Some(expected)) => {
                assert_eq!(chunk.index, 0);
                assert!(chunk.id.is_none());
                assert!(chunk.kind.is_none());
                assert!(chunk.function.name.is_none());
                assert_eq!(chunk.function.arguments, expected);
            }
            (None, None) => (),
            (chunk, _) => panic!("unexpected piece {:?}", chunk),
        }
    }
}

#[test]
fn arguments_are_handed_out_by_bytes() {
    let tokenizer = MockTokenizer::new();
    let mut context = make_context(&tokenizer, mock_formatter(true, None, true));
    context.current_tool_arguments = "\u{e9}a".to_string();
    context.stream_args_pos = 2;
    let mut supervisor = idle(context);
    let chunk = supervisor.emit_arg_tool_call_chunk().expect("a piece");
    assert_eq!(chunk.function.arguments, "a");
    assert_eq!(supervisor.context.stream_args_pos, 3);
    assert!(supervisor.emit_arg_tool_call_chunk().is_none());
}

#[test]
fn test_reset() {
    let tokenizer = MockTokenizer::new();
    let mut context = make_context(&tokenizer, mock_formatter(false, None, false));
    context.current_ids_buffer = vec![1, 2, 3];
    context.current_tool_name = "foo".to_string();
    context.current_tool_id = "bar".to_string();
    context.current_tool_arguments = "baz".to_string();
    context.stream_args_pos = 1;
    context.stream_ctx = StreamContext {
        ids: vec![4, 5, 6],
        prefix: "prefix".to_string(),
        prefix_index: 1,
    };
    let mut supervisor = ToolCallingSupervisor {
        context,
        tool_call_parsing_state: StateEnum::ArgumentsContent,
    };
    supervisor.reset();
    assert_eq!(supervisor.context.formatter.resets, 1);
    assert!(supervisor.context.current_ids_buffer.is_empty());
    assert!(supervisor.context.current_tool_name.is_empty());
    assert!(supervisor.context.current_tool_id.is_empty());
    assert!(supervisor.context.current_tool_arguments.is_empty());
    assert_eq!(supervisor.context.stream_args_pos, 0);
    assert_eq!(supervisor.tool_call_parsing_state, StateEnum::Idle);
    assert!(supervisor.context.stream_ctx.ids.is_empty());
    assert!(supervisor.context.stream_ctx.prefix.is_empty());
    assert_eq!(supervisor.context.stream_ctx.prefix_index, 0);
}

#[test]
fn test_set_tool_name() {
    for name in ["", "get_weather", "\"name\" (", "a b", "größe-9", "x\u{1F600}y", "_\n_"] {
        let tokenizer = MockTokenizer::new();
        let mut context = make_context(&tokenizer, mock_formatter(false, None, false));
        context.set_tool_name(name.to_string());
        let clean = context.current_tool_name.clone();
        for c in clean.chars() {
            assert!(c.is_alphanumeric() || c == '_');
        }
        assert!(clean.len() <= name.len());
        context.set_tool_name(clean.clone());
        assert_eq!(context.current_tool_name, clean);
    }
}

#[test]
fn templates_of_the_tool_choices() {
    let tokenizer = MockTokenizer::encoding(vec![8, 9]);
    let supervisor = idle(make_context(&tokenizer, mock_formatter(false, None, false)));
    let template = |choice: &ToolChoice| supervisor.get_tool_choice_template(&tokenizer, choice);
    assert_eq!(template(&ToolChoice::Mode(ToolChoiceMode::Auto)), Ok(None));
    assert_eq!(template(&ToolChoice::Mode(ToolChoiceMode::Off)), Ok(None));
    assert_eq!(
        template(&ToolChoice::Mode(ToolChoiceMode::Required)),
        Ok(Some(vec![1]))
    );
    let specific = ToolChoice::Specific(SpecificToolChoice {
        kind: "function".to_string(),
        function: SpecificFunctionChoice {
            name: "weather".to_string(),
        },
    });
    assert_eq!(template(&specific), Ok(Some(vec![1, 8, 9])));
}

#[test]
fn sampled_scores_are_kept() {
    let score = Float32 {
        bits: (-0.5f32).to_bits(),
    };
    let answer = SamplingResult {
        token: 9,
        logprob: Some(score),
        top_k_logprobs: Some(vec![]),
    };
    let mut handler = handler_with(MockSampler::answering(answer.clone()));
    assert_eq!(
        handler.advance(&vec![0], true, Some(0)),
        Ok(GenerationEvent::ContentSampled {
            sampling_result: answer
        })
    );
}
