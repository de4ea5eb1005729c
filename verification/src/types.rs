//! The vocabulary of chats: messages, tools, usage figures and the cache's block structure.
use std::collections::HashMap;

use serde_json::Value;
use vstd::prelude::*;
use vstd::string::*;

use crate::float::Float32;
use crate::text::{chars_of, dec, parse_usize, parsed_usize, push_dec, same_text, text_of};

verus! {

/// A JSON value of `serde_json`, carried through unread.
#[verifier::external_type_specification]
#[verifier::external_body]
pub struct ExJsonValue(serde_json::Value);

/// A JSON object of `serde_json`, carried through unread.
#[verifier::external_type_specification]
#[verifier::external_body]
#[verifier::reject_recursive_types(K)]
#[verifier::reject_recursive_types(V)]
pub struct ExJsonMap<K, V>(serde_json::Map<K, V>);

/// Who a message is from.
#[derive(Debug, Clone, Copy, PartialEq, Eq, Structural)]
pub enum Role {
    System,
    User,
    Assistant,
    Tool,
}

impl Role {
    pub open spec fn text(self) -> Seq<char> {
        match self {
            Role::System => "system"@,
            Role::User => "user"@,
            Role::Assistant => "assistant"@,
            Role::Tool => "tool"@,
        }
    }

    pub fn name(&self) -> (result: &'static str)
        ensures
            result@ == self.text(),
    {
        match self {
            Role::System => "system",
            Role::User => "user",
            Role::Assistant => "assistant",
            Role::Tool => "tool",
        }
    }
}

/// One message of a chat.
#[derive(Debug, Clone, PartialEq)]
pub struct ChatMessage {
    pub role: Role,
    pub content: Option<String>,
    pub reasoning_content: Option<String>,
    pub tool_calls: Option<Vec<ToolCall>>,
    pub tool_call_id: Option<String>,
}

impl ChatMessage {
    pub fn new(role: Role, content: &str) -> (result: Self)
        ensures
            result.role == role,
            text_of(result.content) == Some(content@),
            result.reasoning_content is None,
            result.tool_calls is None,
            result.tool_call_id is None,
    {
        ChatMessage {
            role,
            content: Some(String::from_str(content)),
            reasoning_content: None,
            tool_calls: None,
            tool_call_id: None,
        }
    }

    pub fn with_reasoning_content(
        role: Role,
        content: &str,
        reasoning_content: &str,
    ) -> (result: Self)
        ensures
            result.role == role,
            text_of(result.content) == Some(content@),
            text_of(result.reasoning_content) == Some(reasoning_content@),
            result.tool_calls is None,
            result.tool_call_id is None,
    {
        ChatMessage {
            role,
            content: Some(String::from_str(content)),
            reasoning_content: Some(String::from_str(reasoning_content)),
            tool_calls: None,
            tool_call_id: None,
        }
    }

    pub fn with_tool_calls(
        role: Role,
        content: &str,
        tool_calls: Vec<ToolCall>,
        reasoning_content: Option<&str>,
    ) -> (result: Self)
        ensures
            result.role == role,
            text_of(result.content) == Some(content@),
            text_of(result.reasoning_content) == (match reasoning_content {
                Some(text) => Some(text@),
                None => None,
            }),
            result.tool_calls == Some(tool_calls),
            result.tool_call_id is None,
    {
        ChatMessage {
            role,
            content: Some(String::from_str(content)),
            reasoning_content: match reasoning_content {
                Some(text) => Some(String::from_str(text)),
                None => None,
            },
            tool_calls: Some(tool_calls),
            tool_call_id: None,
        }
    }
}

/// How long the model may reason.
#[derive(Debug, Clone, Copy, PartialEq, Eq, Structural)]
pub enum ReasoningEffort {
    /// No reasoning; spelled "none".
    Off,
    Low,
    Medium,
    High,
}

impl ReasoningEffort {
    pub open spec fn text(self) -> Seq<char> {
        match self {
            ReasoningEffort::Off => "none"@,
            ReasoningEffort::Low => "low"@,
            ReasoningEffort::Medium => "medium"@,
            ReasoningEffort::High => "high"@,
        }
    }

    pub fn name(&self) -> (result: &'static str)
        ensures
            result@ == self.text(),
    {
        match self {
            ReasoningEffort::Off => "none",
            ReasoningEffort::Low => "low",
            ReasoningEffort::Medium => "medium",
            ReasoningEffort::High => "high",
        }
    }
}

/// Why a generation ended.
#[derive(Debug, Clone, Copy, PartialEq, Eq, Structural)]
pub enum FinishReason {
    Stop,
    Length,
    ToolCalls,
}

impl FinishReason {
    pub open spec fn text(self) -> Seq<char> {
        match self {
            FinishReason::Stop => "stop"@,
            FinishReason::Length => "length"@,
            FinishReason::ToolCalls => "tool_calls"@,
        }
    }

    pub fn name(&self) -> (result: &'static str)
        ensures
            result@ == self.text(),
    {
        match self {
            FinishReason::Stop => "stop",
            FinishReason::Length => "length",
            FinishReason::ToolCalls => "tool_calls",
        }
    }
}

/// A tool that the model may call.
#[derive(Debug, Clone)]
pub struct Tool {
    pub kind: String,
    pub function: Function,
}

#[derive(Debug, Clone)]
pub struct Function {
    pub name: String,
    pub description: Option<String>,
    pub parameters: FunctionParameters,
}

#[derive(Debug, Clone)]
pub struct FunctionParameters {
    pub kind: String,
    pub properties: Option<serde_json::Map<String, Value>>,
    pub required: Vec<String>,
}

/// Which tool the model is to call.
#[derive(Debug, Clone, PartialEq)]
pub enum ToolChoice {
    Mode(ToolChoiceMode),
    Specific(SpecificToolChoice),
}

impl ToolChoice {
    /// The mode, or the name of the one function.
    pub open spec fn model(self) -> ToolChoiceView {
        match self {
            ToolChoice::Mode(mode) => ToolChoiceView::Mode(mode),
            ToolChoice::Specific(choice) => ToolChoiceView::Specific(
                choice.kind@,
                choice.function.name@,
            ),
        }
    }

    /// A copy.
    pub fn copy(&self) -> (result: Self)
        ensures
            result.model() == self.model(),
    {
        match self {
            ToolChoice::Mode(mode) => ToolChoice::Mode(*mode),
            ToolChoice::Specific(choice) => ToolChoice::Specific(
                SpecificToolChoice {
                    kind: choice.kind.clone(),
                    function: SpecificFunctionChoice { name: choice.function.name.clone() },
                },
            ),
        }
    }
}

/// The mathematical model of a tool choice.
pub enum ToolChoiceView {
    Mode(ToolChoiceMode),
    Specific(Seq<char>, Seq<char>),
}

#[derive(Debug, Clone, Copy, PartialEq, Eq, Structural)]
pub enum ToolChoiceMode {
    /// No tool; spelled "none".
    Off,
    Auto,
    Required,
}

#[derive(Debug, Clone, PartialEq)]
pub struct SpecificToolChoice {
    /// Always "function".
    pub kind: String,
    pub function: SpecificFunctionChoice,
}

#[derive(Debug, Clone, PartialEq)]
pub struct SpecificFunctionChoice {
    /// The function that is to be called.
    pub name: String,
}

/// A call that the model asks for.
#[derive(Debug, Clone, PartialEq)]
pub struct ToolCall {
    pub id: String,
    pub kind: String,
    pub function: FunctionDefinition,
}

#[derive(Debug, Clone, PartialEq)]
pub struct FunctionDefinition {
    pub name: String,
    pub arguments: HashMap<String, Value>,
}

/// The arguments of a call by the texts of their names.
pub open spec fn argument_map(arguments: Map<String, Value>) -> Map<Seq<char>, Value> {
    Map::new(
        |k: Seq<char>| exists|s: String| #[trigger] arguments.dom().contains(s) && s@ == k,
        |k: Seq<char>| arguments[choose|s: String| arguments.dom().contains(s) && s@ == k],
    )
}

/// The mathematical model of a call.
pub struct ToolCallView {
    pub id: Seq<char>,
    pub kind: Seq<char>,
    pub name: Seq<char>,
    pub arguments: Map<Seq<char>, Value>,
}

impl ToolCall {
    pub open spec fn model(self) -> ToolCallView {
        ToolCallView {
            id: self.id@,
            kind: self.kind@,
            name: self.function.name@,
            arguments: argument_map(self.function.arguments@),
        }
    }

    /// A copy.
    pub fn copy(&self) -> (result: Self)
        ensures
            result.model() == self.model(),
    {
        ToolCall {
            id: self.id.clone(),
            kind: self.kind.clone(),
            function: FunctionDefinition {
                name: self.function.name.clone(),
                arguments: self.function.arguments.clone(),
            },
        }
    }
}

/// The models of a list of calls.
pub open spec fn call_models(list: Seq<ToolCall>) -> Seq<ToolCallView> {
    list.map_values(|c: ToolCall| c.model())
}

/// A copy of a list of calls.
pub fn copy_calls(list: &Vec<ToolCall>) -> (result: Vec<ToolCall>)
    ensures
        call_models(result@) == call_models(list@),
{
    let mut out: Vec<ToolCall> = Vec::new();
    let mut i: usize = 0;
    while i < list.len()
        invariant
            i <= list@.len(),
            out@.len() == i,
            forall|q: int| 0 <= q < i ==> (#[trigger] out@[q]).model() == list@[q].model(),
        decreases list.len() - i,
    {
        out.push(list[i].copy());
        i = i + 1;
    }
    assert(call_models(out@) =~= call_models(list@));
    out
}

/// Token figures of one generation.
#[derive(Debug, Clone, Copy, PartialEq, Eq, Structural)]
pub struct Usage {
    pub prompt_tokens: u32,
    pub completion_tokens: u32,
    pub total_tokens: u32,
    pub prompt_tokens_details: Option<PromptTokensDetails>,
    pub completion_tokens_details: Option<CompletionTokensDetails>,
}

#[derive(Debug, Clone, Copy, PartialEq, Eq, Structural)]
pub struct PromptTokensDetails {
    pub cached_tokens: u32,
    pub audio_tokens: u32,
}

#[derive(Debug, Clone, Copy, PartialEq, Eq, Structural)]
pub struct CompletionTokensDetails {
    pub reasoning_tokens: u32,
    pub audio_tokens: u32,
    pub accepted_prediction_tokens: u32,
    pub rejected_prediction_tokens: u32,
}

impl Default for Usage {
    fn default() -> (result: Self)
        ensures
            result == (Usage {
                prompt_tokens: 0,
                completion_tokens: 0,
                total_tokens: 0,
                prompt_tokens_details: None,
                completion_tokens_details: None,
            }),
    {
        Usage {
            prompt_tokens: 0,
            completion_tokens: 0,
            total_tokens: 0,
            prompt_tokens_details: None,
            completion_tokens_details: None,
        }
    }
}

impl Default for PromptTokensDetails {
    fn default() -> (result: Self)
        ensures
            result == (PromptTokensDetails { cached_tokens: 0, audio_tokens: 0 }),
    {
        PromptTokensDetails { cached_tokens: 0, audio_tokens: 0 }
    }
}

impl Default for CompletionTokensDetails {
    fn default() -> (result: Self)
        ensures
            result == (CompletionTokensDetails {
                reasoning_tokens: 0,
                audio_tokens: 0,
                accepted_prediction_tokens: 0,
                rejected_prediction_tokens: 0,
            }),
    {
        CompletionTokensDetails {
            reasoning_tokens: 0,
            audio_tokens: 0,
            accepted_prediction_tokens: 0,
            rejected_prediction_tokens: 0,
        }
    }
}

/// A piece of a tool call in a stream.
#[derive(Clone, Debug, PartialEq)]
pub struct ChunkToolCall {
    /// Which call the piece belongs to.
    pub index: u32,
    /// Only on the first piece of a call.
    pub id: Option<String>,
    /// Only on the first piece of a call; always "function".
    pub kind: Option<String>,
    pub function: ChunkFunctionCall,
}

#[derive(Clone, Debug, PartialEq)]
pub struct ChunkFunctionCall {
    /// Only on the first piece of a call.
    pub name: Option<String>,
    /// A piece of the JSON text of the arguments.
    pub arguments: String,
}

/// The mathematical model of a piece of a tool call.
pub struct ChunkToolCallView {
    pub index: u32,
    pub id: Option<Seq<char>>,
    pub kind: Option<Seq<char>>,
    pub name: Option<Seq<char>>,
    pub arguments: Seq<char>,
}

impl ChunkToolCall {
    pub open spec fn model(self) -> ChunkToolCallView {
        ChunkToolCallView {
            index: self.index,
            id: text_of(self.id),
            kind: text_of(self.kind),
            name: text_of(self.function.name),
            arguments: self.function.arguments@,
        }
    }
}

#[derive(Debug, Clone, PartialEq)]
pub struct ChunkLogprob {
    pub content: Vec<LogprobsContent>,
}

/// The log probability of a token and of its closest rivals.
#[derive(Debug, Clone, PartialEq)]
pub struct LogprobsContent {
    pub token: String,
    pub logprob: Float32,
    pub bytes: Vec<u8>,
    pub top_logprobs: Option<Vec<TopLogprobs>>,
}

#[derive(Debug, Clone, PartialEq)]
pub struct TopLogprobs {
    pub token: String,
    pub logprob: Float32,
    pub bytes: Vec<u8>,
}

/// How a cached prefix can be cut: at block boundaries or at any token.
#[derive(Clone, Copy, Debug, PartialEq, Eq, Structural)]
pub enum ModelCacheFragmentation {
    BlockWise { block_size: usize },
    TokenWise,
}

/// The fragmentation that a text names.
pub open spec fn fragmentation_of(text: Seq<char>) -> Option<ModelCacheFragmentation> {
    let head = "BlockWise("@;
    if text == "TokenWise"@ {
        Some(ModelCacheFragmentation::TokenWise)
    } else if text.len() > head.len() && text.take(head.len() as int) == head && text.last()
        == ')' {
        match parsed_usize(text.subrange(head.len() as int, text.len() - 1)) {
            Some(block_size) => Some(ModelCacheFragmentation::BlockWise { block_size }),
            None => None,
        }
    } else {
        None
    }
}

impl ModelCacheFragmentation {
    /// The name of the fragmentation.
    pub open spec fn text(self) -> Seq<char> {
        match self {
            ModelCacheFragmentation::BlockWise { block_size } => "BlockWise("@ + dec(
                block_size as nat,
            ) + ")"@,
            ModelCacheFragmentation::TokenWise => "TokenWise"@,
        }
    }

    pub fn to_text(&self) -> (result: String)
        ensures
            result@ == self.text(),
    {
        match self {
            ModelCacheFragmentation::BlockWise { block_size } => {
                let mut out = String::from_str("BlockWise(");
                push_dec(&mut out, *block_size as u64);
                out.append(")");
                out
            },
            ModelCacheFragmentation::TokenWise => String::from_str("TokenWise"),
        }
    }

    /// Reads a fragmentation from its name.
    pub fn from_text(value: &str) -> (result: Result<Self, String>)
        ensures
            match result {
                Ok(f) => fragmentation_of(value@) == Some(f),
                Err(message) => fragmentation_of(value@) is None && message@
                    == "invalid fragmentation format: "@ + value@,
            },
    {
        if same_text(value, "TokenWise") {
            return Ok(ModelCacheFragmentation::TokenWise);
        }
        let chars = chars_of(value);
        let head = chars_of("BlockWise(");
        let n: usize = head.len();
        if chars.len() > n && starts_with(&chars, &head) && chars[chars.len() - 1] == ')' {
            if let Some(block_size) = parse_usize(&chars, n, chars.len() - 1) {
                return Ok(ModelCacheFragmentation::BlockWise { block_size });
            }
        }
        let mut message = String::from_str("invalid fragmentation format: ");
        message.append(value);
        Err(message)
    }
}

/// Whether the characters begin with another run of characters.
pub fn starts_with(chars: &Vec<char>, head: &Vec<char>) -> (result: bool)
    ensures
        result == (head@.len() <= chars@.len() && chars@.take(head@.len() as int) == head@),
{
    if head.len() > chars.len() {
        return false;
    }
    let mut i: usize = 0;
    while i < head.len()
        invariant
            i <= head@.len() <= chars@.len(),
            forall|q: int| 0 <= q < i ==> #[trigger] chars@[q] == head@[q],
        decreases head.len() - i,
    {
        if chars[i] != head[i] {
            assert(chars@.take(head@.len() as int)[i as int] != head@[i as int]);
            return false;
        }
        i = i + 1;
    }
    assert(chars@.take(head@.len() as int) =~= head@);
    true
}

/// The name of a fragmentation is read back as the fragmentation.
pub proof fn law_fragmentation_text(f: ModelCacheFragmentation)
    ensures
        fragmentation_of(f.text()) == Some(f),
{
    if let ModelCacheFragmentation::BlockWise { block_size } = f {
        reveal_strlit("BlockWise(");
        reveal_strlit("TokenWise");
        reveal_strlit(")");
        let head = "BlockWise("@;
        let digits = dec(block_size as nat);
        let text = f.text();
        assert(text[0] == 'B');
        assert("TokenWise"@[0] == 'T');
        assert(text.take(head.len() as int) =~= head);
        assert(text.last() == ')');
        assert(text.subrange(head.len() as int, text.len() - 1) =~= digits);
        crate::text::law_dec_parses(block_size as nat);
    }
}

/// The names under which things are written.
pub proof fn law_names()
    ensures
        Role::System.text() == "system"@,
        Role::User.text() == "user"@,
        Role::Assistant.text() == "assistant"@,
        Role::Tool.text() == "tool"@,
        ReasoningEffort::Off.text() == "none"@,
        ReasoningEffort::Low.text() == "low"@,
        ReasoningEffort::Medium.text() == "medium"@,
        ReasoningEffort::High.text() == "high"@,
        FinishReason::Stop.text() == "stop"@,
        FinishReason::Length.text() == "length"@,
        FinishReason::ToolCalls.text() == "tool_calls"@,
        ModelCacheFragmentation::TokenWise.text() == "TokenWise"@,
        forall|block_size: usize|
            (#[trigger] ModelCacheFragmentation::BlockWise { block_size }.text()) == "BlockWise("@
                + dec(block_size as nat) + ")"@,
{
}

/// A copy of a tool call or of a choice says the same: its id, its name and its arguments.
pub proof fn law_models_say_all(call: ToolCall, choice: ToolChoice)
    ensures
        call.model().id == call.id@,
        call.model().kind == call.kind@,
        call.model().name == call.function.name@,
        call.model().arguments == argument_map(call.function.arguments@),
        choice matches ToolChoice::Mode(mode) ==> choice.model() == ToolChoiceView::Mode(mode),
        choice matches ToolChoice::Specific(specific) ==> choice.model() == ToolChoiceView::Specific(
            specific.kind@,
            specific.function.name@,
        ),
{
}

} // verus!
