//! Requests and responses of the chat completion interface.
use vstd::prelude::*;
use vstd::string::*;

use crate::float::Float32;
use crate::text::{chars_of, text_of};
use crate::types::{
    ChatMessage, ChunkLogprob, ChunkToolCall, FinishReason, ReasoningEffort, Role, Tool, ToolChoice,
    ToolChoiceMode, Usage,
};

verus! {

/// A request as it comes.
#[derive(Debug, Clone)]
pub struct ChatCompletionRequest {
    pub model: Option<String>,
    pub messages: Vec<ChatMessage>,
    pub tools: Option<Vec<Tool>>,
    pub tool_choice: Option<ToolChoice>,
    pub temperature: Option<Float32>,
    pub top_p: Option<Float32>,
    pub max_tokens: Option<usize>,
    pub repetition_penalty: Option<Float32>,
    pub reasoning_effort: Option<ReasoningEffort>,
    pub stream: Option<bool>,
    pub stream_options: Option<StreamOptions>,
    pub stop: Option<Vec<String>>,
    pub logprobs: Option<bool>,
    pub top_logprobs: Option<usize>,
    pub seed: Option<usize>,
}

#[derive(Debug, Clone, Copy, PartialEq, Eq, Structural)]
pub struct StreamOptions {
    pub include_usage: Option<bool>,
}

#[derive(Debug)]
pub struct ChatCompletionResponse {
    pub id: String,
    pub object: String,
    pub created: u64,
    pub model: String,
    pub system_fingerprint: String,
    pub choices: Vec<Choice>,
    pub usage: Option<Usage>,
}

#[derive(Debug)]
pub struct Choice {
    pub index: usize,
    pub message: ChatMessage,
    pub finish_reason: Option<FinishReason>,
}

/// A piece of a response that is streamed.
#[derive(Debug)]
pub struct ChatCompletionChunk {
    pub id: String,
    pub object: String,
    pub created: u64,
    pub model: String,
    pub system_fingerprint: String,
    /// None in the piece with the figures.
    pub choices: Vec<ChunkChoice>,
    /// Only in the last piece, if the figures were asked for.
    pub usage: Option<Usage>,
}

#[derive(Debug)]
pub struct ChunkChoice {
    pub index: usize,
    pub delta: ChunkDelta,
    pub logprobs: Option<ChunkLogprob>,
    /// Only at the end.
    pub finish_reason: Option<FinishReason>,
}

#[derive(Debug)]
pub struct ChunkDelta {
    /// Only in the first piece.
    pub role: Option<Role>,
    pub content: Option<String>,
    pub reasoning_content: Option<String>,
    pub tool_calls: Option<Vec<ChunkToolCall>>,
}

/// A request that can be served.
#[derive(Debug, Clone)]
pub struct ValidatedChatCompletionRequest {
    pub model: String,
    pub messages: Vec<ChatMessage>,
    pub tools: Option<Vec<Tool>>,
    pub tool_choice: ToolChoice,
    pub temperature: Option<Float32>,
    pub top_p: Option<Float32>,
    pub max_tokens: Option<usize>,
    pub repetition_penalty: Option<Float32>,
    pub reasoning_effort: Option<ReasoningEffort>,
    pub stream: Option<bool>,
    pub stream_options: Option<StreamOptions>,
    pub stop: Option<Vec<String>>,
    pub logprobs: Option<bool>,
    pub top_logprobs: Option<usize>,
    pub seed: Option<usize>,
}

/// Why a request cannot be served.
#[derive(Debug, Clone, PartialEq)]
pub enum RequestError {
    /// The body could not be read.
    UnreadableBody(String),
    /// The body is no request.
    InvalidJson(String),
    ModelRequired,
    UserMessageRequired,
}

impl RequestError {
    /// What is answered.
    pub open spec fn text(self) -> Seq<char> {
        match self {
            RequestError::UnreadableBody(reason) => "Failed to read request body: "@ + reason@,
            RequestError::InvalidJson(reason) => "Invalid JSON: "@ + reason@,
            RequestError::ModelRequired => "model is required"@,
            RequestError::UserMessageRequired => {
                "messages must contain at least one user message"@
            },
        }
    }

    pub fn message(&self) -> (result: String)
        ensures
            result@ == self.text(),
    {
        match self {
            RequestError::UnreadableBody(reason) => {
                let mut text = String::from_str("Failed to read request body: ");
                text.append(reason.as_str());
                text
            },
            RequestError::InvalidJson(reason) => {
                let mut text = String::from_str("Invalid JSON: ");
                text.append(reason.as_str());
                text
            },
            RequestError::ModelRequired => String::from_str("model is required"),
            RequestError::UserMessageRequired => String::from_str(
                "messages must contain at least one user message",
            ),
        }
    }
}

/// A path with slashes in place of backslashes.
pub open spec fn with_slashes(path: Seq<char>) -> Seq<char> {
    path.map_values(
        |c: char|
            if c == '\\' {
                '/'
            } else {
                c
            },
    )
}

/// Writes slashes in place of backslashes.
pub fn sanitize_path(path: &str) -> (result: String)
    ensures
        result@ == with_slashes(path@),
{
    let chars = chars_of(path);
    let mut out: String = String::new();
    let mut i: usize = 0;
    while i < chars.len()
        invariant
            i <= chars@.len(),
            chars@ == path@,
            out@ == with_slashes(path@).take(i as int),
        decreases chars.len() - i,
    {
        let c: char = if chars[i] == '\\' {
            '/'
        } else {
            chars[i]
        };
        out.push(c);
        assert(out@ =~= with_slashes(path@).take(i + 1));
        i = i + 1;
    }
    assert(out@ =~= with_slashes(path@));
    out
}

/// A message of a role that says something.
pub open spec fn speaks(message: ChatMessage, role: Role) -> bool {
    message.role == role && (text_of(message.content) matches Some(text) && text.len() > 0)
}

/// One of the messages is of a role and says something.
pub open spec fn any_speaks(messages: Seq<ChatMessage>, role: Role) -> bool {
    exists|i: int| 0 <= i < messages.len() && speaks(#[trigger] messages[i], role)
}

fn has_message(messages: &Vec<ChatMessage>, role: Role) -> (result: bool)
    ensures
        result == any_speaks(messages@, role),
{
    let mut i: usize = 0;
    while i < messages.len()
        invariant
            i <= messages@.len(),
            forall|j: int| 0 <= j < i ==> !speaks(#[trigger] messages@[j], role),
        decreases messages.len() - i,
    {
        let says_something = match &messages[i].content {
            Some(content) => !content.as_str().is_empty(),
            None => false,
        };
        if messages[i].role == role && says_something {
            assert(speaks(messages@[i as int], role));
            return true;
        }
        i = i + 1;
    }
    false
}

/// The message that opens a conversation without one.
pub open spec fn is_default_system_message(message: ChatMessage) -> bool {
    &&& message.role == Role::System
    &&& text_of(message.content) == Some("You are a helpful assistant."@)
    &&& message.reasoning_content is None
    &&& message.tool_calls is None
    &&& message.tool_call_id is None
}

/// The choice of a request that does not make one: tools are offered if there are any.
pub open spec fn resolved_tool_choice(
    choice: Option<ToolChoice>,
    tools: Option<Vec<Tool>>,
) -> ToolChoice {
    match choice {
        Some(c) => c,
        None => if tools matches Some(list) && list@.len() > 0 {
            ToolChoice::Mode(ToolChoiceMode::Auto)
        } else {
            ToolChoice::Mode(ToolChoiceMode::Off)
        },
    }
}

/// The request is served as it stands, but for what validation fills in.
pub open spec fn is_validated(
    request: ChatCompletionRequest,
    valid: ValidatedChatCompletionRequest,
) -> bool {
    &&& request.model matches Some(model) && valid.model@ == with_slashes(model@)
    &&& if any_speaks(request.messages@, Role::System) {
        valid.messages@ == request.messages@
    } else {
        &&& valid.messages@.len() == request.messages@.len() + 1
        &&& is_default_system_message(valid.messages@[0])
        &&& valid.messages@.skip(1) == request.messages@
    }
    &&& valid.tool_choice == resolved_tool_choice(request.tool_choice, request.tools)
    &&& valid.tools == request.tools
    &&& valid.temperature == request.temperature
    &&& valid.top_p == request.top_p
    &&& valid.max_tokens == request.max_tokens
    &&& valid.repetition_penalty == request.repetition_penalty
    &&& valid.reasoning_effort == request.reasoning_effort
    &&& valid.stream == request.stream
    &&& valid.stream_options == request.stream_options
    &&& valid.stop == request.stop
    &&& valid.logprobs == request.logprobs
    &&& valid.top_logprobs == request.top_logprobs
    &&& valid.seed == request.seed
}

impl ValidatedChatCompletionRequest {
    /// Checks a request: it names a model, and the user says something. A conversation without a
    /// system message gets one.
    pub fn from_request(payload: ChatCompletionRequest) -> (result: Result<Self, RequestError>)
        ensures
            match result {
                Ok(valid) => {
                    &&& any_speaks(payload.messages@, Role::User)
                    &&& is_validated(payload, valid)
                },
                Err(error) => if payload.model is None {
                    error is ModelRequired
                } else {
                    !any_speaks(payload.messages@, Role::User) && error is UserMessageRequired
                },
            },
    {
        let model_name = match payload.model {
            Some(name) => name,
            None => {
                return Err(RequestError::ModelRequired);
            },
        };
        let model = sanitize_path(model_name.as_str());
        let mut messages = payload.messages;
        if !has_message(&messages, Role::User) {
            return Err(RequestError::UserMessageRequired);
        }
        let ghost asked = messages@;
        if !has_message(&messages, Role::System) {
            messages.insert(0, ChatMessage::new(Role::System, "You are a helpful assistant."));
            assert(messages@.skip(1) =~= asked);
        }
        let has_tools = match &payload.tools {
            Some(list) => list.len() > 0,
            None => false,
        };
        let tool_choice = match payload.tool_choice {
            Some(choice) => choice,
            None => if has_tools {
                ToolChoice::Mode(ToolChoiceMode::Auto)
            } else {
                ToolChoice::Mode(ToolChoiceMode::Off)
            },
        };
        Ok(
            ValidatedChatCompletionRequest {
                model,
                messages,
                tools: payload.tools,
                tool_choice,
                temperature: payload.temperature,
                top_p: payload.top_p,
                max_tokens: payload.max_tokens,
                repetition_penalty: payload.repetition_penalty,
                reasoning_effort: payload.reasoning_effort,
                stream: payload.stream,
                stream_options: payload.stream_options,
                stop: payload.stop,
                logprobs: payload.logprobs,
                top_logprobs: payload.top_logprobs,
                seed: payload.seed,
            },
        )
    }
}

/// A conversation that is served always has a system message and a user message that say
/// something, and no part of it is lost.
pub proof fn law_served_conversations(
    request: ChatCompletionRequest,
    valid: ValidatedChatCompletionRequest,
)
    requires
        any_speaks(request.messages@, Role::User),
        is_validated(request, valid),
    ensures
        any_speaks(valid.messages@, Role::System),
        any_speaks(valid.messages@, Role::User),
        forall|i: int|
            0 <= i < request.messages@.len() ==> valid.messages@.contains(
                #[trigger] request.messages@[i],
            ),
{
    let user = choose|i: int|
        0 <= i < request.messages@.len() && speaks(#[trigger] request.messages@[i], Role::User);
    if any_speaks(request.messages@, Role::System) {
        assert(speaks(valid.messages@[user], Role::User));
    } else {
        reveal_strlit("You are a helpful assistant.");
        assert(speaks(valid.messages@[0], Role::System));
        assert(valid.messages@.skip(1)[user] == valid.messages@[user + 1]);
        assert(speaks(valid.messages@[user + 1], Role::User));
        assert forall|i: int| 0 <= i < request.messages@.len() implies valid.messages@.contains(
            #[trigger] request.messages@[i],
        ) by {
            assert(valid.messages@.skip(1)[i] == valid.messages@[i + 1]);
        }
    }
}

/// Paths are written the same way once and for all.
pub proof fn law_slashes_stay(path: Seq<char>)
    ensures
        with_slashes(with_slashes(path)) == with_slashes(path),
        forall|i: int| 0 <= i < path.len() ==> #[trigger] with_slashes(path)[i] != '\\',
{
    assert(with_slashes(with_slashes(path)) =~= with_slashes(path));
}

} // verus!
