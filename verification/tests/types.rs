use std::collections::HashMap;

use loci::types::{
    ChatMessage, CompletionTokensDetails, FinishReason, FunctionDefinition,
    ModelCacheFragmentation, PromptTokensDetails, ReasoningEffort, Role, ToolCall, Usage,
};
use serde_json::Value;

#[test]
fn test_role_display() {
    assert_eq!(Role::System.name(), "system");
    assert_eq!(Role::User.name(), "user");
    assert_eq!(Role::Assistant.name(), "assistant");
    assert_eq!(Role::Tool.name(), "tool");
}

#[test]
fn test_finish_reason_display() {
    assert_eq!(FinishReason::Stop.name(), "stop");
    assert_eq!(FinishReason::Length.name(), "length");
    assert_eq!(FinishReason::ToolCalls.name(), "tool_calls");
}

#[test]
fn test_reasoning_effort_display() {
    assert_eq!(ReasoningEffort::Low.name(), "low");
    assert_eq!(ReasoningEffort::Medium.name(), "medium");
    assert_eq!(ReasoningEffort::High.name(), "high");
}

#[test]
fn test_fragmentaion_deserialize_success() {
    assert_eq!(
        ModelCacheFragmentation::from_text("BlockWise(32)"),
        Ok(ModelCacheFragmentation::BlockWise { block_size: 32 })
    );
    assert_eq!(
        ModelCacheFragmentation::from_text("TokenWise"),
        Ok(ModelCacheFragmentation::TokenWise)
    );
}

#[test]
fn test_fragmentaion_deserialize_failure() {
    assert_eq!(
        ModelCacheFragmentation::from_text(""),
        Err("invalid fragmentation format: ".to_string())
    );
    assert_eq!(
        ModelCacheFragmentation::from_text("BlockWise"),
        Err("invalid fragmentation format: BlockWise".to_string())
    );
}

#[test]
fn fragmentation_is_read_as_written() {
    for size in [0, 1, 9, 10, 32, 4096, usize::MAX] {
        let fragmentation = ModelCacheFragmentation::BlockWise { block_size: size };
        let text = fragmentation.to_text();
        assert_eq!(text, format!("BlockWise({})", size));
        assert_eq!(ModelCacheFragmentation::from_text(&text), Ok(fragmentation));
    }
    assert_eq!(ModelCacheFragmentation::TokenWise.to_text(), "TokenWise");
    assert_eq!(
        ModelCacheFragmentation::from_text("BlockWise(+7)"),
        Ok(ModelCacheFragmentation::BlockWise { block_size: 7 })
    );
    for text in ["BlockWise()", "BlockWise(-1)", "BlockWise(99999999999999999999999)", "BlockWise(3"] {
        assert!(ModelCacheFragmentation::from_text(text).is_err());
    }
}

#[test]
fn test_chat_message_new() {
    for role in [Role::System, Role::User, Role::Assistant, Role::Tool] {
        let chat_message = ChatMessage::new(role, role.name());
        assert_eq!(chat_message.role, role);
        assert_eq!(chat_message.content, Some(role.name().to_string()));
        assert_eq!(chat_message.reasoning_content, None);
        assert_eq!(chat_message.tool_calls, None);
        assert_eq!(chat_message.tool_call_id, None);
    }
}

#[test]
fn test_chat_message_with_reasoning_content() {
    let chat_message =
        ChatMessage::with_reasoning_content(Role::Assistant, "content", "reasoning content");
    assert_eq!(chat_message.role, Role::Assistant);
    assert_eq!(chat_message.content, Some("content".to_string()));
    assert_eq!(
        chat_message.reasoning_content,
        Some("reasoning content".to_string())
    );
    assert_eq!(chat_message.tool_calls, None);
    assert_eq!(chat_message.tool_call_id, None);
}

#[test]
fn test_chat_message_with_tool_calls() {
    let call = ToolCall {
        id: "id".to_string(),
        kind: "function".to_string(),
        function: FunctionDefinition {
            name: "name".to_string(),
            arguments: HashMap::from([
                ("arg1".to_string(), Value::String("arg1_value".to_string())),
                ("arg2".to_string(), Value::String("arg2_value".to_string())),
            ]),
        },
    };
    for (tool_calls, reasoning_content) in [
        (vec![], None),
        (vec![], Some("reasoning content")),
        (vec![call.clone()], Some("reasoning content")),
    ] {
        let chat_message = ChatMessage::with_tool_calls(
            Role::Assistant,
            "content",
            tool_calls.clone(),
            reasoning_content,
        );
        assert_eq!(chat_message.role, Role::Assistant);
        assert_eq!(chat_message.content, Some("content".to_string()));
        assert_eq!(
            chat_message.reasoning_content,
            reasoning_content.map(|s| s.to_string())
        );
        assert_eq!(chat_message.tool_calls, Some(tool_calls));
        assert_eq!(chat_message.tool_call_id, None);
    }
    assert_eq!(call.copy(), call);
}

#[test]
fn test_usage_default() {
    let usage = Usage::default();
    assert_eq!(usage.prompt_tokens, 0);
    assert_eq!(usage.completion_tokens, 0);
    assert_eq!(usage.total_tokens, 0);
}

#[test]
fn test_prompt_token_details_default() {
    let prompt_token_details = PromptTokensDetails::default();
    assert_eq!(prompt_token_details.cached_tokens, 0);
    assert_eq!(prompt_token_details.audio_tokens, 0);
}

#[test]
fn test_completion_token_details_default() {
    let completion_token_details = CompletionTokensDetails::default();
    assert_eq!(completion_token_details.reasoning_tokens, 0);
    assert_eq!(completion_token_details.audio_tokens, 0);
    assert_eq!(completion_token_details.accepted_prediction_tokens, 0);
    assert_eq!(completion_token_details.rejected_prediction_tokens, 0);
}
