use ummerse::editor::ai_assistant::{AiAssistant, AiBackendConfig, AiBackendKind, AiMessage, AiRole, ConversationState, MessageContent};

fn text_of(m: &AiMessage) -> &str {
    match &m.content {
        MessageContent::Text(t) => t.as_str(),
        MessageContent::ToolResult { result, .. } => result.as_str(),
        _ => "",
    }
}

#[test]
fn conversation_turns() {
    let mut a = AiAssistant::new("You are the Ummerse assistant.");
    assert_eq!(a.state, ConversationState::WaitingForUser);
    a.send_user_message("Add a player");
    assert_eq!(a.state, ConversationState::Generating);
    a.add_assistant_message("Done");
    assert_eq!(a.state, ConversationState::WaitingForUser);
    assert_eq!(a.messages.len(), 2);
    assert_eq!(a.messages[0].role, AiRole::User);
    assert_eq!(text_of(&a.messages[1]), "Done");
}

#[test]
fn approval_queue_is_first_in_first_out() {
    let mut a = AiAssistant::new("p");
    a.add_tool_call("create_node", serde_json::Value::Null, "create the player", true);
    assert_eq!(a.state, ConversationState::WaitingForApproval);
    a.add_tool_call("get_scene_tree", serde_json::Value::Null, "look", false);
    assert_eq!(a.state, ConversationState::ExecutingTool);
    let first = a.approve_next_call().unwrap();
    assert_eq!(first.tool_name, "create_node");
    assert!(first.requires_approval);
    assert_eq!(a.state, ConversationState::ExecutingTool);
    let second = a.approve_next_call().unwrap();
    assert_eq!(second.tool_name, "get_scene_tree");
    assert!(a.approve_next_call().is_none());
    a.add_tool_result("get_scene_tree", "{}");
    assert_eq!(a.state, ConversationState::Generating);
    assert_eq!(a.messages.last().unwrap().role, AiRole::Tool);
}

#[test]
fn rejection_reports_to_the_model() {
    let mut a = AiAssistant::new("p");
    a.reject_next_call("nothing to reject");
    assert!(a.messages.is_empty());
    a.add_tool_call("delete_file", serde_json::Value::Null, "remove it", true);
    a.reject_next_call("too risky");
    assert_eq!(a.state, ConversationState::WaitingForUser);
    assert!(a.pending_calls.is_empty());
    let last = a.messages.last().unwrap();
    assert_eq!(last.role, AiRole::Tool);
    match &last.content {
        MessageContent::ToolResult { tool_name, result } => {
            assert_eq!(tool_name, "delete_file");
            assert_eq!(result, "Tool call rejected by user: too risky");
        }
        _ => panic!("expected a tool result"),
    }
}

#[test]
fn api_messages_start_with_the_system_prompt() {
    let mut a = AiAssistant::new("system text");
    a.send_user_message("hi");
    let v = a.messages_for_api();
    assert_eq!(v.len(), 2);
    assert_eq!(v[0].role, AiRole::System);
    assert_eq!(v[0].timestamp, 0);
    assert_eq!(text_of(&v[0]), "system text");
    assert_eq!(text_of(&v[1]), "hi");
    a.set_system_prompt("other");
    assert_eq!(a.system_prompt(), "other");
    a.clear_history();
    assert!(a.messages.is_empty());
    assert_eq!(a.state, ConversationState::WaitingForUser);
    assert_eq!(a.system_prompt(), "other");
}

#[test]
fn backend_defaults() {
    let c = AiBackendConfig::default();
    assert_eq!(c.kind, AiBackendKind::Offline);
    assert_eq!(c.api_key_env.as_deref(), Some("ANTHROPIC_API_KEY"));
    assert!(c.model.is_empty());
    assert_eq!(c.max_tokens, 8192);
    assert!(c.base_url.is_none());
}
