use loci::session::{Session, SessionManager};
use loci::types::{ChatMessage, Role};

#[test]
fn test_session_new() {
    let session = Session::new("system message");
    assert_ne!(session.id, 0);
    assert_eq!(session.messages.len(), 1);
    assert_eq!(session.messages[0].role, Role::System);
    assert_eq!(
        session.messages[0].content,
        Some("system message".to_string())
    );
}

#[test]
fn test_add_user_message() {
    for (system_message, message) in
        [("system message", "user message"), ("", "user message 2"), ("", "")]
    {
        let mut session = Session::new(system_message);
        session.add_user_message(message);
        assert_eq!(session.messages.len(), 2);
        assert_eq!(session.messages[1].role, Role::User);
        assert_eq!(session.messages[1].content, Some(message.to_string()));
    }
}

#[test]
fn test_add_assistant_message() {
    for (system_message, message) in
        [("system message", "assistant message"), ("", "assistant message 2"), ("", "")]
    {
        let mut session = Session::new(system_message);
        session.add_assistant_message(message);
        assert_eq!(session.messages.len(), 2);
        assert_eq!(session.messages[1].role, Role::Assistant);
        assert_eq!(session.messages[1].content, Some(message.to_string()));
    }
}

#[test]
fn test_add_tool_message() {
    for (system_message, message) in
        [("system message", "tool message"), ("", "tool message 2"), ("", "")]
    {
        let mut session = Session::new(system_message);
        session.add_tool_message(message);
        assert_eq!(session.messages.len(), 2);
        assert_eq!(session.messages[1].role, Role::Tool);
        assert_eq!(session.messages[1].content, Some(message.to_string()));
    }
}

#[test]
fn test_get_messages() {
    let mut session = Session {
        id: 5,
        messages: vec![
            ChatMessage::new(Role::System, "system message"),
            ChatMessage::new(Role::User, "user message"),
        ],
    };
    assert_eq!(session.get_messages().len(), 2);
    assert_eq!(session.get_messages()[0].role, Role::System);
    session.add_message(ChatMessage::new(Role::User, ""));
    assert_eq!(session.get_messages().len(), 3);
    assert_eq!(session.get_messages()[0].role, Role::System);
}

#[test]
fn test_session_manager() {
    let mut manager = SessionManager::default();
    let session = manager.start_session("Hello");
    session.add_user_message("World");
    let id = session.id;
    assert_eq!(session.get_messages().len(), 2);

    let session_lookup = manager.get_session_mut(id).unwrap();
    assert_eq!(
        session_lookup.get_messages()[0].content.as_deref(),
        Some("Hello")
    );
    assert_eq!(
        session_lookup.get_messages()[1].content.as_deref(),
        Some("World")
    );
}

#[test]
fn test_get_session_mut_none() {
    let mut manager = SessionManager::default();
    let result = manager.get_session_mut(uuid::Uuid::new_v4().as_u128());
    assert!(result.is_none());
}

#[test]
fn test_multiple_sessions() {
    let mut manager = SessionManager::default();
    let s1 = manager.start_session("sys1");
    s1.add_user_message("msg1");
    let id1 = s1.id;
    let s2 = manager.start_session("sys2");
    s2.add_user_message("msg2");
    let id2 = s2.id;

    assert_eq!(
        manager.get_session_mut(id1).unwrap().get_messages().len(),
        2
    );
    assert_eq!(
        manager.get_session_mut(id2).unwrap().get_messages().len(),
        2
    );
    assert_ne!(id1, id2);
}
