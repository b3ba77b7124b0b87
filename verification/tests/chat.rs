use kubi::chat::{ChatHistory, ChatMessage, init_chat_manager};

#[test]
fn chat_starts_with_welcome_and_help_lines() {
    let history = init_chat_manager();
    let messages = history.get_messages();
    assert_eq!(messages.len(), 2);
    match &messages[0] {
        ChatMessage::System(m) => assert_eq!(m, "Welcome to Kubi! Chat messages will appear here"),
        _ => panic!("expected a system message"),
    }
    match &messages[1] {
        ChatMessage::System(m) => assert_eq!(m, "F1 (Hold): Settings; F3: Release cursor; F4/F5: Gamemode"),
        _ => panic!("expected a system message"),
    }
}

#[test]
fn chat_messages_are_appended_in_order() {
    let mut history = ChatHistory::default();
    history.add_player_join(7, "alice".to_string());
    history.add_chat_message(7, "alice".to_string(), "hi".to_string());
    history.add_player_leave(7, "alice".to_string());
    history.add_system_message("bye".to_string());
    history.add_message(ChatMessage::System("end".to_string()));
    let m = history.get_messages();
    assert_eq!(m.len(), 5);
    assert!(matches!(&m[0], ChatMessage::PlayerJoin { id: 7, username } if username == "alice"));
    assert!(matches!(&m[1], ChatMessage::PlayerMessage { id: 7, username, message } if username == "alice" && message == "hi"));
    assert!(matches!(&m[2], ChatMessage::PlayerLeave { id: 7, .. }));
    assert!(matches!(&m[3], ChatMessage::System(s) if s == "bye"));
    assert!(matches!(&m[4], ChatMessage::System(s) if s == "end"));
}
