use aia::history::{ConversationState, Message, Role};

#[test]
fn seed_without_piped_input_has_two_messages() {
    let state = ConversationState::seed("instructions".to_string(), "context".to_string(), None);
    assert_eq!(state.len(), 2);
    let msgs = state.snapshot();
    assert_eq!(msgs[0], Message { role: Role::System, content: "instructions".to_string() });
    assert_eq!(msgs[1], Message { role: Role::User, content: "context".to_string() });
}

#[test]
fn seed_with_piped_input_has_three_messages() {
    let state = ConversationState::seed(
        "instructions".to_string(),
        "context".to_string(),
        Some("piped text".to_string()),
    );
    assert_eq!(state.len(), 3);
    let msgs = state.snapshot();
    assert_eq!(msgs[2], Message { role: Role::User, content: "piped text".to_string() });
}

#[test]
fn two_turns_grow_the_log_by_four_in_order() {
    let mut state = ConversationState::seed("sys".to_string(), "ctx".to_string(), None);
    state.append_user("first question".to_string());
    state.append_assistant("first reply".to_string());
    state.append_user("second question".to_string());
    state.append_assistant("second reply".to_string());
    assert_eq!(state.len(), 2 + 2 * 2);
    let msgs = state.snapshot();
    assert_eq!(msgs[2], Message { role: Role::User, content: "first question".to_string() });
    assert_eq!(msgs[3], Message { role: Role::Assistant, content: "first reply".to_string() });
    assert_eq!(msgs[4], Message { role: Role::User, content: "second question".to_string() });
    assert_eq!(msgs[5], Message { role: Role::Assistant, content: "second reply".to_string() });
}

#[test]
fn append_keeps_earlier_messages_in_place() {
    let mut state = ConversationState::seed("sys".to_string(), "ctx".to_string(), None);
    state.append(Message { role: Role::User, content: "hello".to_string() });
    let msgs = state.snapshot();
    assert_eq!(msgs[0].content, "sys");
    assert_eq!(msgs[1].content, "ctx");
    assert_eq!(msgs[2].content, "hello");
}
