use aiform::{Conversation, Message, ToolCall};

#[test]
fn test_conversation_creation() {
    let conv = Conversation::new();
    assert_eq!(conv.len(), 0);
    assert!(conv.is_empty());
}

#[test]
fn test_with_system() {
    let conv = Conversation::with_system("You are helpful");
    assert_eq!(conv.len(), 1);
}

#[test]
fn test_add_messages() {
    let mut conv = Conversation::new();
    conv.add_user_message("Hello");
    conv.add_assistant_message("Hi there!");

    assert_eq!(conv.len(), 2);
    assert!(!conv.is_empty());
}

#[test]
fn test_clear() {
    let mut conv = Conversation::new();
    conv.add_user_message("Test");
    conv.clear();

    assert_eq!(conv.len(), 0);
    assert!(conv.is_empty());
}

#[test]
fn messages_keep_their_order_and_content() {
    let mut conv = Conversation::with_system("You are helpful");
    conv.add_user_message("Hello");
    conv.add_assistant_message_with_tools(
        None,
        vec![ToolCall {
            id: "call_1".to_string(),
            name: "add".to_string(),
            arguments: "{}".to_string(),
        }],
    );
    conv.add_tool_message("call_1", "4");
    conv.add_system_message("Be brief");
    assert_eq!(
        conv.messages(),
        &[
            Message::System { content: "You are helpful".to_string() },
            Message::User { content: "Hello".to_string() },
            Message::Assistant {
                text: None,
                tool_calls: Some(vec![ToolCall {
                    id: "call_1".to_string(),
                    name: "add".to_string(),
                    arguments: "{}".to_string(),
                }]),
            },
            Message::Tool { tool_call_id: "call_1".to_string(), content: "4".to_string() },
            Message::System { content: "Be brief".to_string() },
        ]
    );
}

#[test]
fn copies_and_defaults() {
    let mut conv = Conversation::default();
    assert!(conv.is_empty());
    conv.add_user_message("Hello");
    let copy = conv.clone();
    conv.add_user_message("again");
    assert_eq!(copy.len(), 1);
    assert_eq!(conv.len(), 2);
    let call = ToolCall {
        id: "call_1".to_string(),
        name: "add".to_string(),
        arguments: "{}".to_string(),
    };
    assert_eq!(call.clone(), call);
}
