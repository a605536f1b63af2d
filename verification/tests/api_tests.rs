//! Displayed conversation records and the tool registry.

use book_server::api::ConversationMessage;
use book_server::message::Message;
use book_server::message::ToolCall;
use book_server::message::UserContent;
use book_server::message::UserPart;
use book_server::registry::ToolDecl;
use book_server::registry::ToolManager;

#[test]
fn messages_flatten_to_their_displayed_form() {
    let system = Message::System("instructions".to_string());
    assert!(ConversationMessage::from_message(&system).is_none());

    let user = Message::User(UserContent::Text("hello".to_string()));
    match ConversationMessage::from_message(&user) {
        Some(ConversationMessage::User { content }) => assert_eq!(content, "hello"),
        _ => panic!("a user message must be displayed"),
    }

    let parts = Message::User(UserContent::Parts(vec![
        UserPart::Text("see ".to_string()),
        UserPart::Image,
        UserPart::Text("this".to_string()),
        UserPart::Audio("QUJD".to_string()),
    ]));
    match ConversationMessage::from_message(&parts) {
        Some(ConversationMessage::User { content }) => assert_eq!(content, "see this"),
        _ => panic!("a multi-part user message must be displayed"),
    }

    let assistant = Message::Assistant {
        content: Some("answer".to_string()),
        refusal: None,
        tool_calls: vec![ToolCall::new(
            "1".to_string(),
            "BookJump".to_string(),
            "{}".to_string(),
        )],
    };
    match ConversationMessage::from_message(&assistant) {
        Some(ConversationMessage::Assistant { content, tool_calls }) => {
            assert_eq!(content, "answer");
            assert_eq!(tool_calls, vec!["BookJump".to_string()]);
        },
        _ => panic!("an assistant message must be displayed"),
    }

    let tool = Message::Tool { tool_call_id: "1".to_string(), content: "out".to_string() };
    match ConversationMessage::from_message(&tool) {
        Some(ConversationMessage::Tool { content }) => assert_eq!(content, "out"),
        _ => panic!("a tool message must be displayed"),
    }
}

fn decl(name: &str, description: &str) -> ToolDecl {
    ToolDecl {
        name: name.to_string(),
        description: description.to_string(),
        parameters: "{}".to_string(),
    }
}

#[test]
fn registration_is_last_write_wins() {
    let mut manager = ToolManager::new();
    manager.add_tool(decl("AddMemory", "first"));
    manager.add_tool(decl("BookJump", "jump"));
    manager.add_tool(decl("AddMemory", "second"));
    let decls = manager.get_tools();
    assert_eq!(decls.len(), 2);
    assert_eq!(decls[0].name, "AddMemory");
    assert_eq!(decls[0].description, "second");
    assert_eq!(decls[1].name, "BookJump");
}

#[test]
fn built_in_declarations_carry_descriptions_and_schemas() {
    let decls = book_server::tools::default_tool_decls();
    let names: Vec<&str> = decls.iter().map(|d| d.name.as_str()).collect();
    assert_eq!(
        names,
        vec!["GetChapterContent", "BookJump", "ProgressUpdate", "AddMemory", "GetBookProgress"]
    );
    for decl in &decls {
        assert!(!decl.description.is_empty());
        // Every parameter spec is a JSON schema fragment.
        assert!(serde_json::from_str::<serde_json::Value>(&decl.parameters).is_ok());
    }
    assert_eq!(decls[2].description, "Update the progress of a chapter");
}

#[test]
fn error_messages_render() {
    let e = book_server::error::Error::TokenTooMuch { current: 340, budget: 17 };
    assert_eq!(e.message(), "Token budget exceeded: current 340, budget 17");
    let f = book_server::error::Error::Fatal("broken".to_string());
    assert_eq!(f.message(), "Fatal error: broken");
}

#[test]
fn instruction_text_mentions_student_and_book() {
    let text = book_server::teacher::instruction_text("Sam", "Grammar");
    assert!(text.contains("expecting Sam to keep up"));
    assert!(text.contains("using Grammar’s structure"));
    assert!(text.contains("Introduce Vera and Grammar"));
}
