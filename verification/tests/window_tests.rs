//! The bounded conversation window: budget, trimming, and construction.

use book_server::error::Error;
use book_server::message::Message;
use book_server::message::UserContent;
use book_server::window::MessagesManager;

fn user(text: &str) -> Message {
    Message::User(UserContent::Text(text.to_string()))
}

/// A text of `n` letters costs `(n + 2) / 4` tokens.
fn text_of_tokens(tokens: usize) -> String {
    "a".repeat(tokens * 4 - 2)
}

#[test]
fn total_never_exceeds_budget_after_appends() {
    // Fixed blocks: 2 tokens each; budget 20.
    let mut window = MessagesManager::load(
        Message::System(text_of_tokens(2)),
        Message::System(text_of_tokens(2)),
        Vec::new(),
        20,
    )
    .unwrap();
    for _ in 0..10 {
        window.add_conversation_message(user(&text_of_tokens(5)));
        assert!(window.get_token_count() <= 20);
    }
    // One oversized message alone is evicted right back out.
    window.add_conversation_message(user(&text_of_tokens(50)));
    assert!(window.get_token_count() <= 20);
}

#[test]
fn trimming_removes_newest_first() {
    // Fixed blocks cost 2 + 2 = 4; budget 20 leaves room for 16 tail tokens.
    let history = vec![
        user(&text_of_tokens(5)),
        user(&text_of_tokens(5)),
        user(&text_of_tokens(5)),
        user(&text_of_tokens(5)),
    ];
    let window = MessagesManager::load(
        Message::System(text_of_tokens(2)),
        Message::System(text_of_tokens(2)),
        history,
        20,
    )
    .unwrap();
    // 4 + 20 > 20, so exactly the newest tail message was dropped: the
    // remaining messages are the first three, in order.
    assert_eq!(window.get_token_count(), 19);
    let messages = window.get_messages();
    assert_eq!(messages.len(), 2 + 3);
    for m in &messages[2..] {
        match m {
            Message::User(UserContent::Text(t)) => assert_eq!(t.len(), 18),
            _ => panic!("unexpected message kind"),
        }
    }
}

#[test]
fn batch_append_repeats_single_append_semantics() {
    let mut window = MessagesManager::load(
        Message::System(text_of_tokens(2)),
        Message::System(text_of_tokens(2)),
        Vec::new(),
        20,
    )
    .unwrap();
    window.add_conversation_messages(vec![
        user(&text_of_tokens(5)),
        user(&text_of_tokens(5)),
        user(&text_of_tokens(5)),
        user(&text_of_tokens(5)),
    ]);
    assert!(window.get_token_count() <= 20);
    assert_eq!(window.get_messages().len(), 2 + 3);
}

#[test]
fn oversized_instruction_fails_construction() {
    // Budget 20: each fixed block must fit in 20 / 4 = 5 tokens.
    let r = MessagesManager::load(
        Message::System(text_of_tokens(6)),
        Message::System(text_of_tokens(2)),
        Vec::new(),
        20,
    );
    match r {
        Err(Error::TokenTooMuch { current, budget }) => {
            assert_eq!(current, 6);
            assert_eq!(budget, 20);
        },
        _ => panic!("an oversized instruction block must fail construction"),
    }
}

#[test]
fn oversized_book_info_fails_construction() {
    let r = MessagesManager::load(
        Message::System(text_of_tokens(2)),
        Message::System(text_of_tokens(6)),
        Vec::new(),
        20,
    );
    match r {
        Err(Error::TokenTooMuch { current, budget }) => {
            assert_eq!(current, 6);
            assert_eq!(budget, 20);
        },
        _ => panic!("an oversized book-context block must fail construction"),
    }
}

#[test]
fn fitting_blocks_construct() {
    let window = MessagesManager::load(
        Message::System(text_of_tokens(5)),
        Message::System(text_of_tokens(5)),
        Vec::new(),
        20,
    )
    .unwrap();
    assert_eq!(window.get_token_count(), 10);
    let messages = window.get_messages();
    assert_eq!(messages.len(), 2);
}
