//! Tool dispatch and the full orchestrator turn.

use book_server::book::Book;
use book_server::chapter::Chapter;
use book_server::chapter::ChapterNumber;
use book_server::message::Message;
use book_server::message::ResponseEvent;
use book_server::message::UserContent;
use book_server::progress::BookProgress;
use book_server::reassembler::ToolCallChunk;
use book_server::teacher::instruction_text;
use book_server::teacher::TeacherAgent;
use book_server::teacher::TurnPhase;
use book_server::tools::ToolArgs;
use book_server::tools::ToolInvocation;
use book_server::tools::TutorTools;

fn sample_book() -> Book {
    let chapter = Chapter {
        name: "chapter1".to_string(),
        number: ChapterNumber::from_str("1.").unwrap(),
        parent_names: Vec::new(),
        path: None,
        content: "this is chapter1".to_string(),
    };
    Book::new(1, "book".to_string(), vec![chapter], Vec::new(), None).unwrap()
}

fn empty_progress() -> BookProgress {
    BookProgress {
        current_learning_chapter: ChapterNumber::from_str("1.").unwrap(),
        chapter_progress: Vec::new(),
        memories: Vec::new(),
        update_time: 0,
    }
}

fn invocation(id: &str, name: &str, args: ToolArgs) -> ToolInvocation {
    ToolInvocation { id: id.to_string(), name: name.to_string(), args }
}

#[test]
fn one_found_and_one_unknown_call_yield_two_results() {
    let mut tools = TutorTools { book: sample_book(), progress: empty_progress() };
    let calls = vec![
        invocation(
            "1",
            "GetChapterContent",
            ToolArgs::Chapter(ChapterNumber::from_str("1.").unwrap()),
        ),
        invocation("2", "NoSuchTool", ToolArgs::Empty),
    ];
    let results = tools.dispatch(&calls);
    assert_eq!(results.len(), 2);
    match &results[0] {
        Message::Tool { tool_call_id, content } => {
            assert_eq!(tool_call_id, "1");
            assert_eq!(content, "this is chapter1");
        },
        _ => panic!("dispatch must answer with tool messages"),
    }
    match &results[1] {
        Message::Tool { tool_call_id, content } => {
            assert_eq!(tool_call_id, "2");
            assert_eq!(content, "tool not found");
        },
        _ => panic!("dispatch must answer with tool messages"),
    }
}

#[test]
fn decode_failures_and_lookups_are_absorbed() {
    let mut tools = TutorTools { book: sample_book(), progress: empty_progress() };
    let calls = vec![
        invocation("1", "AddMemory", ToolArgs::Invalid("expected a string".to_string())),
        invocation(
            "2",
            "GetChapterContent",
            ToolArgs::Chapter(ChapterNumber::from_str("9.").unwrap()),
        ),
        invocation("3", "AddMemory", ToolArgs::Memory("likes noir films".to_string())),
    ];
    let results = tools.dispatch(&calls);
    assert_eq!(results.len(), 3);
    match &results[0] {
        Message::Tool { content, .. } => assert_eq!(content, "expected a string"),
        _ => panic!("expected a tool message"),
    }
    match &results[1] {
        Message::Tool { content, .. } => assert_eq!(content, "Chapter not found: 9."),
        _ => panic!("expected a tool message"),
    }
    match &results[2] {
        Message::Tool { content, .. } => assert_eq!(content, "null"),
        _ => panic!("expected a tool message"),
    }
    assert_eq!(tools.progress.memories, vec!["likes noir films".to_string()]);
}

#[test]
fn book_jump_points_at_the_chapter() {
    let mut tools = TutorTools { book: sample_book(), progress: empty_progress() };
    let calls = vec![invocation(
        "1",
        "BookJump",
        ToolArgs::Location(book_server::books::BookLocation {
            chapter_number: ChapterNumber::from_str("1.").unwrap(),
            sector_title: Some("Verbs".to_string()),
        }),
    )];
    let results = tools.dispatch(&calls);
    match &results[0] {
        Message::Tool { content, .. } => assert_eq!(content, "Jumped to 1. chapter1#Verbs"),
        _ => panic!("expected a tool message"),
    }
}

#[test]
fn get_book_progress_reports_the_whole_state() {
    let mut tools = TutorTools { book: sample_book(), progress: empty_progress() };
    let warmup = vec![invocation("1", "AddMemory", ToolArgs::Memory("note".to_string()))];
    tools.dispatch(&warmup);
    let calls = vec![invocation("2", "GetBookProgress", ToolArgs::Empty)];
    let results = tools.dispatch(&calls);
    match &results[0] {
        Message::Tool { content, .. } => {
            assert_eq!(content, "## Book Progress\ncurrent chapter 1.\nmemories:\n- note\n")
        },
        _ => panic!("expected a tool message"),
    }
}

#[test]
fn arguments_of_the_wrong_shape_are_reported() {
    let mut tools = TutorTools { book: sample_book(), progress: empty_progress() };
    let calls = vec![invocation("1", "AddMemory", ToolArgs::Empty)];
    let results = tools.dispatch(&calls);
    match &results[0] {
        Message::Tool { content, .. } => assert_eq!(content, "invalid arguments"),
        _ => panic!("expected a tool message"),
    }
}

fn agent() -> TeacherAgent {
    TeacherAgent::new(
        sample_book(),
        empty_progress(),
        instruction_text("Sam", "book"),
        "## Book Info\nbook".to_string(),
        Vec::new(),
        10_000,
    )
    .unwrap()
}

#[test]
fn construction_fails_before_any_model_call_when_instruction_is_oversized() {
    let r = TeacherAgent::new(
        sample_book(),
        empty_progress(),
        "x".repeat(200),
        "info".to_string(),
        Vec::new(),
        100,
    );
    match r {
        Err(book_server::error::Error::TokenTooMuch { current, budget }) => {
            assert_eq!(current, (200 + 2) / 4);
            assert_eq!(budget, 100);
        },
        _ => panic!("an oversized instruction must fail construction"),
    }
}

#[test]
fn full_turn_emits_tool_call_then_result_then_content() {
    let mut agent = agent();
    let mut observed: Vec<ResponseEvent> = Vec::new();

    agent.begin_input(UserContent::Text("What is Chapter 1 about?".to_string()));
    let (messages, tools) = agent.model_request();
    assert!(messages.len() >= 3);
    assert_eq!(tools.len(), 5);

    // First model turn: the model streams one tool call for chapter 1.
    agent.stream_begin();
    agent.on_tool_call_chunk(ToolCallChunk {
        index: 0,
        id: Some("call-1".to_string()),
        name: Some("GetChapterContent".to_string()),
        arguments: Some("\"1.\"".to_string()),
    });
    let mut events = agent.stream_end();
    observed.append(&mut events);
    assert_eq!(agent.get_phase(), TurnPhase::DispatchingTools);

    // The edge decodes the pending calls and hands the invocations back.
    let pending = agent.get_pending_calls();
    assert_eq!(pending.len(), 1);
    assert_eq!(pending[0].arguments, "\"1.\"");
    let invocations = vec![invocation(
        "call-1",
        "GetChapterContent",
        ToolArgs::Chapter(ChapterNumber::from_str("1.").unwrap()),
    )];
    let mut events = agent.dispatch_tools(&invocations);
    observed.append(&mut events);
    assert_eq!(agent.get_phase(), TurnPhase::AwaitingModel);

    // Second model turn: plain content, no tool calls.
    agent.stream_begin();
    let ev = agent.on_content_delta("It is about ".to_string());
    observed.push(ev);
    let ev = agent.on_content_delta("chapter one.".to_string());
    observed.push(ev);
    let mut events = agent.stream_end();
    observed.append(&mut events);
    assert_eq!(agent.get_phase(), TurnPhase::Done);

    // The listener saw: the tool call, then its result, then the content.
    assert_eq!(observed.len(), 4);
    match &observed[0] {
        ResponseEvent::ToolCall(call) => assert_eq!(call.name, "GetChapterContent"),
        _ => panic!("the first event must be the tool call"),
    }
    match &observed[1] {
        ResponseEvent::ToolResult { tool_call_id, content } => {
            assert_eq!(tool_call_id, "call-1");
            assert_eq!(content, "this is chapter1");
        },
        _ => panic!("the second event must be the tool result"),
    }
    match &observed[2] {
        ResponseEvent::Content(text) => assert_eq!(text, "It is about "),
        _ => panic!("the third event must be content"),
    }
    match &observed[3] {
        ResponseEvent::Content(text) => assert_eq!(text, "chapter one."),
        _ => panic!("the fourth event must be content"),
    }
}

#[test]
fn refusals_are_reported_once_after_the_stream_ends() {
    let mut agent = agent();
    agent.begin_input(UserContent::Text("hi".to_string()));
    agent.stream_begin();
    agent.on_refusal_delta("I cannot ".to_string());
    agent.on_refusal_delta("help with that.".to_string());
    let events = agent.stream_end();
    assert_eq!(events.len(), 1);
    match &events[0] {
        ResponseEvent::Refusal(text) => assert_eq!(text, "I cannot help with that."),
        _ => panic!("the refusal must be reported as one event"),
    }
    assert_eq!(agent.get_phase(), TurnPhase::Done);
}

#[test]
fn progress_update_merges_into_the_stored_record() {
    let mut agent = agent();
    let update = book_server::progress::ChapterProgress {
        chapter_number: ChapterNumber::from_str("1.").unwrap(),
        status: book_server::progress::ChapterStatus::InProgress,
        objectives: vec![book_server::progress::ChapterObjective {
            description: "Read it".to_string(),
            completed: true,
            progress: Some("half".to_string()),
            next_step: Some("finish".to_string()),
            update_time: 5,
        }],
        update_time: 5,
    };
    let result = agent.run_tool(&invocation("9", "ProgressUpdate", ToolArgs::Progress(update)));
    match &result {
        Message::Tool { tool_call_id, content } => {
            assert_eq!(tool_call_id, "9");
            // The completed objective's notes come out cleared.
            assert_eq!(content, "chapter 1. status InProgress\n- [x] Read it\n");
        },
        _ => panic!("expected a tool message"),
    }
}
