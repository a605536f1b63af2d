//! Streamed tool-call fragments reassemble into complete calls.

use book_server::reassembler::ToolCallChunk;
use book_server::reassembler::ToolCallStreamManager;

fn opening(index: u32, id: &str, name: &str, arguments: &str) -> ToolCallChunk {
    ToolCallChunk {
        index,
        id: Some(id.to_string()),
        name: Some(name.to_string()),
        arguments: Some(arguments.to_string()),
    }
}

fn continuation(index: u32, arguments: &str) -> ToolCallChunk {
    ToolCallChunk { index, id: None, name: None, arguments: Some(arguments.to_string()) }
}

#[test]
fn single_slot_concatenates_fragments_in_order() {
    let mut manager = ToolCallStreamManager::new();
    manager.merge_chunk(opening(0, "call-1", "GetChapterContent", "{\"chap"));
    manager.merge_chunk(continuation(0, "ter\": \"1"));
    manager.merge_chunk(continuation(0, ".\"}"));
    let calls = manager.get_tool_calls();
    assert_eq!(calls.len(), 1);
    assert_eq!(calls[0].id, "call-1");
    assert_eq!(calls[0].name, "GetChapterContent");
    assert_eq!(calls[0].arguments, "{\"chapter\": \"1.\"}");
}

#[test]
fn interleaved_slots_stay_separate() {
    let mut manager = ToolCallStreamManager::new();
    manager.merge_chunks(vec![
        opening(0, "a", "AddMemory", "\"x"),
        opening(1, "b", "BookJump", "{"),
        continuation(0, "y\""),
        continuation(1, "}"),
    ]);
    let calls = manager.get_tool_calls();
    assert_eq!(calls.len(), 2);
    let a = calls.iter().find(|c| c.id == "a").unwrap();
    let b = calls.iter().find(|c| c.id == "b").unwrap();
    assert_eq!(a.arguments, "\"xy\"");
    assert_eq!(b.arguments, "{}");
}

#[test]
fn malformed_first_fragment_is_discarded() {
    let mut manager = ToolCallStreamManager::new();
    // First sight of a slot without id or name: dropped, not stored.
    manager.merge_chunk(continuation(3, "orphan"));
    let mut manager2 = ToolCallStreamManager::new();
    manager2.merge_chunk(ToolCallChunk {
        index: 4,
        id: Some("d".to_string()),
        name: None,
        arguments: Some("x".to_string()),
    });
    assert!(manager.get_tool_calls().is_empty());
    assert!(manager2.get_tool_calls().is_empty());
}

#[test]
fn drain_empties_the_reassembler() {
    let mut manager = ToolCallStreamManager::new();
    manager.merge_chunk(opening(0, "a", "AddMemory", "\"m\""));
    let first = manager.drain();
    assert_eq!(first.len(), 1);
    let second = manager.drain();
    assert!(second.is_empty());
}
