//! The JSON-encoded memory-note set.

use book_server::memory::memory_notes_from_json;
use book_server::memory::merge_memory_json;

#[test]
fn a_new_note_is_appended_to_the_stored_list() {
    let out = merge_memory_json("[]", "likes noir films").unwrap();
    assert_eq!(out, "[\"likes noir films\"]");
    let out = merge_memory_json("[\"a\"]", "b").unwrap();
    assert_eq!(out, "[\"a\",\"b\"]");
}

#[test]
fn a_present_note_changes_nothing() {
    let out = merge_memory_json("[\"a\",\"b\"]", "a").unwrap();
    assert_eq!(out, "[\"a\",\"b\"]");
}

#[test]
fn text_that_is_not_a_string_list_is_rejected() {
    assert!(merge_memory_json("not json", "a").is_err());
    assert!(merge_memory_json("{\"a\":1}", "a").is_err());
    let err = merge_memory_json("[1,2]", "a");
    match err {
        Err(e) => assert_eq!(e.message(), "Fatal error: memory set is not a JSON list"),
        Ok(_) => panic!("a list of numbers is not a note set"),
    }
}

#[test]
fn notes_with_escapes_round_trip_through_the_encoding() {
    let out = merge_memory_json("[]", "says \"hi\"\noften").unwrap();
    // The encoder must escape the quote and the newline; handing the note
    // back unchanged would not parse.
    assert_eq!(out, "[\"says \\\"hi\\\"\\noften\"]");
    let out2 = merge_memory_json(&out, "says \"hi\"\noften").unwrap();
    assert_eq!(out2, out);
}

#[test]
fn stored_note_sets_decode_back_to_their_notes() {
    let notes = memory_notes_from_json("[\"a\",\"b\"]").unwrap();
    assert_eq!(notes, vec!["a".to_string(), "b".to_string()]);
    assert!(memory_notes_from_json("{}").is_err());
}
