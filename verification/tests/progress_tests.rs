//! Progress merging: upsert by description, clearing notes on completion.

use book_server::chapter::ChapterNumber;
use book_server::progress::BookProgress;
use book_server::progress::ChapterObjective;
use book_server::progress::ChapterProgress;
use book_server::progress::ChapterStatus;
use book_server::progress::updated_chapter_progress;

fn objective(
    description: &str,
    completed: bool,
    progress: Option<&str>,
    next_step: Option<&str>,
) -> ChapterObjective {
    ChapterObjective {
        description: description.to_string(),
        completed,
        progress: progress.map(|s| s.to_string()),
        next_step: next_step.map(|s| s.to_string()),
        update_time: 11,
    }
}

fn chapter_progress(number: &str, status: ChapterStatus, objectives: Vec<ChapterObjective>) -> ChapterProgress {
    ChapterProgress {
        chapter_number: ChapterNumber::from_str(number).unwrap(),
        status,
        objectives,
        update_time: 42,
    }
}

#[test]
fn completing_an_objective_clears_its_notes() {
    let mut stored = chapter_progress(
        "3.1",
        ChapterStatus::InProgress,
        vec![
            objective("Learn about the chapter", false, Some("50%"), Some("Re-read")),
            objective("Another objective", false, Some("10%"), None),
        ],
    );
    let update = chapter_progress(
        "3.1",
        ChapterStatus::InProgress,
        vec![objective("Learn about the chapter", true, Some("done"), Some("none"))],
    );
    stored.merge(update);
    assert_eq!(stored.objectives.len(), 2);
    let touched = &stored.objectives[0];
    assert_eq!(touched.description, "Learn about the chapter");
    assert!(touched.completed);
    assert!(touched.progress.is_none());
    assert!(touched.next_step.is_none());
    // The objective not mentioned in the update is left untouched.
    let untouched = &stored.objectives[1];
    assert_eq!(untouched.description, "Another objective");
    assert!(!untouched.completed);
    assert_eq!(untouched.progress.as_deref(), Some("10%"));
}

#[test]
fn merge_never_deletes_and_appends_new_objectives() {
    let mut stored = chapter_progress(
        "2.",
        ChapterStatus::InProgress,
        vec![objective("Old goal", false, Some("30%"), None)],
    );
    let update = chapter_progress(
        "2.",
        ChapterStatus::Completed,
        vec![objective("New goal", false, Some("5%"), Some("start"))],
    );
    stored.merge(update);
    assert_eq!(stored.objectives.len(), 2);
    assert_eq!(stored.objectives[0].description, "Old goal");
    assert_eq!(stored.objectives[1].description, "New goal");
    assert_eq!(stored.status, ChapterStatus::Completed);
    assert_eq!(stored.update_time, 42);
}

#[test]
fn read_merge_write_uses_stored_record_when_present() {
    let stored = chapter_progress(
        "1.",
        ChapterStatus::NotStarted,
        vec![objective("Goal", false, Some("1%"), None)],
    );
    let update = chapter_progress("1.", ChapterStatus::InProgress, vec![]);
    let merged = updated_chapter_progress(Some(stored), update);
    assert_eq!(merged.status, ChapterStatus::InProgress);
    assert_eq!(merged.objectives.len(), 1);

    let fresh = chapter_progress("9.", ChapterStatus::InProgress, vec![]);
    let result = updated_chapter_progress(None, fresh);
    assert_eq!(result.chapter_number.to_text(), "9.");
}

#[test]
fn status_codes_round_trip() {
    assert_eq!(ChapterStatus::NotStarted.code(), 0);
    assert_eq!(ChapterStatus::InProgress.code(), 1);
    assert_eq!(ChapterStatus::Completed.code(), 2);
    assert_eq!(ChapterStatus::from_code(0), ChapterStatus::NotStarted);
    assert_eq!(ChapterStatus::from_code(1), ChapterStatus::InProgress);
    assert_eq!(ChapterStatus::from_code(2), ChapterStatus::Completed);
    assert_eq!(ChapterStatus::from_code(77), ChapterStatus::NotStarted);
}

#[test]
fn memories_stay_unique() {
    let mut progress = BookProgress {
        current_learning_chapter: ChapterNumber::from_str("3.1").unwrap(),
        chapter_progress: Vec::new(),
        memories: Vec::new(),
        update_time: 0,
    };
    progress.add_memory("likes mysteries".to_string());
    progress.add_memory("likes mysteries".to_string());
    progress.add_memory("plays chess".to_string());
    assert_eq!(progress.memories.len(), 2);
}

#[test]
fn tt() {
    let mut chapter_progress = ChapterProgress::default();
    chapter_progress.chapter_number = ChapterNumber::from_str("3.1").unwrap();
    chapter_progress.status = ChapterStatus::InProgress;
    chapter_progress.objectives.push(ChapterObjective {
        description: "Learn about the chapter".to_string(),
        completed: false,
        progress: Some("50%".to_string()),
        next_step: Some("Learn about the chapter".to_string()),
        update_time: 0,
    });
    let mut book_progress = BookProgress {
        current_learning_chapter: ChapterNumber::from_str("3.1").unwrap(),
        chapter_progress: Vec::new(),
        memories: Vec::new(),
        update_time: 0,
    };
    book_progress.insert_chapter(chapter_progress);
    let text = book_progress.to_str();
    println!("{}", text);
}

#[test]
fn book_progress_rendering() {
    let mut progress = BookProgress {
        current_learning_chapter: ChapterNumber::from_str("1.").unwrap(),
        chapter_progress: Vec::new(),
        memories: Vec::new(),
        update_time: 0,
    };
    progress.add_memory("note".to_string());
    progress.insert_chapter(chapter_progress(
        "1.",
        ChapterStatus::InProgress,
        vec![objective("Goal", false, Some("20%"), None)],
    ));
    assert_eq!(
        progress.to_str(),
        "## Book Progress\ncurrent chapter 1.\nchapter 1. status InProgress\n- [ ] Goal (progress: 20%)\nmemories:\n- note\n"
    );
}
