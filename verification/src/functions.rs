//! Study-progress request and response shapes of the older service surface.

use crate::chapter::ChapterNumber;
use vstd::prelude::*;

verus! {

/// How far a chapter has come, in the older surface's terms.
#[derive(Debug, Clone, Copy, PartialEq, Eq, Structural)]
pub enum ChapterStatus {
    /// The chapter has not been opened yet.
    NotStarted,
    /// The chapter is being studied.
    InProgress,
    /// The chapter has been finished.
    Completed,
}

/// A chapter's progress, in the older surface's terms.
#[derive(Debug)]
pub struct ChapterProgress {
    /// The chapter this progress belongs to.
    pub section_number: ChapterNumber,
    /// How far the chapter has come.
    pub status: ChapterStatus,
    /// A free-text description of the progress.
    pub description: String,
}

/// A study-progress report.
#[derive(Debug)]
pub struct StudyProgressResponse {
    /// The study plan in force.
    pub plan: String,
    /// Overall progress, in prose.
    pub overall_progress: String,
    /// Progress in the current chapter, when any.
    pub chapter_progress: Option<String>,
}

/// A request to record study progress.
#[derive(Debug)]
pub struct UpdateStudyProgressRequest {
    /// The student whose progress is recorded.
    pub student_id: i64,
    /// The book the progress belongs to.
    pub book_id: i64,
    /// The chapter the progress is about.
    pub chapter_index: String,
    /// The status code to record.
    pub status: i8,
    /// A free-text description of the progress.
    pub description: String,
}

/// A request to replace a study plan.
#[derive(Debug)]
pub struct UpdateStudyPlanRequest {
    /// The student whose plan is replaced.
    pub student_id: i64,
    /// The book the plan belongs to.
    pub book_id: i64,
    /// The new plan text.
    pub plan: String,
}

} // verus!
