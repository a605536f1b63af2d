//! Per-chapter learning progress and per-book study state.
//!
//! Progress updates never delete existing objectives: an update upserts each
//! of its objectives by description, and an objective marked completed has
//! its progress and next-step notes cleared. Memory notes form a
//! uniqueness-preserving, append-only set.

use crate::chapter::chapter_number_text;
use crate::chapter::ChapterNumber;
use vstd::prelude::*;
use vstd::string::StringExecFns;

verus! {

/// How far a student has come in one chapter.
#[derive(Debug, Clone, Copy, PartialEq, Eq, Structural)]
pub enum ChapterStatus {
    /// The chapter has not been opened yet.
    NotStarted,
    /// The chapter is being studied.
    InProgress,
    /// The chapter has been finished.
    Completed,
}

impl ChapterStatus {
    /// The stable integer code this status is stored under.
    pub open spec fn spec_code(&self) -> i64 {
        match self {
            ChapterStatus::NotStarted => 0,
            ChapterStatus::InProgress => 1,
            ChapterStatus::Completed => 2,
        }
    }

    /// Returns the stable integer code of this status.
    pub fn code(&self) -> (r: i64)
        ensures
            r == self.spec_code(),
    {
        match self {
            ChapterStatus::NotStarted => 0,
            ChapterStatus::InProgress => 1,
            ChapterStatus::Completed => 2,
        }
    }

    /// Reads a status back from its stored code; unknown codes fall back to
    /// not started.
    pub fn from_code(value: i64) -> (r: ChapterStatus)
        ensures
            value == 0 ==> r == ChapterStatus::NotStarted,
            value == 1 ==> r == ChapterStatus::InProgress,
            value == 2 ==> r == ChapterStatus::Completed,
            !(0 <= value <= 2) ==> r == ChapterStatus::NotStarted,
    {
        if value == 1 {
            ChapterStatus::InProgress
        } else if value == 2 {
            ChapterStatus::Completed
        } else {
            ChapterStatus::NotStarted
        }
    }
}

/// One learning objective within a chapter. Objectives are identified by
/// their description.
#[derive(Debug)]
pub struct ChapterObjective {
    /// The text of the objective; objectives are keyed by it.
    pub description: String,
    /// Whether the objective has been completed.
    pub completed: bool,
    /// The current progress note; cleared once the objective is completed.
    pub progress: Option<String>,
    /// The suggested next step; cleared once the objective is completed.
    pub next_step: Option<String>,
    /// When the objective was last updated, as a timestamp.
    pub update_time: i64,
}

/// The mathematical content of a [`ChapterObjective`].
pub struct ChapterObjectiveV {
    /// The text of the objective.
    pub description: Seq<char>,
    /// Whether the objective has been completed.
    pub completed: bool,
    /// The current progress note, when any.
    pub progress: Option<Seq<char>>,
    /// The suggested next step, when any.
    pub next_step: Option<Seq<char>>,
    /// When the objective was last updated.
    pub update_time: i64,
}

/// The view of an optional note.
pub open spec fn note_view(s: Option<String>) -> Option<Seq<char>> {
    match s {
        Some(t) => Some(t@),
        None => None,
    }
}

impl View for ChapterObjective {
    type V = ChapterObjectiveV;

    open spec fn view(&self) -> ChapterObjectiveV {
        ChapterObjectiveV {
            description: self.description@,
            completed: self.completed,
            progress: note_view(self.progress),
            next_step: note_view(self.next_step),
            update_time: self.update_time,
        }
    }
}

impl DeepView for ChapterObjective {
    type V = ChapterObjectiveV;

    open spec fn deep_view(&self) -> ChapterObjectiveV {
        self.view()
    }
}

impl Clone for ChapterObjective {
    /// Cloning keeps the objective's contents.
    fn clone(&self) -> (r: Self)
        ensures
            r@ == self@,
    {
        ChapterObjective {
            description: self.description.clone(),
            completed: self.completed,
            progress: self.progress.clone(),
            next_step: self.next_step.clone(),
            update_time: self.update_time,
        }
    }
}

/// No two objectives share a description.
pub open spec fn objectives_unique(s: Seq<ChapterObjectiveV>) -> bool {
    forall|j: int, k: int|
        0 <= j < k < s.len() ==> (#[trigger] s[j]).description != (#[trigger] s[k]).description
}

/// The position of the objective with the given description, or `-1` when
/// none exists.
pub open spec fn find_objective(s: Seq<ChapterObjectiveV>, description: Seq<char>) -> int
    decreases s.len(),
{
    if s.len() == 0 {
        -1
    } else if s[0].description == description {
        0
    } else {
        let r = find_objective(s.drop_first(), description);
        if r < 0 {
            -1
        } else {
            1 + r
        }
    }
}

/// `find_objective` finds the first objective with the description, and
/// fails exactly when none has it.
pub proof fn lemma_find_objective(s: Seq<ChapterObjectiveV>, description: Seq<char>)
    ensures
        find_objective(s, description) == -1 ==> forall|j: int|
            0 <= j < s.len() ==> (#[trigger] s[j]).description != description,
        find_objective(s, description) >= 0 ==> {
            &&& find_objective(s, description) < s.len()
            &&& s[find_objective(s, description)].description == description
            &&& forall|j: int|
                0 <= j < find_objective(s, description) ==> (#[trigger] s[j]).description
                    != description
        },
    decreases s.len(),
{
    if s.len() == 0 {
    } else if s[0].description == description {
    } else {
        lemma_find_objective(s.drop_first(), description);
        let r = find_objective(s.drop_first(), description);
        if r < 0 {
            assert forall|j: int| 0 <= j < s.len() implies (#[trigger] s[j]).description
                != description by {
                if j > 0 {
                    assert(s.drop_first()[j - 1].description != description);
                }
            }
        } else {
            assert forall|j: int| 0 <= j < find_objective(s, description) implies (
            #[trigger] s[j]).description != description by {
                if j > 0 {
                    assert(s.drop_first()[j - 1].description != description);
                }
            }
        }
    }
}

/// An incoming objective, normalized: once completed, its progress and
/// next-step notes are cleared.
pub open spec fn normalize_objective(o: ChapterObjectiveV) -> ChapterObjectiveV {
    if o.completed {
        ChapterObjectiveV { progress: None, next_step: None, ..o }
    } else {
        o
    }
}

/// Upserting one objective by description: an existing objective with the
/// same description is replaced in place, a new one is appended. Nothing is
/// ever deleted.
pub open spec fn upsert_objective(s: Seq<ChapterObjectiveV>, o: ChapterObjectiveV) -> Seq<
    ChapterObjectiveV,
> {
    let k = find_objective(s, o.description);
    if k >= 0 {
        s.update(k, o)
    } else {
        s.push(o)
    }
}

/// The objective list after merging in a whole update, objective by
/// objective in order.
pub open spec fn merge_objectives(s: Seq<ChapterObjectiveV>, os: Seq<ChapterObjectiveV>) -> Seq<
    ChapterObjectiveV,
>
    decreases os.len(),
{
    if os.len() == 0 {
        s
    } else {
        merge_objectives(upsert_objective(s, normalize_objective(os.first())), os.drop_first())
    }
}

proof fn lemma_merge_objectives_snoc(
    s: Seq<ChapterObjectiveV>,
    os: Seq<ChapterObjectiveV>,
    o: ChapterObjectiveV,
)
    ensures
        merge_objectives(s, os.push(o)) == upsert_objective(
            merge_objectives(s, os),
            normalize_objective(o),
        ),
    decreases os.len(),
{
    let whole = os.push(o);
    assert(whole.len() > 0);
    assert(merge_objectives(s, whole) == merge_objectives(
        upsert_objective(s, normalize_objective(whole.first())),
        whole.drop_first(),
    ));
    if os.len() == 0 {
        assert(whole.first() == o);
        assert(whole.drop_first() =~= Seq::<ChapterObjectiveV>::empty());
        assert(merge_objectives(
            upsert_objective(s, normalize_objective(o)),
            Seq::<ChapterObjectiveV>::empty(),
        ) == upsert_objective(s, normalize_objective(o)));
        assert(merge_objectives(s, os) == s);
    } else {
        assert(whole.first() == os.first());
        assert(whole.drop_first() =~= os.drop_first().push(o));
        lemma_merge_objectives_snoc(
            upsert_objective(s, normalize_objective(os.first())),
            os.drop_first(),
            o,
        );
        assert(merge_objectives(s, os) == merge_objectives(
            upsert_objective(s, normalize_objective(os.first())),
            os.drop_first(),
        ));
    }
}

/// Upserting keeps descriptions unique.
pub proof fn lemma_upsert_keeps_unique(s: Seq<ChapterObjectiveV>, o: ChapterObjectiveV)
    requires
        objectives_unique(s),
    ensures
        objectives_unique(upsert_objective(s, o)),
{
    lemma_find_objective(s, o.description);
    let r = upsert_objective(s, o);
    let k = find_objective(s, o.description);
    if k >= 0 {
        assert forall|i: int, j: int|
            0 <= i < j < r.len() implies (#[trigger] r[i]).description != (
        #[trigger] r[j]).description by {
            if i != k && j != k {
                assert(r[i] == s[i] && r[j] == s[j]);
            } else if i == k {
                assert(r[j] == s[j] && s[k].description == o.description);
            } else {
                assert(r[i] == s[i] && s[k].description == o.description);
            }
        }
    } else {
        assert forall|i: int, j: int|
            0 <= i < j < r.len() implies (#[trigger] r[i]).description != (
        #[trigger] r[j]).description by {
            if j == s.len() {
                assert(r[i] == s[i] && r[j] == o);
            } else {
                assert(r[i] == s[i] && r[j] == s[j]);
            }
        }
    }
}

/// Merging an update whose objective already exists by description replaces
/// exactly that objective and touches no other; when the update marks it
/// completed, its progress and next-step notes come out cleared and its
/// completed flag set. An objective new to the list is appended, normalized
/// the same way.
pub proof fn lemma_upsert_objective_effect(s: Seq<ChapterObjectiveV>, o: ChapterObjectiveV)
    ensures
        ({
            let r = upsert_objective(s, normalize_objective(o));
            let k = find_objective(s, o.description);
            &&& k >= 0 ==> {
                &&& r.len() == s.len()
                &&& s[k].description == o.description
                &&& r[k] == normalize_objective(o)
                &&& forall|j: int| 0 <= j < s.len() && j != k ==> #[trigger] r[j] == s[j]
            }
            &&& k == -1 ==> r == s.push(normalize_objective(o))
            &&& o.completed ==> {
                let m = if k >= 0 {
                    r[k]
                } else {
                    r.last()
                };
                m.completed && m.progress is None && m.next_step is None
            }
        }),
{
    lemma_find_objective(s, o.description);
    assert(normalize_objective(o).description == o.description);
}

/// A student's progress through one chapter.
#[derive(Debug)]
pub struct ChapterProgress {
    /// The chapter this progress belongs to.
    pub chapter_number: ChapterNumber,
    /// How far the chapter has come.
    pub status: ChapterStatus,
    /// The chapter's learning objectives, unique by description.
    pub objectives: Vec<ChapterObjective>,
    /// When the chapter progress was last updated, as a timestamp.
    pub update_time: i64,
}

/// The mathematical content of a [`ChapterProgress`].
pub struct ChapterProgressV {
    /// The chapter this progress belongs to.
    pub chapter_number: Seq<i64>,
    /// How far the chapter has come.
    pub status: ChapterStatus,
    /// The chapter's learning objectives.
    pub objectives: Seq<ChapterObjectiveV>,
    /// When the chapter progress was last updated.
    pub update_time: i64,
}

impl View for ChapterProgress {
    type V = ChapterProgressV;

    open spec fn view(&self) -> ChapterProgressV {
        ChapterProgressV {
            chapter_number: self.chapter_number@,
            status: self.status,
            objectives: self.objectives.deep_view(),
            update_time: self.update_time,
        }
    }
}

impl DeepView for ChapterProgress {
    type V = ChapterProgressV;

    open spec fn deep_view(&self) -> ChapterProgressV {
        self.view()
    }
}

impl Clone for ChapterProgress {
    /// Cloning keeps the progress record's contents.
    fn clone(&self) -> (r: Self)
        ensures
            r@ == self@,
    {
        let mut objectives: Vec<ChapterObjective> = Vec::new();
        let n = self.objectives.len();
        let mut i: usize = 0;
        while i < n
            invariant
                0 <= i <= n,
                n == self.objectives@.len(),
                objectives@.len() == i,
                objectives.deep_view() == self.objectives.deep_view().take(i as int),
            decreases n - i,
        {
            let ghost pre = objectives.deep_view();
            let item = self.objectives[i].clone();
            proof {
                assert(item.deep_view() == self.objectives.deep_view()[i as int]);
            }
            objectives.push(item);
            proof {
                assert forall|k: int| 0 <= k < pre.len() implies #[trigger] objectives.deep_view()[k]
                    == pre[k] by {
                    assert(objectives.deep_view()[k] == objectives@[k].deep_view());
                }
                assert(objectives.deep_view() =~= self.objectives.deep_view().take(i + 1));
            }
            i = i + 1;
        }
        proof {
            assert(self.objectives.deep_view().take(n as int) =~= self.objectives.deep_view());
        }
        ChapterProgress {
            chapter_number: self.chapter_number.clone(),
            status: self.status,
            objectives,
            update_time: self.update_time,
        }
    }
}

impl Default for ChapterProgress {
    /// An empty progress record: no chapter, not started, no objectives.
    fn default() -> (r: Self)
        ensures
            r@.chapter_number == Seq::<i64>::empty(),
            r@.status == ChapterStatus::NotStarted,
            r@.objectives == Seq::<ChapterObjectiveV>::empty(),
            r@.update_time == 0,
    {
        let r = ChapterProgress {
            chapter_number: ChapterNumber::new(),
            status: ChapterStatus::NotStarted,
            objectives: Vec::new(),
            update_time: 0,
        };
        proof {
            assert(r@.objectives =~= Seq::<ChapterObjectiveV>::empty());
        }
        r
    }
}

impl ChapterProgress {
    /// Whether the objective list has unique descriptions.
    pub open spec fn wf(&self) -> bool {
        objectives_unique(self@.objectives)
    }

    /// Merges an update into this record: the status and update time are
    /// taken from the update, and each of its objectives is upserted by
    /// description, with the notes of completed objectives cleared.
    /// Objectives not mentioned in the update are left untouched.
    pub fn merge(&mut self, other: ChapterProgress)
        requires
            old(self).wf(),
        ensures
            final(self).wf(),
            final(self)@.chapter_number == old(self)@.chapter_number,
            final(self)@.status == other@.status,
            final(self)@.update_time == other@.update_time,
            final(self)@.objectives == merge_objectives(old(self)@.objectives, other@.objectives),
    {
        self.status = other.status;
        let n = other.objectives.len();
        let ghost incoming = other.objectives.deep_view();
        let mut i: usize = 0;
        proof {
            assert(incoming.take(0) =~= Seq::<ChapterObjectiveV>::empty());
        }
        while i < n
            invariant
                0 <= i <= n,
                n == other.objectives@.len(),
                incoming == other.objectives.deep_view(),
                objectives_unique(self.objectives.deep_view()),
                self.objectives.deep_view() == merge_objectives(
                    old(self)@.objectives,
                    incoming.take(i as int),
                ),
                self.chapter_number@ == old(self)@.chapter_number,
                self.status == other.status,
                self.update_time == old(self).update_time,
            decreases n - i,
        {
            let mut objective = other.objectives[i].clone();
            proof {
                assert(objective.deep_view() == incoming[i as int]);
            }
            if objective.completed {
                objective.progress = None;
                objective.next_step = None;
            }
            proof {
                assert(objective@ == normalize_objective(incoming[i as int]));
            }
            self.upsert(objective);
            proof {
                lemma_merge_objectives_snoc(
                    old(self)@.objectives,
                    incoming.take(i as int),
                    incoming[i as int],
                );
                assert(incoming.take(i as int).push(incoming[i as int]) =~= incoming.take(i + 1));
            }
            i = i + 1;
        }
        proof {
            assert(incoming.take(n as int) =~= incoming);
        }
        self.update_time = other.update_time;
    }

    /// Replaces the objective with the same description, or appends the
    /// objective when its description is new.
    fn upsert(&mut self, objective: ChapterObjective)
        requires
            objectives_unique(old(self)@.objectives),
        ensures
            final(self)@.objectives == upsert_objective(old(self)@.objectives, objective@),
            objectives_unique(final(self)@.objectives),
            final(self).chapter_number == old(self).chapter_number,
            final(self).status == old(self).status,
            final(self).update_time == old(self).update_time,
    {
        let ghost pre = self.objectives.deep_view();
        let ghost ov = objective@;
        proof {
            lemma_find_objective(pre, ov.description);
            lemma_upsert_keeps_unique(pre, ov);
        }
        let n = self.objectives.len();
        let mut k: usize = 0;
        loop
            invariant
                0 <= k <= n,
                n == self.objectives@.len(),
                pre == self.objectives.deep_view(),
                forall|j: int| 0 <= j < k ==> (#[trigger] pre[j]).description != ov.description,
                objective@ == ov,
            ensures
                0 <= k <= n,
                pre == self.objectives.deep_view(),
                forall|j: int| 0 <= j < k ==> (#[trigger] pre[j]).description != ov.description,
                k < n ==> pre[k as int].description == ov.description,
                objective@ == ov,
            decreases n - k,
        {
            if k >= n {
                break ;
            }
            proof {
                assert(pre[k as int] == self.objectives@[k as int].deep_view());
            }
            if self.objectives[k].description == objective.description {
                break ;
            }
            k = k + 1;
        }
        if k < n {
            proof {
                assert(find_objective(pre, ov.description) == k) by {
                    if find_objective(pre, ov.description) < 0 {
                        assert(pre[k as int].description != ov.description);
                    } else {
                        if find_objective(pre, ov.description) < k {
                            assert(pre[find_objective(pre, ov.description)].description
                                != ov.description);
                        }
                        if find_objective(pre, ov.description) > k {
                            assert(pre[k as int].description != ov.description);
                        }
                    }
                }
            }
            self.objectives.set(k, objective);
            proof {
                assert forall|j: int|
                    0 <= j < pre.len() && j != k implies #[trigger] self.objectives.deep_view()[j]
                    == pre[j] by {
                    assert(self.objectives.deep_view()[j] == self.objectives@[j].deep_view());
                }
                assert(self.objectives.deep_view()[k as int] == ov);
                assert(self.objectives.deep_view() =~= upsert_objective(pre, ov));
            }
        } else {
            proof {
                assert(find_objective(pre, ov.description) == -1) by {
                    if find_objective(pre, ov.description) >= 0 {
                        assert(pre[find_objective(pre, ov.description)].description
                            != ov.description);
                    }
                }
            }
            self.objectives.push(objective);
            proof {
                assert forall|j: int| 0 <= j < pre.len() implies #[trigger] self.objectives.deep_view()[j]
                    == pre[j] by {
                    assert(self.objectives.deep_view()[j] == self.objectives@[j].deep_view());
                }
                assert(self.objectives.deep_view()[pre.len() as int] == ov);
                assert(self.objectives.deep_view() =~= upsert_objective(pre, ov));
            }
        }
    }
}

/// The read-merge-write step of persisting a progress update: merge into the
/// stored record when one exists, otherwise the update is stored as it is.
pub fn updated_chapter_progress(stored: Option<ChapterProgress>, update: ChapterProgress) -> (r:
    ChapterProgress)
    requires
        stored matches Some(s) ==> objectives_unique(s@.objectives),
    ensures
        match stored {
            Some(s) => {
                &&& r@.chapter_number == s@.chapter_number
                &&& r@.status == update@.status
                &&& r@.update_time == update@.update_time
                &&& r@.objectives == merge_objectives(s@.objectives, update@.objectives)
                &&& objectives_unique(r@.objectives)
            },
            None => r@ == update@,
        },
{
    match stored {
        Some(mut s) => {
            s.merge(update);
            s
        },
        None => update,
    }
}


// ---------------------------------------------------------------------------
// Book-level progress
// ---------------------------------------------------------------------------

/// No two memory notes are the same.
pub open spec fn memories_unique(s: Seq<Seq<char>>) -> bool {
    forall|j: int, k: int| 0 <= j < k < s.len() ==> s[j] != s[k]
}

/// Inserting a note into the uniqueness-preserving memory set: a note that
/// is already present leaves the set unchanged, a new note is appended.
pub open spec fn insert_memory(s: Seq<Seq<char>>, m: Seq<char>) -> Seq<Seq<char>> {
    if s.contains(m) {
        s
    } else {
        s.push(m)
    }
}

/// No two chapter records cover the same chapter.
pub open spec fn chapters_unique(s: Seq<ChapterProgressV>) -> bool {
    forall|j: int, k: int|
        0 <= j < k < s.len() ==> (#[trigger] s[j]).chapter_number != (
        #[trigger] s[k]).chapter_number
}

/// The position of the record for the given chapter, or `-1` when none
/// exists.
pub open spec fn find_chapter_record(s: Seq<ChapterProgressV>, number: Seq<i64>) -> int
    decreases s.len(),
{
    if s.len() == 0 {
        -1
    } else if s[0].chapter_number == number {
        0
    } else {
        let r = find_chapter_record(s.drop_first(), number);
        if r < 0 {
            -1
        } else {
            1 + r
        }
    }
}

/// `find_chapter_record` finds the first record for the chapter, and fails
/// exactly when there is none.
pub proof fn lemma_find_chapter_record(s: Seq<ChapterProgressV>, number: Seq<i64>)
    ensures
        find_chapter_record(s, number) == -1 ==> forall|j: int|
            0 <= j < s.len() ==> (#[trigger] s[j]).chapter_number != number,
        find_chapter_record(s, number) >= 0 ==> {
            &&& find_chapter_record(s, number) < s.len()
            &&& s[find_chapter_record(s, number)].chapter_number == number
            &&& forall|j: int|
                0 <= j < find_chapter_record(s, number) ==> (#[trigger] s[j]).chapter_number
                    != number
        },
    decreases s.len(),
{
    if s.len() == 0 {
    } else if s[0].chapter_number == number {
    } else {
        lemma_find_chapter_record(s.drop_first(), number);
        let r = find_chapter_record(s.drop_first(), number);
        if r < 0 {
            assert forall|j: int| 0 <= j < s.len() implies (#[trigger] s[j]).chapter_number
                != number by {
                if j > 0 {
                    assert(s.drop_first()[j - 1].chapter_number != number);
                }
            }
        } else {
            assert forall|j: int|
                0 <= j < find_chapter_record(s, number) implies (#[trigger] s[j]).chapter_number
                != number by {
                if j > 0 {
                    assert(s.drop_first()[j - 1].chapter_number != number);
                }
            }
        }
    }
}

/// Upserting a chapter record: an existing record for the same chapter is
/// replaced, a new chapter's record is appended.
pub open spec fn upsert_chapter_record(s: Seq<ChapterProgressV>, cp: ChapterProgressV) -> Seq<
    ChapterProgressV,
> {
    let k = find_chapter_record(s, cp.chapter_number);
    if k >= 0 {
        s.update(k, cp)
    } else {
        s.push(cp)
    }
}

/// A student's progress through one book.
#[derive(Debug)]
pub struct BookProgress {
    /// The chapter the student is currently engaged with.
    pub current_learning_chapter: ChapterNumber,
    /// Progress for each chapter the student has touched, unique by chapter.
    pub chapter_progress: Vec<ChapterProgress>,
    /// Free-text notes recorded to personalize future turns.
    pub memories: Vec<String>,
    /// When the book progress was last updated, as a timestamp.
    pub update_time: i64,
}

/// The mathematical content of a [`BookProgress`].
pub struct BookProgressV {
    /// The chapter the student is currently engaged with.
    pub current_learning_chapter: Seq<i64>,
    /// Progress for each chapter the student has touched.
    pub chapter_progress: Seq<ChapterProgressV>,
    /// Free-text notes recorded to personalize future turns.
    pub memories: Seq<Seq<char>>,
    /// When the book progress was last updated.
    pub update_time: i64,
}

impl View for BookProgress {
    type V = BookProgressV;

    open spec fn view(&self) -> BookProgressV {
        BookProgressV {
            current_learning_chapter: self.current_learning_chapter@,
            chapter_progress: self.chapter_progress.deep_view(),
            memories: self.memories.deep_view(),
            update_time: self.update_time,
        }
    }
}

impl BookProgress {
    /// Whether chapter records and memory notes are free of duplicates.
    pub open spec fn wf(&self) -> bool {
        &&& chapters_unique(self@.chapter_progress)
        &&& memories_unique(self@.memories)
    }

    /// Records a memory note. The note set is append-only and keeps its
    /// entries unique: a note already present changes nothing.
    pub fn add_memory(&mut self, memory: String)
        requires
            memories_unique(old(self)@.memories),
        ensures
            final(self)@.memories == insert_memory(old(self)@.memories, memory@),
            memories_unique(final(self)@.memories),
            final(self)@.current_learning_chapter == old(self)@.current_learning_chapter,
            final(self)@.chapter_progress == old(self)@.chapter_progress,
            final(self)@.update_time == old(self)@.update_time,
    {
        let ghost pre = self.memories.deep_view();
        let n = self.memories.len();
        let mut i: usize = 0;
        loop
            invariant
                0 <= i <= n,
                n == self.memories@.len(),
                pre == self.memories.deep_view(),
                forall|j: int| 0 <= j < i ==> pre[j] != memory@,
            ensures
                0 <= i <= n,
                pre == self.memories.deep_view(),
                forall|j: int| 0 <= j < i ==> pre[j] != memory@,
                i < n ==> pre[i as int] == memory@,
            decreases n - i,
        {
            if i >= n {
                break ;
            }
            proof {
                assert(pre[i as int] == self.memories@[i as int].deep_view());
            }
            if self.memories[i].eq(&memory) {
                break ;
            }
            i = i + 1;
        }
        if i < n {
            proof {
                assert(pre.contains(memory@));
                assert(insert_memory(pre, memory@) == pre);
            }
        } else {
            proof {
                if pre.contains(memory@) {
                    let w = choose|w: int| 0 <= w < pre.len() && pre[w] == memory@;
                    assert(pre[w] != memory@);
                }
            }
            let ghost mv = memory@;
            self.memories.push(memory);
            proof {
                assert forall|j: int| 0 <= j < pre.len() implies #[trigger] self.memories.deep_view()[j]
                    == pre[j] by {
                    assert(self.memories.deep_view()[j] == self.memories@[j].deep_view());
                }
                assert(self.memories.deep_view()[pre.len() as int] == mv);
                assert(self.memories.deep_view() =~= pre.push(mv));
                assert forall|j: int, k: int|
                    0 <= j < k < self.memories.deep_view().len() implies self.memories.deep_view()[j]
                    != self.memories.deep_view()[k] by {
                    if k == pre.len() {
                        assert(pre[j] != mv);
                    }
                }
            }
        }
    }

    /// Stores a chapter's progress record, replacing any record already held
    /// for that chapter.
    pub fn insert_chapter(&mut self, cp: ChapterProgress)
        requires
            chapters_unique(old(self)@.chapter_progress),
        ensures
            final(self)@.chapter_progress == upsert_chapter_record(
                old(self)@.chapter_progress,
                cp@,
            ),
            chapters_unique(final(self)@.chapter_progress),
            final(self)@.current_learning_chapter == old(self)@.current_learning_chapter,
            final(self)@.memories == old(self)@.memories,
            final(self)@.update_time == old(self)@.update_time,
    {
        let ghost pre = self.chapter_progress.deep_view();
        let ghost cv = cp@;
        proof {
            lemma_find_chapter_record(pre, cv.chapter_number);
        }
        let n = self.chapter_progress.len();
        let mut k: usize = 0;
        loop
            invariant
                0 <= k <= n,
                n == self.chapter_progress@.len(),
                pre == self.chapter_progress.deep_view(),
                forall|j: int| 0 <= j < k ==> (#[trigger] pre[j]).chapter_number != cv.chapter_number,
                cp@ == cv,
            ensures
                0 <= k <= n,
                pre == self.chapter_progress.deep_view(),
                forall|j: int| 0 <= j < k ==> (#[trigger] pre[j]).chapter_number != cv.chapter_number,
                k < n ==> pre[k as int].chapter_number == cv.chapter_number,
                cp@ == cv,
            decreases n - k,
        {
            if k >= n {
                break ;
            }
            proof {
                assert(pre[k as int] == self.chapter_progress@[k as int].deep_view());
                crate::chapter::lemma_cmp_equal(pre[k as int].chapter_number, cv.chapter_number);
            }
            match self.chapter_progress[k].chapter_number.cmp(&cp.chapter_number) {
                core::cmp::Ordering::Equal => {
                    break ;
                },
                _ => (),
            }
            k = k + 1;
        }
        if k < n {
            proof {
                assert(find_chapter_record(pre, cv.chapter_number) == k) by {
                    if find_chapter_record(pre, cv.chapter_number) < 0 {
                        assert(pre[k as int].chapter_number != cv.chapter_number);
                    } else {
                        if find_chapter_record(pre, cv.chapter_number) < k {
                            assert(pre[find_chapter_record(pre, cv.chapter_number)].chapter_number
                                != cv.chapter_number);
                        }
                        if find_chapter_record(pre, cv.chapter_number) > k {
                            assert(pre[k as int].chapter_number != cv.chapter_number);
                        }
                    }
                }
            }
            self.chapter_progress.set(k, cp);
            proof {
                assert forall|j: int|
                    0 <= j < pre.len() && j != k implies #[trigger] self.chapter_progress.deep_view()[j]
                    == pre[j] by {
                    assert(self.chapter_progress.deep_view()[j]
                        == self.chapter_progress@[j].deep_view());
                }
                assert(self.chapter_progress.deep_view()[k as int] == cv);
                assert(self.chapter_progress.deep_view() =~= upsert_chapter_record(pre, cv));
                assert forall|i2: int, j2: int|
                    0 <= i2 < j2 < self.chapter_progress.deep_view().len() implies (
                #[trigger] self.chapter_progress.deep_view()[i2]).chapter_number != (
                #[trigger] self.chapter_progress.deep_view()[j2]).chapter_number by {
                    if i2 == k {
                        assert(pre[k as int].chapter_number == cv.chapter_number);
                    } else if j2 == k {
                        assert(pre[k as int].chapter_number == cv.chapter_number);
                    }
                }
            }
        } else {
            proof {
                assert(find_chapter_record(pre, cv.chapter_number) == -1) by {
                    if find_chapter_record(pre, cv.chapter_number) >= 0 {
                        assert(pre[find_chapter_record(pre, cv.chapter_number)].chapter_number
                            != cv.chapter_number);
                    }
                }
            }
            self.chapter_progress.push(cp);
            proof {
                assert forall|j: int|
                    0 <= j < pre.len() implies #[trigger] self.chapter_progress.deep_view()[j]
                    == pre[j] by {
                    assert(self.chapter_progress.deep_view()[j]
                        == self.chapter_progress@[j].deep_view());
                }
                assert(self.chapter_progress.deep_view()[pre.len() as int] == cv);
                assert(self.chapter_progress.deep_view() =~= upsert_chapter_record(pre, cv));
                assert forall|i2: int, j2: int|
                    0 <= i2 < j2 < self.chapter_progress.deep_view().len() implies (
                #[trigger] self.chapter_progress.deep_view()[i2]).chapter_number != (
                #[trigger] self.chapter_progress.deep_view()[j2]).chapter_number by {
                    if j2 == pre.len() {
                        assert(pre[i2].chapter_number != cv.chapter_number);
                    }
                }
            }
        }
    }

    /// Looks up the stored record for a chapter, as a copy.
    pub fn get_chapter_record(&self, number: &ChapterNumber) -> (r: Option<ChapterProgress>)
        ensures
            match r {
                Some(cp) => find_chapter_record(self@.chapter_progress, number@) >= 0 && cp@
                    == self@.chapter_progress[find_chapter_record(
                    self@.chapter_progress,
                    number@,
                )],
                None => find_chapter_record(self@.chapter_progress, number@) == -1,
            },
    {
        let ghost pre = self.chapter_progress.deep_view();
        proof {
            lemma_find_chapter_record(pre, number@);
        }
        let n = self.chapter_progress.len();
        let mut k: usize = 0;
        loop
            invariant
                0 <= k <= n,
                n == self.chapter_progress@.len(),
                pre == self.chapter_progress.deep_view(),
                forall|j: int| 0 <= j < k ==> (#[trigger] pre[j]).chapter_number != number@,
            ensures
                0 <= k <= n,
                forall|j: int| 0 <= j < k ==> (#[trigger] pre[j]).chapter_number != number@,
                k < n ==> pre[k as int].chapter_number == number@,
            decreases n - k,
        {
            if k >= n {
                break ;
            }
            proof {
                assert(pre[k as int] == self.chapter_progress@[k as int].deep_view());
                crate::chapter::lemma_cmp_equal(pre[k as int].chapter_number, number@);
            }
            match self.chapter_progress[k].chapter_number.cmp(number) {
                core::cmp::Ordering::Equal => {
                    break ;
                },
                _ => (),
            }
            k = k + 1;
        }
        if k < n {
            proof {
                assert(find_chapter_record(pre, number@) == k) by {
                    if find_chapter_record(pre, number@) < 0 {
                        assert(pre[k as int].chapter_number != number@);
                    } else {
                        if find_chapter_record(pre, number@) < k {
                            assert(pre[find_chapter_record(pre, number@)].chapter_number
                                != number@);
                        }
                        if find_chapter_record(pre, number@) > k {
                            assert(pre[k as int].chapter_number != number@);
                        }
                    }
                }
                assert(pre[k as int] == self.chapter_progress@[k as int].deep_view());
            }
            Some(self.chapter_progress[k].clone())
        } else {
            proof {
                assert(find_chapter_record(pre, number@) == -1) by {
                    if find_chapter_record(pre, number@) >= 0 {
                        assert(pre[find_chapter_record(pre, number@)].chapter_number != number@);
                    }
                }
            }
            None
        }
    }
}

// ---------------------------------------------------------------------------
// Renderings
// ---------------------------------------------------------------------------

/// The display name of a status.
pub open spec fn status_text(st: ChapterStatus) -> Seq<char> {
    match st {
        ChapterStatus::NotStarted => "NotStarted"@,
        ChapterStatus::InProgress => "InProgress"@,
        ChapterStatus::Completed => "Completed"@,
    }
}

/// Renders a status as text.
pub fn render_status(st: ChapterStatus) -> (r: String)
    ensures
        r@ == status_text(st),
{
    match st {
        ChapterStatus::NotStarted => String::from_str("NotStarted"),
        ChapterStatus::InProgress => String::from_str("InProgress"),
        ChapterStatus::Completed => String::from_str("Completed"),
    }
}

/// One rendered objective line: a checkbox, the description, and any notes.
pub open spec fn objective_text(o: ChapterObjectiveV) -> Seq<char> {
    "- ["@ + (if o.completed {
        "x"@
    } else {
        " "@
    }) + "] "@ + o.description + (match o.progress {
        Some(p) => " (progress: "@ + p + ")"@,
        None => Seq::empty(),
    }) + (match o.next_step {
        Some(nx) => " (next: "@ + nx + ")"@,
        None => Seq::empty(),
    }) + "
"@
}

/// All objective lines, in order.
pub open spec fn objectives_text(s: Seq<ChapterObjectiveV>) -> Seq<char>
    decreases s.len(),
{
    if s.len() == 0 {
        Seq::empty()
    } else {
        objectives_text(s.drop_last()) + objective_text(s.last())
    }
}

/// A whole chapter-progress rendering: the chapter, its status, then one
/// line per objective.
pub open spec fn chapter_progress_text(cp: ChapterProgressV) -> Seq<char> {
    "chapter "@ + chapter_number_text(cp.chapter_number) + " status "@ + status_text(cp.status)
        + "
"@ + objectives_text(cp.objectives)
}

fn render_objective(o: &ChapterObjective) -> (r: String)
    ensures
        r@ == objective_text(o@),
{
    let mut s = String::from_str("- [");
    if o.completed {
        s.append("x");
    } else {
        s.append(" ");
    }
    s.append("] ");
    s.append(o.description.as_str());
    match &o.progress {
        Some(p) => {
            s.append(" (progress: ");
            s.append(p.as_str());
            s.append(")");
        },
        None => (),
    }
    match &o.next_step {
        Some(nx) => {
            s.append(" (next: ");
            s.append(nx.as_str());
            s.append(")");
        },
        None => (),
    }
    s.append("
");
    proof {
        assert(s@ =~= objective_text(o@));
    }
    s
}

/// Renders one chapter's progress.
pub fn render_chapter_progress(cp: &ChapterProgress) -> (r: String)
    ensures
        r@ == chapter_progress_text(cp@),
{
    let mut s = String::from_str("chapter ");
    let num = cp.chapter_number.to_text();
    s.append(num.as_str());
    s.append(" status ");
    let st = render_status(cp.status);
    s.append(st.as_str());
    s.append("
");
    let ghost dv = cp.objectives.deep_view();
    proof {
        assert(dv.take(0) =~= Seq::<ChapterObjectiveV>::empty());
        assert(s@ =~= "chapter "@ + chapter_number_text(cp@.chapter_number) + " status "@
            + status_text(cp@.status) + "
"@ + objectives_text(dv.take(0)));
    }
    let n = cp.objectives.len();
    let mut i: usize = 0;
    while i < n
        invariant
            0 <= i <= n,
            n == cp.objectives@.len(),
            dv == cp.objectives.deep_view(),
            s@ == "chapter "@ + chapter_number_text(cp@.chapter_number) + " status "@ + status_text(
                cp@.status,
            ) + "
"@ + objectives_text(dv.take(i as int)),
        decreases n - i,
    {
        proof {
            assert(dv[i as int] == cp.objectives@[i as int].deep_view());
        }
        let line = render_objective(&cp.objectives[i]);
        s.append(line.as_str());
        proof {
            assert(dv.take(i + 1).drop_last() =~= dv.take(i as int));
            assert(dv.take(i + 1).last() == dv[i as int]);
            assert(s@ =~= "chapter "@ + chapter_number_text(cp@.chapter_number) + " status "@
                + status_text(cp@.status) + "
"@ + objectives_text(dv.take(i + 1)));
        }
        i = i + 1;
    }
    proof {
        assert(dv.take(n as int) =~= dv);
    }
    s
}

/// All chapter-progress renderings, in stored order.
pub open spec fn chapters_progress_text(s: Seq<ChapterProgressV>) -> Seq<char>
    decreases s.len(),
{
    if s.len() == 0 {
        Seq::empty()
    } else {
        chapters_progress_text(s.drop_last()) + chapter_progress_text(s.last())
    }
}

/// All memory-note lines, in stored order.
pub open spec fn memories_text(s: Seq<Seq<char>>) -> Seq<char>
    decreases s.len(),
{
    if s.len() == 0 {
        Seq::empty()
    } else {
        memories_text(s.drop_last()) + "- "@ + s.last() + "
"@
    }
}

/// A whole book-progress rendering: the heading, the current chapter, every
/// chapter record, and the memory notes.
pub open spec fn book_progress_text(bp: BookProgressV) -> Seq<char> {
    "## Book Progress
current chapter "@ + chapter_number_text(bp.current_learning_chapter)
        + "
"@ + chapters_progress_text(bp.chapter_progress) + "memories:
"@ + memories_text(
        bp.memories,
    )
}

impl BookProgress {
    /// Renders the whole book progress as text for the model to read.
    pub fn to_str(&self) -> (r: String)
        ensures
            r@ == book_progress_text(self@),
    {
        let mut s = String::from_str("## Book Progress
current chapter ");
        let num = self.current_learning_chapter.to_text();
        s.append(num.as_str());
        s.append("
");
        let ghost cps = self.chapter_progress.deep_view();
        proof {
            assert(cps.take(0) =~= Seq::<ChapterProgressV>::empty());
            assert(s@ =~= "## Book Progress
current chapter "@ + chapter_number_text(
                self@.current_learning_chapter,
            ) + "
"@ + chapters_progress_text(cps.take(0)));
        }
        let n = self.chapter_progress.len();
        let mut i: usize = 0;
        while i < n
            invariant
                0 <= i <= n,
                n == self.chapter_progress@.len(),
                cps == self.chapter_progress.deep_view(),
                s@ == "## Book Progress
current chapter "@ + chapter_number_text(
                    self@.current_learning_chapter,
                ) + "
"@ + chapters_progress_text(cps.take(i as int)),
            decreases n - i,
        {
            proof {
                assert(cps[i as int] == self.chapter_progress@[i as int].deep_view());
            }
            let part = render_chapter_progress(&self.chapter_progress[i]);
            s.append(part.as_str());
            proof {
                assert(cps.take(i + 1).drop_last() =~= cps.take(i as int));
                assert(cps.take(i + 1).last() == cps[i as int]);
                assert(s@ =~= "## Book Progress
current chapter "@ + chapter_number_text(
                    self@.current_learning_chapter,
                ) + "
"@ + chapters_progress_text(cps.take(i + 1)));
            }
            i = i + 1;
        }
        proof {
            assert(cps.take(n as int) =~= cps);
        }
        s.append("memories:
");
        let ghost ms = self.memories.deep_view();
        proof {
            assert(ms.take(0) =~= Seq::<Seq<char>>::empty());
            assert(s@ =~= "## Book Progress
current chapter "@ + chapter_number_text(
                self@.current_learning_chapter,
            ) + "
"@ + chapters_progress_text(cps) + "memories:
"@ + memories_text(ms.take(0)));
        }
        let m = self.memories.len();
        let mut j: usize = 0;
        while j < m
            invariant
                0 <= j <= m,
                m == self.memories@.len(),
                ms == self.memories.deep_view(),
                cps == self.chapter_progress.deep_view(),
                s@ == "## Book Progress
current chapter "@ + chapter_number_text(
                    self@.current_learning_chapter,
                ) + "
"@ + chapters_progress_text(cps) + "memories:
"@ + memories_text(
                    ms.take(j as int),
                ),
            decreases m - j,
        {
            proof {
                assert(ms[j as int] == self.memories@[j as int].deep_view());
            }
            s.append("- ");
            s.append(self.memories[j].as_str());
            s.append("
");
            proof {
                assert(ms.take(j + 1).drop_last() =~= ms.take(j as int));
                assert(ms.take(j + 1).last() == ms[j as int]);
                assert(s@ =~= "## Book Progress
current chapter "@ + chapter_number_text(
                    self@.current_learning_chapter,
                ) + "
"@ + chapters_progress_text(cps) + "memories:
"@ + memories_text(
                    ms.take(j + 1),
                ));
            }
            j = j + 1;
        }
        proof {
            assert(ms.take(m as int) =~= ms);
        }
        s
    }
}

} // verus!
