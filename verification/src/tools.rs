//! The built-in tutoring tools and their uniform dispatch.
//!
//! Each tool is a named capability the model may call: fetching a chapter's
//! content, directing the student to a place in the book, recording chapter
//! progress, storing a memory note, and reading the book progress back.
//! Dispatch is uniform: a call to an unknown name yields a result message
//! saying the tool was not found, a call whose arguments could not be
//! decoded yields a result carrying the decode error, and no failure of one
//! call ever disturbs the others.

use crate::book::find_chapter;
use crate::book::Book;
use crate::books::BookLocation;
use crate::chapter::chapter_number_text;
use crate::chapter::ChapterNumber;
use crate::chapter::ChapterV;
use crate::message::Message;
use crate::message::MessageV;
use crate::progress::book_progress_text;
use crate::progress::chapter_progress_text;
use crate::progress::chapters_unique;
use crate::progress::find_chapter_record;
use crate::progress::insert_memory;
use crate::progress::memories_unique;
use crate::progress::merge_objectives;
use crate::progress::objectives_unique;
use crate::progress::render_chapter_progress;
use crate::progress::updated_chapter_progress;
use crate::progress::upsert_chapter_record;
use crate::progress::BookProgress;
use crate::progress::BookProgressV;
use crate::progress::ChapterProgress;
use crate::progress::ChapterProgressV;
use crate::progress::ChapterStatus;
use crate::registry::ToolDecl;
use crate::registry::ToolDeclV;
use crate::registry::ToolManager;
use vstd::prelude::*;
use vstd::string::StringExecFns;

verus! {

/// The decoded argument payload of one tool call. Payload decoding happens
/// at the edge; a payload that did not decode arrives as its error text.
#[derive(Debug)]
pub enum ToolArgs {
    /// A chapter number, for the chapter-content tool.
    Chapter(ChapterNumber),
    /// A place in the book, for the jump tool.
    Location(BookLocation),
    /// A progress update, for the progress tool.
    Progress(ChapterProgress),
    /// A memory note, for the memory tool.
    Memory(String),
    /// No argument.
    Empty,
    /// The payload failed to decode; the error text to report.
    Invalid(String),
}

/// The mathematical content of a [`ToolArgs`].
pub enum ToolArgsV {
    /// A chapter number.
    Chapter(Seq<i64>),
    /// A place in the book.
    Location {
        /// The chapter to navigate to.
        chapter_number: Seq<i64>,
        /// The section title within the chapter, when one is meant.
        sector_title: Option<Seq<char>>,
    },
    /// A progress update.
    Progress(ChapterProgressV),
    /// A memory note.
    Memory(Seq<char>),
    /// No argument.
    Empty,
    /// The payload failed to decode.
    Invalid(Seq<char>),
}

impl View for ToolArgs {
    type V = ToolArgsV;

    open spec fn view(&self) -> ToolArgsV {
        match self {
            ToolArgs::Chapter(n) => ToolArgsV::Chapter(n@),
            ToolArgs::Location(l) => ToolArgsV::Location {
                chapter_number: l.chapter_number@,
                sector_title: l.sector_view(),
            },
            ToolArgs::Progress(p) => ToolArgsV::Progress(p@),
            ToolArgs::Memory(m) => ToolArgsV::Memory(m@),
            ToolArgs::Empty => ToolArgsV::Empty,
            ToolArgs::Invalid(e) => ToolArgsV::Invalid(e@),
        }
    }
}

/// One call ready for dispatch: the call's id, the tool name, and the
/// decoded arguments.
#[derive(Debug)]
pub struct ToolInvocation {
    /// Provider-assigned identifier of the call.
    pub id: String,
    /// The tool name to dispatch on.
    pub name: String,
    /// The decoded argument payload.
    pub args: ToolArgs,
}

/// The mathematical content of a [`ToolInvocation`].
pub struct ToolInvocationV {
    /// Provider-assigned identifier of the call.
    pub id: Seq<char>,
    /// The tool name to dispatch on.
    pub name: Seq<char>,
    /// The decoded argument payload.
    pub args: ToolArgsV,
}

impl View for ToolInvocation {
    type V = ToolInvocationV;

    open spec fn view(&self) -> ToolInvocationV {
        ToolInvocationV { id: self.id@, name: self.name@, args: self.args@ }
    }
}

impl DeepView for ToolInvocation {
    type V = ToolInvocationV;

    open spec fn deep_view(&self) -> ToolInvocationV {
        self.view()
    }
}

/// Whether the name belongs to one of the built-in tutoring tools.
pub open spec fn known_tool_name(name: Seq<char>) -> bool {
    ||| name == "GetChapterContent"@
    ||| name == "BookJump"@
    ||| name == "ProgressUpdate"@
    ||| name == "AddMemory"@
    ||| name == "GetBookProgress"@
}

/// The text reported for a call to a name no tool is registered under.
pub open spec fn not_found_text() -> Seq<char> {
    "tool not found"@
}

/// The text reported when a payload decodes to the wrong shape for the
/// tool it was addressed to.
pub open spec fn bad_args_text() -> Seq<char> {
    "invalid arguments"@
}

/// The text reported when a chapter lookup fails.
pub open spec fn chapter_not_found_text(number: Seq<i64>) -> Seq<char> {
    "Chapter not found: "@ + chapter_number_text(number)
}

/// The jump tool's answer: where the student was sent.
pub open spec fn jumped_text(number: Seq<i64>, name: Seq<char>, sector: Option<Seq<char>>) -> Seq<
    char,
> {
    "Jumped to "@ + chapter_number_text(number) + " "@ + name + (match sector {
        Some(t) => "#"@ + t,
        None => Seq::empty(),
    })
}

/// The progress record stored after a progress update: merged into the
/// record already held for that chapter, or into a fresh record when the
/// chapter is new.
pub open spec fn stored_progress_after(
    records: Seq<ChapterProgressV>,
    update: ChapterProgressV,
) -> ChapterProgressV {
    let k = find_chapter_record(records, update.chapter_number);
    let base_objectives = if k >= 0 {
        records[k].objectives
    } else {
        Seq::empty()
    };
    ChapterProgressV {
        chapter_number: update.chapter_number,
        status: update.status,
        objectives: merge_objectives(base_objectives, update.objectives),
        update_time: update.update_time,
    }
}

/// What one call does: the tutoring state afterwards and the result text.
pub open spec fn tool_output(t: TutorToolsV, inv: ToolInvocationV) -> (TutorToolsV, Seq<char>) {
    if !known_tool_name(inv.name) {
        (t, not_found_text())
    } else if inv.name == "GetChapterContent"@ {
        match inv.args {
            ToolArgsV::Chapter(number) => {
                let k = find_chapter(t.chapters, number);
                if k >= 0 {
                    (t, t.chapters[k].content)
                } else {
                    (t, chapter_not_found_text(number))
                }
            },
            ToolArgsV::Invalid(e) => (t, e),
            _ => (t, bad_args_text()),
        }
    } else if inv.name == "BookJump"@ {
        match inv.args {
            ToolArgsV::Location { chapter_number, sector_title } => {
                let k = find_chapter(t.chapters, chapter_number);
                if k >= 0 {
                    (t, jumped_text(chapter_number, t.chapters[k].name, sector_title))
                } else {
                    (t, chapter_not_found_text(chapter_number))
                }
            },
            ToolArgsV::Invalid(e) => (t, e),
            _ => (t, bad_args_text()),
        }
    } else if inv.name == "ProgressUpdate"@ {
        match inv.args {
            ToolArgsV::Progress(update) => {
                let merged = stored_progress_after(t.progress.chapter_progress, update);
                let t2 = TutorToolsV {
                    progress: BookProgressV {
                        chapter_progress: upsert_chapter_record(
                            t.progress.chapter_progress,
                            merged,
                        ),
                        ..t.progress
                    },
                    ..t
                };
                (t2, chapter_progress_text(merged))
            },
            ToolArgsV::Invalid(e) => (t, e),
            _ => (t, bad_args_text()),
        }
    } else if inv.name == "AddMemory"@ {
        match inv.args {
            ToolArgsV::Memory(m) => {
                let t2 = TutorToolsV {
                    progress: BookProgressV {
                        memories: insert_memory(t.progress.memories, m),
                        ..t.progress
                    },
                    ..t
                };
                (t2, "null"@)
            },
            ToolArgsV::Invalid(e) => (t, e),
            _ => (t, bad_args_text()),
        }
    } else {
        match inv.args {
            ToolArgsV::Empty => (t, book_progress_text(t.progress)),
            ToolArgsV::Invalid(e) => (t, e),
            _ => (t, bad_args_text()),
        }
    }
}

/// The state and result messages after dispatching a whole batch in order.
pub open spec fn dispatch_spec(t: TutorToolsV, invs: Seq<ToolInvocationV>) -> (
    TutorToolsV,
    Seq<MessageV>,
)
    decreases invs.len(),
{
    if invs.len() == 0 {
        (t, Seq::empty())
    } else {
        let (t1, out) = tool_output(t, invs.first());
        let first_message = MessageV::Tool { tool_call_id: invs.first().id, content: out };
        let (t2, rest) = dispatch_spec(t1, invs.drop_first());
        (t2, seq![first_message] + rest)
    }
}

/// Dispatch yields exactly one result per call, pairs each result with its
/// originating call id, answers unknown names with the literal not-found
/// text, and lets no failure escape the batch.
pub proof fn lemma_dispatch_shape(t: TutorToolsV, invs: Seq<ToolInvocationV>)
    ensures
        ({
            let (t2, out) = dispatch_spec(t, invs);
            &&& out.len() == invs.len()
            &&& forall|i: int|
                0 <= i < invs.len() ==> (#[trigger] out[i] matches MessageV::Tool {
                    tool_call_id,
                    content,
                } && tool_call_id == invs[i].id && (!known_tool_name(invs[i].name) ==> content
                    == not_found_text()))
        }),
    decreases invs.len(),
{
    if invs.len() > 0 {
        let (t1, o1) = tool_output(t, invs.first());
        lemma_dispatch_shape(t1, invs.drop_first());
        let (t2, rest) = dispatch_spec(t1, invs.drop_first());
        let (tw, out) = dispatch_spec(t, invs);
        assert forall|i: int|
            0 <= i < invs.len() implies (#[trigger] out[i] matches MessageV::Tool {
                tool_call_id,
                content,
            } && tool_call_id == invs[i].id && (!known_tool_name(invs[i].name) ==> content
                == not_found_text())) by {
            if i > 0 {
                assert(out[i] == rest[i - 1]);
                assert(invs.drop_first()[i - 1] == invs[i]);
            }
        }
    }
}

/// The tutoring state the built-in tools read and write: the book being
/// taught and the student's progress in it.
#[derive(Debug)]
pub struct TutorTools {
    /// The book being taught.
    pub book: Book,
    /// The student's progress through it.
    pub progress: BookProgress,
}

/// The mathematical content of a [`TutorTools`].
pub struct TutorToolsV {
    /// The chapters of the book being taught.
    pub chapters: Seq<ChapterV>,
    /// The student's progress.
    pub progress: BookProgressV,
}

impl View for TutorTools {
    type V = TutorToolsV;

    open spec fn view(&self) -> TutorToolsV {
        TutorToolsV { chapters: self.book.chapters.deep_view(), progress: self.progress@ }
    }
}

/// Every stored record keeps its objective descriptions unique.
pub open spec fn records_wf(s: Seq<ChapterProgressV>) -> bool {
    forall|i: int| 0 <= i < s.len() ==> objectives_unique((#[trigger] s[i]).objectives)
}

impl TutorTools {
    /// Well-formedness of the progress state: unique chapters, unique
    /// memory notes, unique objectives in every record.
    pub open spec fn wf(&self) -> bool {
        &&& chapters_unique(self@.progress.chapter_progress)
        &&& memories_unique(self@.progress.memories)
        &&& records_wf(self@.progress.chapter_progress)
    }

    /// Runs one call against the tutoring state and synthesizes its result
    /// message. Failures are absorbed into the message text.
    pub fn run_tool(&mut self, inv: &ToolInvocation) -> (r: Message)
        requires
            old(self).wf(),
        ensures
            final(self).wf(),
            final(self)@ == tool_output(old(self)@, inv@).0,
            r@ == (MessageV::Tool {
                tool_call_id: inv.id@,
                content: tool_output(old(self)@, inv@).1,
            }),
    {
        let content: String = self.run_tool_content(inv);
        Message::Tool { tool_call_id: inv.id.clone(), content }
    }

    fn run_tool_content(&mut self, inv: &ToolInvocation) -> (r: String)
        requires
            old(self).wf(),
        ensures
            final(self).wf(),
            final(self)@ == tool_output(old(self)@, inv@).0,
            r@ == tool_output(old(self)@, inv@).1,
    {
        let known = inv.name.eq(&String::from_str("GetChapterContent")) || inv.name.eq(
            &String::from_str("BookJump"),
        ) || inv.name.eq(&String::from_str("ProgressUpdate")) || inv.name.eq(
            &String::from_str("AddMemory"),
        ) || inv.name.eq(&String::from_str("GetBookProgress"));
        if !known {
            return String::from_str("tool not found");
        }
        if let ToolArgs::Invalid(e) = &inv.args {
            return e.clone();
        }
        if inv.name.eq(&String::from_str("GetChapterContent")) {
            match &inv.args {
                ToolArgs::Chapter(number) => {
                    match self.book.get_chapter(number) {
                        Some(chapter) => chapter.content.clone(),
                        None => {
                            let mut s = String::from_str("Chapter not found: ");
                            let num = number.to_text();
                            s.append(num.as_str());
                            proof {
                                assert(s@ =~= chapter_not_found_text(number@));
                            }
                            s
                        },
                    }
                },
                _ => String::from_str("invalid arguments"),
            }
        } else if inv.name.eq(&String::from_str("BookJump")) {
            match &inv.args {
                ToolArgs::Location(location) => {
                    match self.book.get_chapter(&location.chapter_number) {
                        Some(chapter) => {
                            let mut s = String::from_str("Jumped to ");
                            let num = location.chapter_number.to_text();
                            s.append(num.as_str());
                            s.append(" ");
                            s.append(chapter.name.as_str());
                            match &location.sector_title {
                                Some(t) => {
                                    s.append("#");
                                    s.append(t.as_str());
                                },
                                None => (),
                            }
                            proof {
                                assert(s@ =~= jumped_text(
                                    location.chapter_number@,
                                    old(self)@.chapters[find_chapter(
                                        old(self)@.chapters,
                                        location.chapter_number@,
                                    )].name,
                                    location.sector_view(),
                                ));
                            }
                            s
                        },
                        None => {
                            let mut s = String::from_str("Chapter not found: ");
                            let num = location.chapter_number.to_text();
                            s.append(num.as_str());
                            proof {
                                assert(s@ =~= chapter_not_found_text(location.chapter_number@));
                            }
                            s
                        },
                    }
                },
                _ => String::from_str("invalid arguments"),
            }
        } else if inv.name.eq(&String::from_str("ProgressUpdate")) {
            match &inv.args {
                ToolArgs::Progress(update) => {
                    let ghost records = old(self)@.progress.chapter_progress;
                    let ghost number = update@.chapter_number;
                    proof {
                        crate::progress::lemma_find_chapter_record(records, number);
                    }
                    let base = match self.progress.get_chapter_record(&update.chapter_number) {
                        Some(stored) => {
                            proof {
                                let k = find_chapter_record(records, number);
                                assert(stored@ == records[k]);
                                assert(objectives_unique(records[k].objectives));
                                assert(records[k].chapter_number == number);
                            }
                            stored
                        },
                        None => {
                            let fresh = ChapterProgress {
                                chapter_number: update.chapter_number.clone(),
                                status: ChapterStatus::NotStarted,
                                objectives: Vec::new(),
                                update_time: 0,
                            };
                            proof {
                                assert(fresh@.objectives =~= Seq::<
                                    crate::progress::ChapterObjectiveV,
                                >::empty());
                            }
                            fresh
                        },
                    };
                    proof {
                        assert(objectives_unique(base@.objectives));
                        assert(base@.chapter_number == number);
                        let k = find_chapter_record(records, number);
                        if k >= 0 {
                            assert(base@.objectives == records[k].objectives);
                        } else {
                            assert(base@.objectives == Seq::<
                                crate::progress::ChapterObjectiveV,
                            >::empty());
                        }
                    }
                    let merged = updated_chapter_progress(Some(base), update.clone());
                    proof {
                        assert(merged@ == stored_progress_after(records, update@));
                    }
                    let result_text = render_chapter_progress(&merged);
                    let ghost mv = merged@;
                    self.progress.insert_chapter(merged);
                    proof {
                        let after = self@.progress.chapter_progress;
                        assert(after == upsert_chapter_record(records, mv));
                        assert(objectives_unique(mv.objectives));
                        let k = find_chapter_record(records, mv.chapter_number);
                        assert forall|j: int|
                            0 <= j < after.len() implies objectives_unique(
                            (#[trigger] after[j]).objectives,
                        ) by {
                            if k >= 0 {
                                if j != k {
                                    assert(after[j] == records[j]);
                                }
                            } else {
                                if j < records.len() {
                                    assert(after[j] == records[j]);
                                }
                            }
                        }
                    }
                    result_text
                },
                _ => String::from_str("invalid arguments"),
            }
        } else if inv.name.eq(&String::from_str("AddMemory")) {
            match &inv.args {
                ToolArgs::Memory(m) => {
                    self.progress.add_memory(m.clone());
                    String::from_str("null")
                },
                _ => String::from_str("invalid arguments"),
            }
        } else {
            match &inv.args {
                ToolArgs::Empty => self.progress.to_str(),
                _ => String::from_str("invalid arguments"),
            }
        }
    }

    /// Dispatches a whole batch of calls in order: one result message per
    /// call, each paired with its call id; a call to an unregistered name
    /// yields the literal not-found message, and no failure of one call
    /// aborts the batch.
    pub fn dispatch(&mut self, invs: &Vec<ToolInvocation>) -> (r: Vec<Message>)
        requires
            old(self).wf(),
        ensures
            final(self).wf(),
            final(self)@ == dispatch_spec(old(self)@, invs.deep_view()).0,
            r.deep_view() == dispatch_spec(old(self)@, invs.deep_view()).1,
            r@.len() == invs@.len(),
            forall|i: int|
                0 <= i < invs@.len() ==> (#[trigger] r.deep_view()[i] matches MessageV::Tool {
                    tool_call_id,
                    content,
                } && tool_call_id == invs.deep_view()[i].id && (!known_tool_name(
                    invs.deep_view()[i].name,
                ) ==> content == not_found_text())),
    {
        let ghost all = invs.deep_view();
        let n = invs.len();
        let mut results: Vec<Message> = Vec::new();
        let mut i: usize = 0;
        proof {
            assert(all.take(0) =~= Seq::<ToolInvocationV>::empty());
            assert(results.deep_view() =~= dispatch_spec(old(self)@, all.take(0)).1);
        }
        while i < n
            invariant
                0 <= i <= n,
                n == invs@.len(),
                all == invs.deep_view(),
                self.wf(),
                results@.len() == i,
                self@ == dispatch_spec(old(self)@, all.take(i as int)).0,
                results.deep_view() == dispatch_spec(old(self)@, all.take(i as int)).1,
            decreases n - i,
        {
            let ghost pre = results.deep_view();
            proof {
                assert(all[i as int] == invs@[i as int].deep_view());
            }
            let message = self.run_tool(&invs[i]);
            results.push(message);
            proof {
                lemma_dispatch_snoc(old(self)@, all.take(i as int), all[i as int]);
                assert(all.take(i as int).push(all[i as int]) =~= all.take(i + 1));
                assert forall|j: int| 0 <= j < pre.len() implies #[trigger] results.deep_view()[j]
                    == pre[j] by {
                    assert(results.deep_view()[j] == results@[j].deep_view());
                }
                assert(results.deep_view() =~= dispatch_spec(old(self)@, all.take(i + 1)).1);
            }
            i = i + 1;
        }
        proof {
            assert(all.take(n as int) =~= all);
            lemma_dispatch_shape(old(self)@, all);
        }
        results
    }
}

proof fn lemma_dispatch_snoc(t: TutorToolsV, invs: Seq<ToolInvocationV>, x: ToolInvocationV)
    ensures
        ({
            let (t1, out1) = dispatch_spec(t, invs);
            let (t2, o) = tool_output(t1, x);
            let m = MessageV::Tool { tool_call_id: x.id, content: o };
            dispatch_spec(t, invs.push(x)) == (t2, out1.push(m))
        }),
    decreases invs.len(),
{
    let whole = invs.push(x);
    assert(whole.len() > 0);
    if invs.len() == 0 {
        assert(whole.first() == x);
        assert(whole.drop_first() =~= Seq::<ToolInvocationV>::empty());
        let (t1, o) = tool_output(t, x);
        let m = MessageV::Tool { tool_call_id: x.id, content: o };
        assert(dispatch_spec(t1, whole.drop_first()) == (t1, Seq::<MessageV>::empty()));
        assert(dispatch_spec(t, whole).1 =~= Seq::<MessageV>::empty().push(m));
        assert(dispatch_spec(t, invs) == (t, Seq::<MessageV>::empty()));
        assert(Seq::<MessageV>::empty() =~= dispatch_spec(t, invs).1);
        assert(dispatch_spec(t, invs).1.push(m) =~= dispatch_spec(t, whole).1);
    } else {
        assert(whole.first() == invs.first());
        assert(whole.drop_first() =~= invs.drop_first().push(x));
        let (ta, oa) = tool_output(t, invs.first());
        lemma_dispatch_snoc(ta, invs.drop_first(), x);
        let (tb, outb) = dispatch_spec(ta, invs.drop_first());
        let (tc, oc) = tool_output(tb, x);
        let m = MessageV::Tool { tool_call_id: x.id, content: oc };
        let ma = MessageV::Tool { tool_call_id: invs.first().id, content: oa };
        assert(dispatch_spec(ta, whole.drop_first()) == (tc, outb.push(m)));
        assert(dispatch_spec(t, whole).1 =~= seq![ma] + outb.push(m));
        assert(dispatch_spec(t, invs).1 == seq![ma] + outb);
        assert((seq![ma] + outb).push(m) =~= seq![ma] + outb.push(m));
    }
}

/// The five built-in tool declarations, in registration order: each carries
/// its name, its free-text description, and its JSON-schema parameter spec.
pub open spec fn default_decls_spec() -> Seq<crate::registry::ToolDeclV> {
    seq![
        ToolDeclV {
            name: "GetChapterContent"@,
            description: "Query the content of a chapter from the book. Before starting to teach a new chapter, use this tool to get the content of this chapter"@,
            parameters: "{\"type\":\"string\",\"description\":\"A chapter number in the format '1.2.3.'\"}"@,
        },
        ToolDeclV {
            name: "BookJump"@,
            description: "Use this tool to navigate to a specific chapter or section in the book when you need the student to read particular content. It helps direct the student's attention to the relevant material."@,
            parameters: "{\"type\":\"object\",\"properties\":{\"chapter_number\":{\"type\":\"string\"},\"sector_title\":{\"type\":\"string\"}},\"required\":[\"chapter_number\"]}"@,
        },
        ToolDeclV {
            name: "ProgressUpdate"@,
            description: "Update the progress of a chapter"@,
            parameters: "{\"type\":\"object\",\"properties\":{\"chapter_number\":{\"type\":\"string\"},\"status\":{\"type\":\"string\"},\"objectives\":{\"type\":\"array\"}},\"required\":[\"chapter_number\",\"status\"]}"@,
        },
        ToolDeclV {
            name: "AddMemory"@,
            description: "Add a memory to the book progress"@,
            parameters: "{\"type\":\"string\"}"@,
        },
        ToolDeclV {
            name: "GetBookProgress"@,
            description: "Get the progress of the book"@,
            parameters: "{\"type\":\"null\"}"@,
        },
    ]
}

/// The declarations of the built-in tutoring tools, ready to register.
pub fn default_tool_decls() -> (r: Vec<ToolDecl>)
    ensures
        r.deep_view() == default_decls_spec(),
{
    let mut r: Vec<ToolDecl> = Vec::new();
    r.push(
        ToolDecl {
            name: String::from_str("GetChapterContent"),
            description: String::from_str(
                "Query the content of a chapter from the book. Before starting to teach a new chapter, use this tool to get the content of this chapter",
            ),
            parameters: String::from_str(
                "{\"type\":\"string\",\"description\":\"A chapter number in the format '1.2.3.'\"}",
            ),
        },
    );
    r.push(
        ToolDecl {
            name: String::from_str("BookJump"),
            description: String::from_str(
                "Use this tool to navigate to a specific chapter or section in the book when you need the student to read particular content. It helps direct the student's attention to the relevant material.",
            ),
            parameters: String::from_str(
                "{\"type\":\"object\",\"properties\":{\"chapter_number\":{\"type\":\"string\"},\"sector_title\":{\"type\":\"string\"}},\"required\":[\"chapter_number\"]}",
            ),
        },
    );
    r.push(
        ToolDecl {
            name: String::from_str("ProgressUpdate"),
            description: String::from_str("Update the progress of a chapter"),
            parameters: String::from_str(
                "{\"type\":\"object\",\"properties\":{\"chapter_number\":{\"type\":\"string\"},\"status\":{\"type\":\"string\"},\"objectives\":{\"type\":\"array\"}},\"required\":[\"chapter_number\",\"status\"]}",
            ),
        },
    );
    r.push(
        ToolDecl {
            name: String::from_str("AddMemory"),
            description: String::from_str("Add a memory to the book progress"),
            parameters: String::from_str("{\"type\":\"string\"}"),
        },
    );
    r.push(
        ToolDecl {
            name: String::from_str("GetBookProgress"),
            description: String::from_str("Get the progress of the book"),
            parameters: String::from_str("{\"type\":\"null\"}"),
        },
    );
    proof {
        assert(r.deep_view()[0] == r@[0].deep_view());
        assert(r.deep_view()[1] == r@[1].deep_view());
        assert(r.deep_view()[2] == r@[2].deep_view());
        assert(r.deep_view()[3] == r@[3].deep_view());
        assert(r.deep_view()[4] == r@[4].deep_view());
        assert(r.deep_view() =~= default_decls_spec());
    }
    r
}

/// No two of the built-in tool names are the same.
proof fn lemma_default_names_distinct()
    ensures
        forall|j: int, k: int|
            0 <= j < k < default_decls_spec().len() ==> (#[trigger] default_decls_spec()[j]).name
                != (#[trigger] default_decls_spec()[k]).name,
{
    reveal_strlit("GetChapterContent");
    reveal_strlit("BookJump");
    reveal_strlit("ProgressUpdate");
    reveal_strlit("AddMemory");
    reveal_strlit("GetBookProgress");
    assert forall|j: int, k: int|
        0 <= j < k < default_decls_spec().len() implies (#[trigger] default_decls_spec()[j]).name
        != (#[trigger] default_decls_spec()[k]).name by {
        assert(default_decls_spec()[j].name.len() != default_decls_spec()[k].name.len());
    }
}

/// A registry holding exactly the five built-in tutoring tools, in order.
pub fn default_tool_manager() -> (r: ToolManager)
    ensures
        r.decls() == default_decls_spec(),
        r.is_registered("GetChapterContent"@),
        r.is_registered("BookJump"@),
        r.is_registered("ProgressUpdate"@),
        r.is_registered("AddMemory"@),
        r.is_registered("GetBookProgress"@),
{
    let mut manager = ToolManager::new();
    let decls = default_tool_decls();
    proof {
        lemma_default_names_distinct();
        assert(manager.decls() =~= default_decls_spec().take(0));
    }
    let n = decls.len();
    let mut i: usize = 0;
    while i < n
        invariant
            0 <= i <= n,
            n == decls@.len(),
            decls.deep_view() == default_decls_spec(),
            forall|j: int, k: int|
                0 <= j < k < default_decls_spec().len() ==> (
                #[trigger] default_decls_spec()[j]).name != (
                #[trigger] default_decls_spec()[k]).name,
            manager.decls() == default_decls_spec().take(i as int),
        decreases n - i,
    {
        let item = decls[i].clone();
        proof {
            assert(item.deep_view() == default_decls_spec()[i as int]);
        }
        let ghost before = manager.decls();
        manager.add_tool(item);
        proof {
            crate::registry::lemma_find_decl(before, default_decls_spec()[i as int].name);
            assert(crate::registry::find_decl(before, default_decls_spec()[i as int].name) == -1)
                by {
                let f = crate::registry::find_decl(before, default_decls_spec()[i as int].name);
                if f >= 0 {
                    assert(before[f] == default_decls_spec()[f]);
                    assert(default_decls_spec()[f].name != default_decls_spec()[i as int].name);
                }
            }
            assert(manager.decls() =~= default_decls_spec().take(i + 1));
        }
        i = i + 1;
    }
    proof {
        assert(default_decls_spec().take(n as int) =~= default_decls_spec());
        crate::registry::lemma_find_decl(manager.decls(), "GetChapterContent"@);
        crate::registry::lemma_find_decl(manager.decls(), "BookJump"@);
        crate::registry::lemma_find_decl(manager.decls(), "ProgressUpdate"@);
        crate::registry::lemma_find_decl(manager.decls(), "AddMemory"@);
        crate::registry::lemma_find_decl(manager.decls(), "GetBookProgress"@);
        assert(manager.is_registered("GetChapterContent"@)) by {
            if crate::registry::find_decl(manager.decls(), "GetChapterContent"@) == -1 {
                assert(manager.decls()[0].name == "GetChapterContent"@);
            }
        }
        assert(manager.is_registered("BookJump"@)) by {
            if crate::registry::find_decl(manager.decls(), "BookJump"@) == -1 {
                assert(manager.decls()[1].name == "BookJump"@);
            }
        }
        assert(manager.is_registered("ProgressUpdate"@)) by {
            if crate::registry::find_decl(manager.decls(), "ProgressUpdate"@) == -1 {
                assert(manager.decls()[2].name == "ProgressUpdate"@);
            }
        }
        assert(manager.is_registered("AddMemory"@)) by {
            if crate::registry::find_decl(manager.decls(), "AddMemory"@) == -1 {
                assert(manager.decls()[3].name == "AddMemory"@);
            }
        }
        assert(manager.is_registered("GetBookProgress"@)) by {
            if crate::registry::find_decl(manager.decls(), "GetBookProgress"@) == -1 {
                assert(manager.decls()[4].name == "GetBookProgress"@);
            }
        }
    }
    manager
}

} // verus!
