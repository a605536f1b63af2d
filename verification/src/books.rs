//! The teaching-plan flavored view of a book.
//!
//! A raw book is the flat chapter list as loaded; enriching it attaches the
//! generated teaching plan and the rendered table of contents.

use crate::book::chapters_ordered;
use crate::book::check_reading_order;
use crate::book::numbers_unique;
use crate::book::render_toc;
use crate::book::toc_text;
use crate::error::Error;
use crate::chapter::Chapter;
use crate::chapter::ChapterNumber;
use crate::chapter::ChapterV;
use vstd::prelude::*;

verus! {

/// A book as loaded, before any teaching material is generated.
#[derive(Debug)]
pub struct BookRaw {
    /// A stable identifier for the book.
    pub id: i64,
    /// The book's title.
    pub title: String,
    /// The chapters, in depth-first reading order.
    pub chapters: Vec<Chapter>,
    /// The book's authors.
    pub authors: Vec<String>,
    /// The book's description, when it has one.
    pub description: Option<String>,
}

impl BookRaw {
    /// The chapter list's mathematical content.
    pub open spec fn chapters_view(&self) -> Seq<ChapterV> {
        self.chapters.deep_view()
    }

    /// Whether the chapters stand in ascending reading order, with unique
    /// numbers.
    pub open spec fn wf(&self) -> bool {
        &&& chapters_ordered(self.chapters_view())
        &&& numbers_unique(self.chapters_view())
    }

    /// Assembles a raw book, refusing chapter lists whose numbers collide or
    /// stand out of reading order.
    pub fn new(
        id: i64,
        title: String,
        chapters: Vec<Chapter>,
        authors: Vec<String>,
        description: Option<String>,
    ) -> (r: Result<BookRaw, Error>)
        ensures
            r is Ok <==> chapters_ordered(chapters.deep_view()),
            r matches Ok(b) ==> {
                &&& b.wf()
                &&& b.id == id
                &&& b.title@ == title@
                &&& b.chapters_view() == chapters.deep_view()
                &&& b.authors == authors
                &&& b.description == description
            },
            r is Err ==> (r matches Err(Error::Fatal(m)) && ((m@ == "chapter number is not unique"@
                && !numbers_unique(chapters.deep_view())) || (m@
                == "chapters are not in reading order"@ && !chapters_ordered(
                chapters.deep_view(),
            )))),
    {
        match check_reading_order(&chapters) {
            Err(e) => Err(e),
            Ok(()) => {
                proof {
                    crate::book::lemma_ordered_implies_unique(chapters.deep_view());
                }
                Ok(BookRaw { id, title, chapters, authors, description })
            },
        }
    }

    /// Renders the book's table of contents: the title as a heading, then
    /// one line per chapter; under the reading-order invariant the lines
    /// appear in ascending chapter-number order.
    pub fn get_table_of_contents(&self) -> (r: String)
        ensures
            r@ == toc_text(self.title@, self.chapters_view()),
    {
        render_toc(&self.title, &self.chapters)
    }
}

/// The cached teaching material of a book: the overall plan and one plan
/// per chapter.
#[derive(Debug)]
pub struct BookTeachingPlan {
    /// The overall teaching plan, once generated.
    pub teaching_plan: Option<String>,
    /// Per-chapter plan texts, keyed by chapter number.
    pub chapter_plans: Vec<(ChapterNumber, String)>,
}

/// A book enriched for teaching: metadata, table of contents, plan, and the
/// chapters themselves.
#[derive(Debug)]
pub struct Book {
    /// A stable identifier for the book.
    pub id: i64,
    /// The book's title.
    pub title: String,
    /// The numbers of the book's chapters, in reading order.
    pub chapter_numbers: Vec<ChapterNumber>,
    /// The rendered table of contents.
    pub table_of_contents: String,
    /// The book's authors.
    pub authors: Vec<String>,
    /// The book's description, when it has one.
    pub description: Option<String>,
    /// The generated teaching plan.
    pub teaching_plan: String,
    /// The chapters, in depth-first reading order.
    pub chapters: Vec<Chapter>,
}

/// A book's stored metadata row, with its visibility.
#[derive(Debug)]
pub struct BookMeta {
    /// A stable identifier for the book.
    pub id: i64,
    /// The book's title.
    pub title: String,
    /// The book's authors.
    pub authors: Vec<String>,
    /// The book's description, when it has one.
    pub description: Option<String>,
    /// Whether the book is visible to everyone.
    pub is_public: bool,
}

/// A place in the book: a chapter, and optionally a section within it.
#[derive(Debug)]
pub struct BookLocation {
    /// The chapter to navigate to.
    pub chapter_number: ChapterNumber,
    /// The section title within the chapter, when one is meant.
    pub sector_title: Option<String>,
}

impl BookLocation {
    /// The view of the optional section title.
    pub open spec fn sector_view(&self) -> Option<Seq<char>> {
        match self.sector_title {
            Some(t) => Some(t@),
            None => None,
        }
    }
}

} // verus!
