//! Books as flat, depth-first ordered chapter lists.
//!
//! A book holds its chapters in reading order, keyed by unique chapter
//! numbers. Chapters without a number are given one on load: prefix
//! chapters are numbered `0.k` until the first numbered chapter appears,
//! and later unnumbered chapters become suffix chapters `-1.k`.

use crate::chapter::toc_item_text;
use crate::chapter::Chapter;
use crate::chapter::ChapterInfo;
use crate::chapter::ChapterNumber;
use crate::chapter::ChapterV;
use crate::error::Error;
use vstd::pervasive::VecAdditionalExecFns;
use vstd::prelude::*;
use vstd::string::StringExecFns;

verus! {

/// No two chapters share a number.
pub open spec fn numbers_unique(s: Seq<ChapterV>) -> bool {
    forall|j: int, k: int|
        0 <= j < k < s.len() ==> (#[trigger] s[j]).number != (#[trigger] s[k]).number
}

/// Chapters stand in ascending reading order: every earlier chapter's
/// number compares below every later one's. This is what keyed, ordered
/// storage gave the original design: a sorted-key traversal.
pub open spec fn chapters_ordered(s: Seq<ChapterV>) -> bool {
    forall|j: int, k: int|
        0 <= j < k < s.len() ==> ChapterNumber::spec_cmp(
            (#[trigger] s[j]).number,
            (#[trigger] s[k]).number,
        ) == core::cmp::Ordering::Less
}

/// Ordered chapters have unique numbers: equal numbers would compare as
/// equal, not below one another.
pub proof fn lemma_ordered_implies_unique(s: Seq<ChapterV>)
    requires
        chapters_ordered(s),
    ensures
        numbers_unique(s),
{
    assert forall|j: int, k: int|
        0 <= j < k < s.len() implies (#[trigger] s[j]).number != (#[trigger] s[k]).number by {
        crate::chapter::lemma_cmp_equal(s[j].number, s[k].number);
    }
}

/// The position of the chapter with the given number, or `-1` when none
/// exists.
pub open spec fn find_chapter(s: Seq<ChapterV>, number: Seq<i64>) -> int
    decreases s.len(),
{
    if s.len() == 0 {
        -1
    } else if s[0].number == number {
        0
    } else {
        let r = find_chapter(s.drop_first(), number);
        if r < 0 {
            -1
        } else {
            1 + r
        }
    }
}

/// `find_chapter` finds the first chapter with the number, and fails exactly
/// when no chapter has it.
pub proof fn lemma_find_chapter(s: Seq<ChapterV>, number: Seq<i64>)
    ensures
        find_chapter(s, number) == -1 ==> forall|j: int|
            0 <= j < s.len() ==> (#[trigger] s[j]).number != number,
        find_chapter(s, number) >= 0 ==> {
            &&& find_chapter(s, number) < s.len()
            &&& s[find_chapter(s, number)].number == number
            &&& forall|j: int|
                0 <= j < find_chapter(s, number) ==> (#[trigger] s[j]).number != number
        },
    decreases s.len(),
{
    if s.len() == 0 {
    } else if s[0].number == number {
    } else {
        lemma_find_chapter(s.drop_first(), number);
        let r = find_chapter(s.drop_first(), number);
        if r < 0 {
            assert forall|j: int| 0 <= j < s.len() implies (#[trigger] s[j]).number != number by {
                if j > 0 {
                    assert(s.drop_first()[j - 1].number != number);
                }
            }
        } else {
            assert forall|j: int| 0 <= j < find_chapter(s, number) implies (#[trigger] s[j]).number
                != number by {
                if j > 0 {
                    assert(s.drop_first()[j - 1].number != number);
                }
            }
        }
    }
}

/// The table-of-contents lines of a chapter list, in order.
pub open spec fn toc_items_text(s: Seq<ChapterV>) -> Seq<char>
    decreases s.len(),
{
    if s.len() == 0 {
        Seq::empty()
    } else {
        toc_items_text(s.drop_last()) + toc_item_text(
            s.last().number,
            s.last().name,
            s.last().path,
        )
    }
}

/// A whole table of contents: the book's title as a heading, then one line
/// per chapter.
pub open spec fn toc_text(title: Seq<char>, s: Seq<ChapterV>) -> Seq<char> {
    "# "@ + title + "\n"@ + toc_items_text(s)
}

/// Renders the table of contents of a titled chapter list.
pub(crate) fn render_toc(title: &String, chapters: &Vec<Chapter>) -> (r: String)
    ensures
        r@ == toc_text(title@, chapters.deep_view()),
{
    let mut s = String::from_str("# ");
    s.append(title.as_str());
    s.append("\n");
    proof {
        assert(chapters.deep_view().take(0) =~= Seq::<ChapterV>::empty());
        assert(s@ =~= "# "@ + title@ + "\n"@ + toc_items_text(chapters.deep_view().take(0)));
    }
    let n = chapters.len();
    let mut i: usize = 0;
    while i < n
        invariant
            0 <= i <= n,
            n == chapters@.len(),
            s@ == "# "@ + title@ + "\n"@ + toc_items_text(chapters.deep_view().take(i as int)),
        decreases n - i,
    {
        let item = chapters[i].get_toc_item();
        proof {
            assert(chapters.deep_view()[i as int] == chapters@[i as int].deep_view());
        }
        s.append(item.as_str());
        proof {
            let dv = chapters.deep_view();
            assert(dv.take(i + 1).drop_last() =~= dv.take(i as int));
            assert(dv.take(i + 1).last() == dv[i as int]);
            assert(s@ =~= "# "@ + title@ + "\n"@ + toc_items_text(dv.take(i + 1)));
        }
        i = i + 1;
    }
    proof {
        assert(chapters.deep_view().take(n as int) =~= chapters.deep_view());
    }
    s
}

/// Gives every unnumbered chapter its place: prefix chapters are numbered
/// `0.1, 0.2, ...` until the first numbered chapter appears; unnumbered
/// chapters after that point become suffix chapters `-1.1, -1.2, ...`.
pub open spec fn assign_numbers(
    s: Seq<ChapterV>,
    is_prefix: bool,
    p: int,
    q: int,
) -> Seq<ChapterV>
    decreases s.len(),
{
    if s.len() == 0 {
        s
    } else {
        let c = s.first();
        if c.number.len() > 0 {
            seq![c] + assign_numbers(s.drop_first(), false, p, q)
        } else if is_prefix {
            seq![ChapterV { number: seq![0i64, p as i64], ..c }] + assign_numbers(
                s.drop_first(),
                true,
                p + 1,
                q,
            )
        } else {
            seq![ChapterV { number: seq![-1i64, q as i64], ..c }] + assign_numbers(
                s.drop_first(),
                false,
                p,
                q + 1,
            )
        }
    }
}

/// Checks that a chapter list is in ascending reading order (which makes
/// the numbers unique as well), naming what is wrong when it is not.
pub(crate) fn check_reading_order(chapters: &Vec<Chapter>) -> (r: Result<(), Error>)
    ensures
        r is Ok <==> chapters_ordered(chapters.deep_view()),
        r is Err ==> (r matches Err(Error::Fatal(m)) && ((m@ == "chapter number is not unique"@
            && !numbers_unique(chapters.deep_view())) || (m@ == "chapters are not in reading order"@
            && !chapters_ordered(chapters.deep_view())))),
{
    let n = chapters.len();
    let ghost dv = chapters.deep_view();
    let mut i: usize = 0;
    while i < n
        invariant
            0 <= i <= n,
            n == chapters@.len(),
            dv == chapters.deep_view(),
            forall|j: int, k: int|
                0 <= j < k < i ==> ChapterNumber::spec_cmp(
                    (#[trigger] dv[j]).number,
                    (#[trigger] dv[k]).number,
                ) == core::cmp::Ordering::Less,
        decreases n - i,
    {
        let mut j: usize = 0;
        while j < i
            invariant
                0 <= j <= i < n,
                n == chapters@.len(),
                dv == chapters.deep_view(),
                forall|k: int|
                    0 <= k < j ==> ChapterNumber::spec_cmp(
                        (#[trigger] dv[k]).number,
                        dv[i as int].number,
                    ) == core::cmp::Ordering::Less,
            decreases i - j,
        {
            proof {
                assert(dv[j as int] == chapters@[j as int].deep_view());
                assert(dv[i as int] == chapters@[i as int].deep_view());
                crate::chapter::lemma_cmp_equal(dv[j as int].number, dv[i as int].number);
            }
            match chapters[j].number.cmp(&chapters[i].number) {
                core::cmp::Ordering::Equal => {
                    return Err(Error::Fatal(String::from_str("chapter number is not unique")));
                },
                core::cmp::Ordering::Greater => {
                    return Err(
                        Error::Fatal(String::from_str("chapters are not in reading order")),
                    );
                },
                core::cmp::Ordering::Less => (),
            }
            j = j + 1;
        }
        i = i + 1;
    }
    Ok(())
}

/// One book: a flat list of chapters in reading order.
#[derive(Debug)]
pub struct Book {
    /// A stable identifier for the book.
    pub id: i64,
    /// The book's title.
    pub title: String,
    /// The chapters, in depth-first reading order, with unique numbers.
    pub chapters: Vec<Chapter>,
    /// The book's authors.
    pub authors: Vec<String>,
    /// The book's description, when it has one.
    pub description: Option<String>,
}

impl Book {
    /// The chapter list's mathematical content.
    pub open spec fn chapters_view(&self) -> Seq<ChapterV> {
        self.chapters.deep_view()
    }

    /// Whether the chapters stand in ascending reading order, with unique
    /// numbers.
    pub open spec fn wf(&self) -> bool {
        &&& chapters_ordered(self.chapters_view())
        &&& numbers_unique(self.chapters_view())
    }

    /// Assembles a book, refusing chapter lists whose numbers collide or
    /// stand out of reading order.
    pub fn new(
        id: i64,
        title: String,
        chapters: Vec<Chapter>,
        authors: Vec<String>,
        description: Option<String>,
    ) -> (r: Result<Book, Error>)
        ensures
            r is Ok <==> chapters_ordered(chapters.deep_view()),
            r matches Ok(b) ==> {
                &&& b.wf()
                &&& b.id == id
                &&& b.title@ == title@
                &&& b.chapters_view() == chapters.deep_view()
                &&& b.authors == authors
                &&& b.description == description
            },
            r is Err ==> (r matches Err(Error::Fatal(m)) && ((m@ == "chapter number is not unique"@
                && !numbers_unique(chapters.deep_view())) || (m@
                == "chapters are not in reading order"@ && !chapters_ordered(
                chapters.deep_view(),
            )))),
    {
        match check_reading_order(&chapters) {
            Err(e) => Err(e),
            Ok(()) => {
                proof {
                    lemma_ordered_implies_unique(chapters.deep_view());
                }
                Ok(Book { id, title, chapters, authors, description })
            },
        }
    }

    /// Looks a chapter up by its number.
    pub fn get_chapter(&self, number: &ChapterNumber) -> (r: Option<&Chapter>)
        ensures
            match r {
                Some(c) => find_chapter(self.chapters_view(), number@) >= 0 && c.deep_view()
                    == self.chapters_view()[find_chapter(self.chapters_view(), number@)],
                None => find_chapter(self.chapters_view(), number@) == -1,
            },
    {
        let ghost dv = self.chapters_view();
        proof {
            lemma_find_chapter(dv, number@);
        }
        let n = self.chapters.len();
        let mut k: usize = 0;
        loop
            invariant
                0 <= k <= n,
                n == self.chapters@.len(),
                dv == self.chapters_view(),
                forall|j: int| 0 <= j < k ==> (#[trigger] dv[j]).number != number@,
            ensures
                0 <= k <= n,
                forall|j: int| 0 <= j < k ==> (#[trigger] dv[j]).number != number@,
                k < n ==> dv[k as int].number == number@,
            decreases n - k,
        {
            if k >= n {
                break ;
            }
            proof {
                assert(dv[k as int] == self.chapters@[k as int].deep_view());
                crate::chapter::lemma_cmp_equal(dv[k as int].number, number@);
            }
            match self.chapters[k].number.cmp(number) {
                core::cmp::Ordering::Equal => {
                    break ;
                },
                _ => (),
            }
            k = k + 1;
        }
        if k < n {
            proof {
                assert(find_chapter(dv, number@) == k) by {
                    if find_chapter(dv, number@) < 0 {
                        assert(dv[k as int].number != number@);
                    } else {
                        if find_chapter(dv, number@) < k {
                            assert(dv[find_chapter(dv, number@)].number != number@);
                        }
                        if find_chapter(dv, number@) > k {
                            assert(dv[k as int].number != number@);
                        }
                    }
                }
                assert(self.chapters@[k as int].deep_view() == dv[k as int]);
            }
            Some(&self.chapters[k])
        } else {
            proof {
                assert(find_chapter(dv, number@) == -1) by {
                    if find_chapter(dv, number@) >= 0 {
                        assert(dv[find_chapter(dv, number@)].number != number@);
                    }
                }
            }
            None
        }
    }

    /// Returns a copy of the chapter with the given number, or fails with a
    /// not-found error.
    pub fn get_chapter_content(&self, number: &ChapterNumber) -> (r: Result<Chapter, Error>)
        ensures
            find_chapter(self.chapters_view(), number@) >= 0 ==> (r matches Ok(c) && c.deep_view()
                == self.chapters_view()[find_chapter(self.chapters_view(), number@)]),
            find_chapter(self.chapters_view(), number@) == -1 ==> (r matches Err(Error::Fatal(m))
                && m@ == "chapter not found"@),
    {
        match self.get_chapter(number) {
            Some(chapter) => Ok(chapter.clone()),
            None => Err(Error::Fatal(String::from_str("chapter not found"))),
        }
    }

    /// Renders the book's table of contents: the title as a heading, then
    /// one line per chapter; under the reading-order invariant the lines
    /// appear in ascending chapter-number order.
    pub fn get_table_of_contents(&self) -> (r: String)
        ensures
            r@ == toc_text(self.title@, self.chapters_view()),
    {
        render_toc(&self.title, &self.chapters)
    }

    /// Assembles the book's outward description from the parts computed
    /// elsewhere: the summary text and the per-chapter study aids.
    pub fn get_book_info(
        &self,
        book_summary: String,
        chapter_infos: Vec<(ChapterNumber, ChapterInfo)>,
    ) -> (r: BookInfo)
        ensures
            r.id == self.id,
            r.title@ == self.title@,
            r.table_of_contents@ == toc_text(self.title@, self.chapters_view()),
            r.book_summary == book_summary,
            r.chapter_infos == chapter_infos,
            r.authors.deep_view() == self.authors.deep_view(),
            (match r.description {
                Some(d) => Some(d@),
                None => None,
            }) == (match self.description {
                Some(d) => Some(d@),
                None => None::<Seq<char>>,
            }),
            r.chapter_numbers.deep_view() == self.chapters_view().map_values(
                |c: ChapterV| c.number,
            ),
    {
        let table_of_contents = self.get_table_of_contents();
        let mut chapter_numbers: Vec<ChapterNumber> = Vec::new();
        let n = self.chapters.len();
        let mut i: usize = 0;
        let ghost numbers = self.chapters_view().map_values(|c: ChapterV| c.number);
        while i < n
            invariant
                0 <= i <= n,
                n == self.chapters@.len(),
                numbers == self.chapters_view().map_values(|c: ChapterV| c.number),
                chapter_numbers@.len() == i,
                chapter_numbers.deep_view() == numbers.take(i as int),
            decreases n - i,
        {
            let ghost pre = chapter_numbers.deep_view();
            let item = self.chapters[i].number.clone();
            proof {
                assert(self.chapters_view()[i as int] == self.chapters@[i as int].deep_view());
                assert(item@ == numbers[i as int]);
            }
            chapter_numbers.push(item);
            proof {
                assert forall|k: int|
                    0 <= k < pre.len() implies #[trigger] chapter_numbers.deep_view()[k]
                    == pre[k] by {
                    assert(chapter_numbers.deep_view()[k] == chapter_numbers@[k].deep_view());
                }
                assert(chapter_numbers.deep_view() =~= numbers.take(i + 1));
            }
            i = i + 1;
        }
        proof {
            assert(numbers.take(n as int) =~= numbers);
        }
        let authors = self.authors.clone();
        let description = self.description.clone();
        proof {
            assert(authors.deep_view() =~= self.authors.deep_view());
        }
        BookInfo {
            id: self.id,
            title: self.title.clone(),
            chapter_numbers,
            table_of_contents,
            authors,
            description,
            book_summary,
            chapter_infos,
        }
    }
}

/// Gives every unnumbered chapter of a loaded book its default number, in
/// reading order.
pub fn assign_default_numbers(chapters: &mut Vec<Chapter>)
    requires
        old(chapters)@.len() < 0x7fff_ffff_ffff_ffff,
    ensures
        final(chapters).deep_view() == assign_numbers(old(chapters).deep_view(), true, 1, 1),
{
    let ghost orig = chapters.deep_view();
    let n = chapters.len();
    let mut i: usize = 0;
    let mut is_prefix: bool = true;
    let mut p: i64 = 1;
    let mut q: i64 = 1;
    proof {
        assert(chapters.deep_view().take(0) =~= Seq::<ChapterV>::empty());
        assert(orig.skip(0) =~= orig);
        assert(Seq::<ChapterV>::empty() + assign_numbers(orig, true, 1, 1) =~= assign_numbers(
            orig,
            true,
            1,
            1,
        ));
    }
    while i < n
        invariant
            0 <= i <= n,
            n == chapters@.len(),
            n < 0x7fff_ffff_ffff_ffff,
            1 <= p && p as int <= 1 + i,
            1 <= q && q as int <= 1 + i,
            orig.len() == n,
            chapters.deep_view().skip(i as int) == orig.skip(i as int),
            assign_numbers(orig, true, 1, 1) == chapters.deep_view().take(i as int)
                + assign_numbers(orig.skip(i as int), is_prefix, p as int, q as int),
        decreases n - i,
    {
        let ghost pre = chapters.deep_view();
        let ghost rest = orig.skip(i as int);
        let ghost old_prefix = is_prefix;
        proof {
            assert(rest.len() > 0);
            assert(rest.first() == orig[i as int]);
            assert(rest.drop_first() =~= orig.skip(i + 1));
            assert(pre.skip(i as int)[0] == pre[i as int]);
            assert(pre[i as int] == orig[i as int]);
            assert(pre[i as int] == chapters@[i as int].deep_view());
        }
        if !chapters[i].number.is_empty() {
            is_prefix = false;
            proof {
                let tail = assign_numbers(orig.skip(i + 1), false, p as int, q as int);
                assert(assign_numbers(rest, old_prefix, p as int, q as int) == seq![rest.first()]
                    + tail);
                assert(chapters.deep_view().take(i + 1) =~= pre.take(i as int) + seq![
                    rest.first(),
                ]);
                assert(pre.take(i as int) + (seq![rest.first()] + tail) =~= chapters.deep_view()
                    .take(i + 1) + tail);
            }
        } else {
            let ghost head: i64 = if old_prefix { 0i64 } else { -1i64 };
            let ghost counter: int = if old_prefix { p as int } else { q as int };
            let mut ch = chapters[i].clone();
            let mut digits: Vec<i64> = Vec::new();
            if is_prefix {
                digits.push(0);
                digits.push(p);
            } else {
                digits.push(-1);
                digits.push(q);
            }
            proof {
                assert(digits@ =~= seq![head, counter as i64]);
            }
            ch.number = ChapterNumber(digits);
            let ghost chv = ch.deep_view();
            chapters.set(i, ch);
            proof {
                assert(chv == (ChapterV { number: seq![head, counter as i64], ..orig[i as int] }));
                assert forall|k: int|
                    0 <= k < n && k != i implies #[trigger] chapters.deep_view()[k] == pre[k] by {
                    assert(chapters.deep_view()[k] == chapters@[k].deep_view());
                }
                assert(chapters.deep_view()[i as int] == chv);
                assert forall|k: int| i + 1 <= k < n implies #[trigger] chapters.deep_view()[k]
                    == orig[k] by {
                    assert(chapters.deep_view()[k] == pre[k]);
                    assert(pre.skip(i as int)[k - i] == orig.skip(i as int)[k - i]);
                }
                assert(chapters.deep_view().skip(i + 1) =~= orig.skip(i + 1));
                let tail = if old_prefix {
                    assign_numbers(orig.skip(i + 1), true, p as int + 1, q as int)
                } else {
                    assign_numbers(orig.skip(i + 1), false, p as int, q as int + 1)
                };
                assert(assign_numbers(rest, old_prefix, p as int, q as int) == seq![chv] + tail);
                assert forall|k: int|
                    0 <= k < i + 1 implies #[trigger] chapters.deep_view().take(i + 1)[k] == (
                pre.take(i as int) + seq![chv])[k] by {
                    if k < i {
                        assert(chapters.deep_view()[k] == pre[k]);
                    }
                }
                assert(pre.take(i as int) + (seq![chv] + tail) =~= chapters.deep_view().take(i + 1)
                    + tail);
            }
            if is_prefix {
                p = p + 1;
            } else {
                q = q + 1;
            }
        }
        proof {
            assert forall|k: int|
                0 <= k < n - i - 1 implies #[trigger] chapters.deep_view().skip(i + 1)[k]
                == orig.skip(i + 1)[k] by {
                assert(chapters.deep_view().skip(i as int)[k + 1] == orig.skip(i as int)[k + 1]);
            }
            assert(chapters.deep_view().skip(i + 1) =~= orig.skip(i + 1));
        }
        i = i + 1;
    }
    proof {
        assert(orig.skip(n as int) =~= Seq::<ChapterV>::empty());
        assert(chapters.deep_view().take(n as int) =~= chapters.deep_view());
        assert(chapters.deep_view() + Seq::<ChapterV>::empty() =~= chapters.deep_view());
    }
}

/// A book's outward description: its metadata, table of contents, summary,
/// and per-chapter study aids.
#[derive(Debug)]
pub struct BookInfo {
    /// A stable identifier for the book.
    pub id: i64,
    /// The book's title.
    pub title: String,
    /// The numbers of the book's chapters, in reading order.
    pub chapter_numbers: Vec<ChapterNumber>,
    /// The rendered table of contents.
    pub table_of_contents: String,
    /// The book's authors.
    pub authors: Vec<String>,
    /// The book's description, when it has one.
    pub description: Option<String>,
    /// A generated summary of the whole book.
    pub book_summary: String,
    /// Study aids for each chapter.
    pub chapter_infos: Vec<(ChapterNumber, ChapterInfo)>,
}

/// A book's stored metadata row.
#[derive(Debug)]
pub struct BookMeta {
    /// A stable identifier for the book.
    pub id: i64,
    /// The book's title.
    pub title: String,
    /// The book's authors.
    pub authors: Vec<String>,
    /// The book's description, when it has one.
    pub description: Option<String>,
}

/// A generated summary of one chapter.
#[derive(Debug)]
pub struct ChapterSummary {
    /// The summary text.
    pub summary: String,
    /// The chapter's key points.
    pub key_points: Vec<String>,
}

/// The cached summaries of a book: the whole-book summary and one summary
/// per chapter.
#[derive(Debug)]
pub struct Summary {
    /// The whole-book summary, once generated.
    pub book_summary: Option<String>,
    /// Summaries for each chapter, keyed by chapter number.
    pub chapter_summaries: Vec<(ChapterNumber, ChapterSummary)>,
}

} // verus!
