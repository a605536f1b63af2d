//! Hierarchical chapter numbers and flattened chapter records.
//!
//! A chapter number such as `3.1.4.` is a sequence of integers. Prefix
//! chapters are numbered `0.k`, suffix chapters `-1.k`; suffix chapters sort
//! after every ordinary chapter. Books hold their chapters as a flat,
//! depth-first ordered list keyed by these numbers.

use vstd::prelude::*;
use vstd::string::StrSliceExecFns;
use vstd::string::StringExecFns;

verus! {

/// A section number like `3.1.4.`: the path of indices from the root of the
/// book's table of contents.
#[derive(Debug, PartialEq, Eq, Hash)]
pub struct ChapterNumber(pub Vec<i64>);

impl View for ChapterNumber {
    type V = Seq<i64>;

    open spec fn view(&self) -> Seq<i64> {
        self.0@
    }
}

impl DeepView for ChapterNumber {
    type V = Seq<i64>;

    open spec fn deep_view(&self) -> Seq<i64> {
        self.view()
    }
}

impl Clone for ChapterNumber {
    /// Cloning keeps the components.
    fn clone(&self) -> (r: Self)
        ensures
            r@ == self@,
    {
        ChapterNumber(self.0.clone())
    }
}

// ---------------------------------------------------------------------------
// Decimal text of an integer
// ---------------------------------------------------------------------------

/// Whether `c` is a decimal digit.
pub open spec fn is_digit(c: char) -> bool {
    48 <= c as int <= 57
}

/// The numeric value of a digit character.
pub open spec fn digit_val(c: char) -> int {
    c as int - 48
}

/// The digit character for a value in `0..10`.
pub open spec fn digit_char(d: int) -> char {
    if d == 0 {
        '0'
    } else if d == 1 {
        '1'
    } else if d == 2 {
        '2'
    } else if d == 3 {
        '3'
    } else if d == 4 {
        '4'
    } else if d == 5 {
        '5'
    } else if d == 6 {
        '6'
    } else if d == 7 {
        '7'
    } else if d == 8 {
        '8'
    } else {
        '9'
    }
}

/// The decimal digit string of a natural number, most significant digit
/// first, with no leading zeros (except for zero itself).
pub open spec fn dec_text(n: nat) -> Seq<char>
    decreases n,
{
    if n < 10 {
        seq![digit_char(n as int)]
    } else {
        dec_text(n / 10).push(digit_char((n % 10) as int))
    }
}

/// The decimal text of an integer, with a leading minus sign when negative.
pub open spec fn int_text(n: int) -> Seq<char> {
    if n < 0 {
        seq!['-'] + dec_text((-n) as nat)
    } else {
        dec_text(n as nat)
    }
}

fn digit_str(d: u64) -> (r: &'static str)
    requires
        d < 10,
    ensures
        r@ =~= seq![digit_char(d as int)],
{
    proof {
        reveal_strlit("0");
        reveal_strlit("1");
        reveal_strlit("2");
        reveal_strlit("3");
        reveal_strlit("4");
        reveal_strlit("5");
        reveal_strlit("6");
        reveal_strlit("7");
        reveal_strlit("8");
        reveal_strlit("9");
    }
    if d == 0 {
        "0"
    } else if d == 1 {
        "1"
    } else if d == 2 {
        "2"
    } else if d == 3 {
        "3"
    } else if d == 4 {
        "4"
    } else if d == 5 {
        "5"
    } else if d == 6 {
        "6"
    } else if d == 7 {
        "7"
    } else if d == 8 {
        "8"
    } else {
        "9"
    }
}

/// Renders a natural number in decimal.
pub fn u64_to_text(n: u64) -> (r: String)
    ensures
        r@ == dec_text(n as nat),
    decreases n,
{
    if n < 10 {
        digit_str(n).to_owned()
    } else {
        let mut s = u64_to_text(n / 10);
        s.append(digit_str(n % 10));
        proof {
            assert(s@ =~= dec_text((n / 10) as nat).push(digit_char((n % 10) as int)));
        }
        s
    }
}

/// Renders a signed integer in decimal.
pub fn i64_to_text(n: i64) -> (r: String)
    ensures
        r@ == int_text(n as int),
{
    if n >= 0 {
        u64_to_text(n as u64)
    } else {
        let magnitude: u64 = (-(n as i128)) as u64;
        let mut s = String::from_str("-");
        let m = u64_to_text(magnitude);
        s.append(m.as_str());
        proof {
            reveal_strlit("-");
            assert(s@ =~= seq!['-'] + dec_text((-(n as int)) as nat));
        }
        s
    }
}

// ---------------------------------------------------------------------------
// Chapter number text
// ---------------------------------------------------------------------------

/// The printed form of a chapter number: every component followed by a dot,
/// as in `3.1.4.`.
pub open spec fn chapter_number_text(ns: Seq<i64>) -> Seq<char>
    decreases ns.len(),
{
    if ns.len() == 0 {
        Seq::empty()
    } else {
        chapter_number_text(ns.drop_last()) + int_text(ns.last() as int) + seq!['.']
    }
}

// ---------------------------------------------------------------------------
// Parsing
// ---------------------------------------------------------------------------

/// The digit part of a signed-integer token: the token with any single
/// leading sign removed.
pub open spec fn token_digits(t: Seq<char>) -> Seq<char> {
    if t.len() > 0 && (t[0] == '-' || t[0] == '+') {
        t.drop_first()
    } else {
        t
    }
}

/// Whether the token denotes a negative number.
pub open spec fn token_negative(t: Seq<char>) -> bool {
    t.len() > 0 && t[0] == '-'
}

/// Whether every character of `d` is a decimal digit.
pub open spec fn all_digits(d: Seq<char>) -> bool {
    forall|i: int| 0 <= i < d.len() ==> is_digit(#[trigger] d[i])
}

/// The value of a digit string, most significant digit first.
pub open spec fn digits_value(d: Seq<char>) -> int
    decreases d.len(),
{
    if d.len() == 0 {
        0
    } else {
        digits_value(d.drop_last()) * 10 + digit_val(d.last())
    }
}

/// Whether `t` is a well-formed decimal token whose value fits in an `i64`:
/// an optional sign, then at least one digit.
pub open spec fn is_i64_token(t: Seq<char>) -> bool {
    &&& token_digits(t).len() > 0
    &&& all_digits(token_digits(t))
    &&& if token_negative(t) {
        digits_value(token_digits(t)) <= 0x8000_0000_0000_0000
    } else {
        digits_value(token_digits(t)) <= 0x7fff_ffff_ffff_ffff
    }
}

/// The signed value of a well-formed token.
pub open spec fn token_value(t: Seq<char>) -> int {
    if token_negative(t) {
        -digits_value(token_digits(t))
    } else {
        digits_value(token_digits(t))
    }
}

/// The index of the first dot in `s`, or `s.len()` when there is none.
pub open spec fn first_dot(s: Seq<char>) -> int
    decreases s.len(),
{
    if s.len() == 0 {
        0
    } else if s[0] == '.' {
        0
    } else {
        1 + first_dot(s.drop_first())
    }
}

proof fn lemma_first_dot_bounds(s: Seq<char>)
    ensures
        0 <= first_dot(s) <= s.len(),
        forall|i: int| 0 <= i < first_dot(s) ==> s[i] != '.',
        first_dot(s) < s.len() ==> s[first_dot(s)] == '.',
    decreases s.len(),
{
    if s.len() == 0 {
    } else if s[0] == '.' {
    } else {
        lemma_first_dot_bounds(s.drop_first());
        assert forall|i: int| 0 <= i < first_dot(s) implies s[i] != '.' by {
            if i > 0 {
                assert(s.drop_first()[i - 1] != '.');
            }
        }
    }
}

/// The chapter number denoted by a piece of text, when well formed: tokens
/// separated by dots, the final dot optional, the empty text denoting the
/// empty number.
pub open spec fn chapter_number_of_text(s: Seq<char>) -> Option<Seq<i64>>
    decreases s.len(),
    via chapter_number_of_text_decreases
{
    if s.len() == 0 {
        Some(Seq::empty())
    } else {
        let k = first_dot(s);
        let tok = s.take(k);
        if !is_i64_token(tok) {
            None
        } else if k == s.len() {
            Some(seq![token_value(tok) as i64])
        } else {
            match chapter_number_of_text(s.skip(k + 1)) {
                Some(rest) => Some(seq![token_value(tok) as i64] + rest),
                None => None,
            }
        }
    }
}

#[via_fn]
proof fn chapter_number_of_text_decreases(s: Seq<char>) {
    lemma_first_dot_bounds(s);
}

/// Prefixes already-parsed components onto the outcome for the rest of the
/// text.
pub open spec fn prepend_parts(p: Seq<i64>, r: Option<Seq<i64>>) -> Option<Seq<i64>> {
    match r {
        Some(x) => Some(p + x),
        None => None,
    }
}

proof fn lemma_digits_value_nonneg(d: Seq<char>)
    requires
        all_digits(d),
    ensures
        digits_value(d) >= 0,
    decreases d.len(),
{
    if d.len() > 0 {
        assert(all_digits(d.drop_last())) by {
            assert(forall|i: int|
                0 <= i < d.drop_last().len() ==> #[trigger] d.drop_last()[i] == d[i]);
        }
        lemma_digits_value_nonneg(d.drop_last());
    }
}

proof fn lemma_digits_value_monotone(d: Seq<char>, k: int)
    requires
        all_digits(d),
        0 <= k <= d.len(),
    ensures
        digits_value(d.take(k)) <= digits_value(d),
    decreases d.len() - k,
{
    if k < d.len() {
        lemma_digits_value_monotone(d, k + 1);
        let p = d.take(k + 1);
        assert(p.drop_last() =~= d.take(k));
        assert(all_digits(d.take(k))) by {
            assert(forall|i: int| 0 <= i < k ==> #[trigger] d.take(k)[i] == d[i]);
        }
        lemma_digits_value_nonneg(d.take(k));
        assert(is_digit(p.last()));
        assert(digits_value(p) == digits_value(d.take(k)) * 10 + digit_val(p.last()));
        assert(digits_value(d.take(k)) <= digits_value(d.take(k)) * 10) by (nonlinear_arith)
            requires
                digits_value(d.take(k)) >= 0,
        ;
    } else {
        assert(d.take(k) =~= d);
    }
}

/// Parses a decimal token: an optional `+` or `-` sign, then one or more
/// digits, whose value fits in an `i64`. Returns `None` on any other text.
pub fn parse_i64(t: &str) -> (r: Option<i64>)
    ensures
        match r {
            Some(v) => is_i64_token(t@) && v as int == token_value(t@),
            None => !is_i64_token(t@),
        },
{
    let n = t.unicode_len();
    if n == 0 {
        return None;
    }
    let first = t.get_char(0);
    let negative = first == '-';
    let start: usize = if first == '-' || first == '+' {
        1
    } else {
        0
    };
    let ghost digits = token_digits(t@);
    proof {
        assert(digits =~= t@.skip(start as int));
    }
    if start == n {
        proof {
            assert(digits.len() == 0);
        }
        return None;
    }
    // The largest magnitude that still fits, split into its leading digits
    // and its final digit so the overflow test stays within u64 range.
    let lim: u64 = 922337203685477580;
    let rem: u64 = if negative {
        8
    } else {
        7
    };
    let ghost bound: int = lim as int * 10 + rem as int;
    let mut acc: u64 = 0;
    let mut i: usize = start;
    while i < n
        invariant
            start <= i <= n,
            n == t@.len(),
            start < n,
            digits == t@.skip(start as int),
            digits == token_digits(t@),
            negative == token_negative(t@),
            lim == 922337203685477580u64,
            rem == if negative {
                8u64
            } else {
                7u64
            },
            bound == lim as int * 10 + rem as int,
            all_digits(digits.take(i - start)),
            acc as int == digits_value(digits.take(i - start)),
            acc as int <= bound,
        decreases n - i,
    {
        let c = t.get_char(i);
        let u = c as u32;
        if !(48 <= u && u <= 57) {
            proof {
                assert(digits[i - start] == c);
                assert(!is_digit(digits[i - start]));
                assert(!all_digits(digits));
            }
            return None;
        }
        let d: u64 = (u as u64) - 48;
        proof {
            assert(d as int == digit_val(c));
            assert(digits.take(i + 1 - start).drop_last() =~= digits.take(i - start));
            assert(digits.take(i + 1 - start).last() == c);
            assert(all_digits(digits.take(i + 1 - start))) by {
                assert(forall|k: int|
                    0 <= k < i - start ==> #[trigger] digits.take(i + 1 - start)[k] == digits.take(
                        i - start,
                    )[k]);
            }
        }
        if acc > lim || (acc == lim && d > rem) {
            // The value read so far already exceeds the representable range,
            // and further digits can only increase it.
            proof {
                assert(acc as int * 10 + d as int > bound);
                assert(digits_value(digits.take(i + 1 - start)) > bound);
                if all_digits(digits) {
                    lemma_digits_value_monotone(digits, i + 1 - start);
                    assert(digits_value(digits) > bound);
                    assert(!is_i64_token(t@));
                } else {
                    assert(!is_i64_token(t@));
                }
            }
            return None;
        }
        acc = acc * 10 + d;
        i = i + 1;
    }
    proof {
        assert(digits.take(n - start) =~= digits);
    }
    if negative {
        if acc == 9223372036854775808 {
            Some(i64::MIN)
        } else {
            Some(-(acc as i64))
        }
    } else {
        Some(acc as i64)
    }
}

impl ChapterNumber {
    /// Creates an empty chapter number.
    pub fn new() -> (r: ChapterNumber)
        ensures
            r@ == Seq::<i64>::empty(),
    {
        ChapterNumber(Vec::new())
    }

    /// Parses text such as `3.1.4.` or `-1.3.8` (the trailing dot is
    /// optional) into a chapter number; empty text denotes the empty number.
    pub fn from_str(s: &str) -> (r: Option<ChapterNumber>)
        ensures
            match r {
                Some(cn) => chapter_number_of_text(s@) == Some(cn@),
                None => chapter_number_of_text(s@) is None,
            },
    {
        let n = s.unicode_len();
        let mut parts: Vec<i64> = Vec::new();
        let mut pos: usize = 0;
        proof {
            assert(s@.skip(0) =~= s@);
            let whole = chapter_number_of_text(s@);
            if whole is Some {
                assert(parts@ + whole->Some_0 =~= whole->Some_0);
            }
        }
        // Each round consumes one dot-terminated (or final) token.
        while pos < n
            invariant
                0 <= pos <= n,
                n == s@.len(),
                chapter_number_of_text(s@) == prepend_parts(
                    parts@,
                    chapter_number_of_text(s@.skip(pos as int)),
                ),
            decreases n - pos,
        {
            let ghost rem = s@.skip(pos as int);
            // find the next dot
            let mut j: usize = pos;
            loop
                invariant
                    pos <= j <= n,
                    n == s@.len(),
                    forall|i: int| pos <= i < j ==> s@[i] != '.',
                ensures
                    pos <= j <= n,
                    j == n || s@[j as int] == '.',
                    forall|i: int| pos <= i < j ==> s@[i] != '.',
                decreases n - j,
            {
                if j >= n {
                    break ;
                }
                if s.get_char(j) == '.' {
                    break ;
                }
                j = j + 1;
            }
            proof {
                lemma_first_dot_bounds(rem);
                assert forall|i: int| 0 <= i < j - pos implies rem[i] != '.' by {
                    assert(rem[i] == s@[pos + i]);
                }
                if (j as int) < n {
                    assert(rem[j - pos] == s@[j as int]);
                }
                assert(first_dot(rem) == j - pos) by {
                    if first_dot(rem) < j - pos {
                        assert(rem[first_dot(rem)] == '.');
                    }
                }
                assert(rem.take(j - pos) =~= s@.subrange(pos as int, j as int));
            }
            let token = s.substring_char(pos, j);
            match parse_i64(token) {
                None => {
                    proof {
                        assert(chapter_number_of_text(rem) is None);
                    }
                    return None;
                },
                Some(v) => {
                    let ghost old_parts = parts@;
                    parts.push(v);
                    if j < n {
                        proof {
                            assert(rem.skip(j - pos + 1) =~= s@.skip(j + 1));
                        }
                        pos = j + 1;
                        proof {
                            let tail = chapter_number_of_text(s@.skip(pos as int));
                            assert(chapter_number_of_text(rem) == prepend_parts(seq![v], tail));
                            if tail is Some {
                                assert(old_parts + (seq![v] + tail->Some_0) =~= parts@
                                    + tail->Some_0);
                            }
                        }
                    } else {
                        proof {
                            assert(chapter_number_of_text(rem) == Some(seq![v]));
                            assert(old_parts + seq![v] =~= parts@);
                            assert(s@.skip(n as int) =~= Seq::<char>::empty());
                            assert(parts@ + Seq::<i64>::empty() =~= parts@);
                        }
                        pos = n;
                    }
                },
            }
        }
        proof {
            assert(s@.skip(n as int) =~= Seq::<char>::empty());
            assert(parts@ + Seq::<i64>::empty() =~= parts@);
        }
        Some(ChapterNumber(parts))
    }

    /// Renders the number as text, every component followed by a dot.
    pub fn to_text(&self) -> (r: String)
        ensures
            r@ == chapter_number_text(self@),
    {
        let mut s = String::new();
        let mut i: usize = 0;
        let n = self.0.len();
        while i < n
            invariant
                0 <= i <= n,
                n == self@.len(),
                s@ == chapter_number_text(self@.take(i as int)),
            decreases n - i,
        {
            let item = self.0[i];
            let t = i64_to_text(item);
            s.append(t.as_str());
            s.append(".");
            proof {
                reveal_strlit(".");
                let p = self@.take(i + 1);
                assert(p.drop_last() =~= self@.take(i as int));
                assert(p.last() == self@[i as int]);
                assert(s@ =~= chapter_number_text(self@.take(i as int)) + int_text(
                    self@[i as int] as int,
                ) + seq!['.']);
            }
            i = i + 1;
        }
        proof {
            assert(self@.take(n as int) =~= self@);
        }
        s
    }

    /// Whether the number is empty.
    pub fn is_empty(&self) -> (r: bool)
        ensures
            r == (self@.len() == 0),
    {
        self.0.len() == 0
    }

    /// Compares two chapter numbers: suffix chapters (first component `-1`)
    /// come after every other chapter; otherwise the components are compared
    /// lexicographically.
    pub open spec fn spec_cmp(a: Seq<i64>, b: Seq<i64>) -> core::cmp::Ordering {
        if a.len() > 0 && b.len() > 0 {
            if (a[0] == -1) == (b[0] == -1) {
                Self::spec_lex_cmp(a, b)
            } else if a[0] != -1 && b[0] == -1 {
                core::cmp::Ordering::Less
            } else {
                core::cmp::Ordering::Greater
            }
        } else {
            Self::spec_lex_cmp(a, b)
        }
    }

    /// Lexicographic order on the component sequences.
    pub open spec fn spec_lex_cmp(a: Seq<i64>, b: Seq<i64>) -> core::cmp::Ordering
        decreases a.len(),
    {
        if a.len() == 0 && b.len() == 0 {
            core::cmp::Ordering::Equal
        } else if a.len() == 0 {
            core::cmp::Ordering::Less
        } else if b.len() == 0 {
            core::cmp::Ordering::Greater
        } else if a[0] < b[0] {
            core::cmp::Ordering::Less
        } else if a[0] > b[0] {
            core::cmp::Ordering::Greater
        } else {
            Self::spec_lex_cmp(a.drop_first(), b.drop_first())
        }
    }

    /// Compares two chapter numbers in the book's reading order.
    pub fn cmp(&self, other: &ChapterNumber) -> (r: core::cmp::Ordering)
        ensures
            r == Self::spec_cmp(self@, other@),
    {
        if self.0.len() > 0 && other.0.len() > 0 {
            let a0 = self.0[0];
            let b0 = other.0[0];
            if (a0 == -1) == (b0 == -1) {
                self.lex_cmp(other)
            } else if a0 != -1 && b0 == -1 {
                core::cmp::Ordering::Less
            } else {
                core::cmp::Ordering::Greater
            }
        } else {
            self.lex_cmp(other)
        }
    }

    fn lex_cmp(&self, other: &ChapterNumber) -> (r: core::cmp::Ordering)
        ensures
            r == Self::spec_lex_cmp(self@, other@),
    {
        let mut i: usize = 0;
        let na = self.0.len();
        let nb = other.0.len();
        proof {
            assert(self@.skip(0) =~= self@);
            assert(other@.skip(0) =~= other@);
        }
        loop
            invariant
                0 <= i <= na,
                0 <= i <= nb,
                na == self@.len(),
                nb == other@.len(),
                Self::spec_lex_cmp(self@, other@) == Self::spec_lex_cmp(
                    self@.skip(i as int),
                    other@.skip(i as int),
                ),
            ensures
                0 <= i <= na,
                0 <= i <= nb,
                Self::spec_lex_cmp(self@, other@) == Self::spec_lex_cmp(
                    self@.skip(i as int),
                    other@.skip(i as int),
                ),
                i >= na || i >= nb || self@[i as int] != other@[i as int],
            decreases na - i,
        {
            if i >= na || i >= nb {
                break ;
            }
            if self.0[i] != other.0[i] {
                break ;
            }
            proof {
                let a = self@.skip(i as int);
                let b = other@.skip(i as int);
                assert(a[0] == b[0]);
                assert(a.drop_first() =~= self@.skip(i + 1));
                assert(b.drop_first() =~= other@.skip(i + 1));
            }
            i = i + 1;
        }
        let ghost a = self@.skip(i as int);
        let ghost b = other@.skip(i as int);
        if i >= na && i >= nb {
            core::cmp::Ordering::Equal
        } else if i >= na {
            core::cmp::Ordering::Less
        } else if i >= nb {
            core::cmp::Ordering::Greater
        } else if self.0[i] < other.0[i] {
            proof {
                assert(a[0] == self@[i as int] && b[0] == other@[i as int]);
            }
            core::cmp::Ordering::Less
        } else {
            proof {
                assert(a[0] == self@[i as int] && b[0] == other@[i as int]);
            }
            core::cmp::Ordering::Greater
        }
    }
}

proof fn lemma_lex_cmp_equal(a: Seq<i64>, b: Seq<i64>)
    ensures
        (ChapterNumber::spec_lex_cmp(a, b) == core::cmp::Ordering::Equal) <==> (a == b),
    decreases a.len(),
{
    if a.len() == 0 && b.len() == 0 {
        assert(a =~= b);
    } else if a.len() == 0 || b.len() == 0 {
        assert(a.len() != b.len());
    } else if a[0] == b[0] {
        lemma_lex_cmp_equal(a.drop_first(), b.drop_first());
        if a.drop_first() == b.drop_first() {
            assert forall|i: int| 0 <= i < a.len() implies a[i] == b[i] by {
                if i > 0 {
                    assert(a.drop_first()[i - 1] == b.drop_first()[i - 1]);
                }
            }
            assert(a =~= b);
        }
        if a == b {
            assert(a.drop_first() =~= b.drop_first());
        }
    } else {
        assert(a != b);
    }
}

/// Two chapter numbers compare as equal exactly when they are the same.
pub proof fn lemma_cmp_equal(a: Seq<i64>, b: Seq<i64>)
    ensures
        (ChapterNumber::spec_cmp(a, b) == core::cmp::Ordering::Equal) <==> (a == b),
{
    if a.len() > 0 && b.len() > 0 && (a[0] == -1) != (b[0] == -1) {
        if a == b {
            assert(a[0] == b[0]);
        }
    } else {
        lemma_lex_cmp_equal(a, b);
    }
}

// ---------------------------------------------------------------------------
// Chapters
// ---------------------------------------------------------------------------

/// One chapter of a book. Books hold their chapters as a flat list in
/// depth-first reading order, so a chapter records its ancestry by name
/// rather than owning sub-chapters.
#[derive(Debug)]
pub struct Chapter {
    /// The chapter's title.
    pub name: String,
    /// The chapter's hierarchical number.
    pub number: ChapterNumber,
    /// Titles of the enclosing chapters, outermost first.
    pub parent_names: Vec<String>,
    /// The source path of the chapter, when it has one.
    pub path: Option<String>,
    /// The chapter's full text.
    pub content: String,
}

/// A chapter dressed with its generated study aids.
#[derive(Debug)]
pub struct ChapterInfo {
    /// The chapter's title.
    pub name: String,
    /// The chapter's hierarchical number.
    pub number: ChapterNumber,
    /// Titles of the enclosing chapters, outermost first.
    pub parent_names: Vec<String>,
    /// The source path of the chapter, when it has one.
    pub path: Option<String>,
    /// A short summary of the chapter.
    pub summary: String,
    /// The chapter's key points.
    pub key_points: Vec<String>,
}

/// The mathematical content of a [`Chapter`].
pub struct ChapterV {
    /// The chapter's title.
    pub name: Seq<char>,
    /// The chapter's hierarchical number.
    pub number: Seq<i64>,
    /// Titles of the enclosing chapters, outermost first.
    pub parent_names: Seq<Seq<char>>,
    /// The source path of the chapter, when it has one.
    pub path: Option<Seq<char>>,
    /// The chapter's full text.
    pub content: Seq<char>,
}

impl View for Chapter {
    type V = ChapterV;

    open spec fn view(&self) -> ChapterV {
        ChapterV {
            name: self.name@,
            number: self.number@,
            parent_names: self.parent_names.deep_view(),
            path: self.path_view(),
            content: self.content@,
        }
    }
}

impl DeepView for Chapter {
    type V = ChapterV;

    open spec fn deep_view(&self) -> ChapterV {
        self.view()
    }
}

/// The indentation for a table-of-contents entry nested `k` levels deep.
pub open spec fn indent_text(k: int) -> Seq<char>
    decreases k,
{
    if k <= 0 {
        Seq::empty()
    } else {
        indent_text(k - 1) + seq![' ', ' ']
    }
}

/// The table-of-contents depth of a chapter number: top-level, prefix and
/// suffix chapters sit flush left, nested chapters indent by their depth.
pub open spec fn toc_indent(ns: Seq<i64>) -> int {
    if ns.len() == 0 {
        0
    } else if ns[0] == 0 || ns[0] == -1 {
        0
    } else {
        ns.len() - 1
    }
}

/// One table-of-contents line: indentation, the chapter number, the linked
/// chapter name, and a trailing markdown line break.
pub open spec fn toc_item_text(number: Seq<i64>, name: Seq<char>, path: Option<Seq<char>>) -> Seq<
    char,
> {
    indent_text(toc_indent(number)) + chapter_number_text(number) + " ["@ + name + "]("@ + (
    match path {
        Some(p) => p,
        None => Seq::empty(),
    }) + ")  \n"@
}

impl Chapter {
    /// The view of the optional path.
    pub open spec fn path_view(&self) -> Option<Seq<char>> {
        match self.path {
            Some(p) => Some(p@),
            None => None,
        }
    }

    /// Renders this chapter's table-of-contents line.
    pub fn get_toc_item(&self) -> (r: String)
        ensures
            r@ == toc_item_text(self.number@, self.name@, self.path_view()),
    {
        let depth: usize = if self.number.0.len() == 0 {
            0
        } else if self.number.0[0] == 0 || self.number.0[0] == -1 {
            0
        } else {
            self.number.0.len() - 1
        };
        let mut s = String::new();
        let mut k: usize = 0;
        while k < depth
            invariant
                0 <= k <= depth,
                s@ == indent_text(k as int),
            decreases depth - k,
        {
            s.append("  ");
            proof {
                reveal_strlit("  ");
                assert(s@ =~= indent_text(k as int) + seq![' ', ' ']);
            }
            k = k + 1;
        }
        proof {
            assert(depth as int == toc_indent(self.number@));
        }
        let num = self.number.to_text();
        s.append(num.as_str());
        s.append(" [");
        s.append(self.name.as_str());
        s.append("](");
        match &self.path {
            Some(p) => s.append(p.as_str()),
            None => (),
        }
        s.append(")  \n");
        proof {
            assert(s@ =~= toc_item_text(self.number@, self.name@, self.path_view()));
        }
        s
    }

    /// Dresses the chapter with a summary and key points fetched elsewhere.
    pub fn get_chapter_info(&self, summary: String, key_points: Vec<String>) -> (r: ChapterInfo)
        ensures
            r.name@ == self.name@,
            r.number@ == self.number@,
            r.parent_names.deep_view() == self.parent_names.deep_view(),
            (match r.path {
                Some(p) => Some(p@),
                None => None,
            }) == self.path_view(),
            r.summary == summary,
            r.key_points == key_points,
    {
        let parent_names = self.parent_names.clone();
        proof {
            assert(parent_names.deep_view() =~= self.parent_names.deep_view());
        }
        ChapterInfo {
            name: self.name.clone(),
            number: self.number.clone(),
            parent_names,
            path: self.path.clone(),
            summary,
            key_points,
        }
    }
}

impl Clone for Chapter {
    /// Cloning keeps every field's contents.
    fn clone(&self) -> (r: Self)
        ensures
            r@ == self@,
    {
        let r = Chapter {
            name: self.name.clone(),
            number: self.number.clone(),
            parent_names: self.parent_names.clone(),
            path: self.path.clone(),
            content: self.content.clone(),
        };
        proof {
            assert(r.parent_names.deep_view() =~= self.parent_names.deep_view());
            assert(r.path_view() == self.path_view());
        }
        r
    }
}

} // verus!
