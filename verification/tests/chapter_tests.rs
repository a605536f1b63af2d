//! Chapter numbers: parsing, printing, ordering, and table-of-contents lines.

use book_server::book::Book;
use book_server::chapter::parse_i64;
use book_server::chapter::Chapter;
use book_server::chapter::ChapterNumber;
use book_server::chapter::i64_to_text;
use book_server::chapter::u64_to_text;
use book_server::tokens::token_count;

fn chapter(name: &str, number: &str, path: Option<&str>, content: &str) -> Chapter {
    Chapter {
        name: name.to_string(),
        number: ChapterNumber::from_str(number).unwrap(),
        parent_names: Vec::new(),
        path: path.map(|p| p.to_string()),
        content: content.to_string(),
    }
}

#[test]
fn decimal_rendering() {
    assert_eq!(u64_to_text(0), "0");
    assert_eq!(u64_to_text(340), "340");
    assert_eq!(u64_to_text(9007), "9007");
    assert_eq!(i64_to_text(-17), "-17");
    assert_eq!(i64_to_text(5), "5");
    assert_eq!(i64_to_text(i64::MIN), "-9223372036854775808");
}

#[test]
fn chapter_number_round_trip() {
    let n = ChapterNumber::from_str("3.1.4").unwrap();
    assert_eq!(n.0, vec![3, 1, 4]);
    assert_eq!(n.to_text(), "3.1.4.");
    let trailing = ChapterNumber::from_str("3.1.4.").unwrap();
    assert_eq!(trailing.0, vec![3, 1, 4]);
    let suffix = ChapterNumber::from_str("-1.3.8.").unwrap();
    assert_eq!(suffix.0, vec![-1, 3, 8]);
    let empty = ChapterNumber::from_str("").unwrap();
    assert!(empty.0.is_empty());
    assert_eq!(empty.to_text(), "");
}

#[test]
fn chapter_number_rejects_malformed_text() {
    assert!(ChapterNumber::from_str(".").is_none());
    assert!(ChapterNumber::from_str("3..1").is_none());
    assert!(ChapterNumber::from_str("a.b").is_none());
    assert!(ChapterNumber::from_str("3.1x").is_none());
}

#[test]
fn parse_i64_handles_signs_and_bounds() {
    assert_eq!(parse_i64("9223372036854775807"), Some(i64::MAX));
    assert_eq!(parse_i64("9223372036854775808"), None);
    assert_eq!(parse_i64("-9223372036854775808"), Some(i64::MIN));
    assert_eq!(parse_i64("-9223372036854775809"), None);
    assert_eq!(parse_i64("+5"), Some(5));
    assert_eq!(parse_i64("-0"), Some(0));
    assert_eq!(parse_i64(""), None);
    assert_eq!(parse_i64("-"), None);
    assert_eq!(parse_i64("12a"), None);
}

#[test]
fn chapter_number_cmp() {
    let texts = ["3.1.4", "", "2.3.2", "-1.3.8.", "5.4.1", "4.7.6"];
    let mut numbers: Vec<ChapterNumber> = texts
        .iter()
        .map(|t| ChapterNumber::from_str(t).unwrap())
        .collect();
    numbers.sort_by(|a, b| a.cmp(b));
    let rendered: Vec<String> = numbers.iter().map(|n| n.to_text()).collect();
    println!("{:?}", rendered);
    // The empty number first, ordinary chapters in lexicographic order, and
    // the suffix chapter (leading -1) after every ordinary chapter.
    assert_eq!(rendered, vec!["", "2.3.2.", "3.1.4.", "4.7.6.", "5.4.1.", "-1.3.8."]);
}

#[test]
fn toc_lines_and_table() {
    let plain = chapter("Intro", "1", Some("ch1.md"), "text");
    assert_eq!(plain.get_toc_item(), "1. [Intro](ch1.md)  \n");
    let nested = chapter("Verbs", "1.3", None, "text");
    assert_eq!(nested.get_toc_item(), "  1.3. [Verbs]()  \n");
    let prefix = chapter("Preface", "0.1", None, "text");
    assert_eq!(prefix.get_toc_item(), "0.1. [Preface]()  \n");
    let suffix = chapter("Appendix", "-1.1", None, "text");
    assert_eq!(suffix.get_toc_item(), "-1.1. [Appendix]()  \n");

    let book = Book::new(
        7,
        "Grammar".to_string(),
        vec![plain, nested],
        vec!["A. Author".to_string()],
        None,
    )
    .unwrap();
    assert_eq!(
        book.get_table_of_contents(),
        "# Grammar\n1. [Intro](ch1.md)  \n  1.3. [Verbs]()  \n"
    );
}

#[test]
fn unordered_chapters_are_refused() {
    let a = chapter("Two", "2", None, "b");
    let b = chapter("One", "1", None, "a");
    let r = Book::new(1, "T".to_string(), vec![a, b], vec![], None);
    match r {
        Err(e) => assert_eq!(e.message(), "Fatal error: chapters are not in reading order"),
        Ok(_) => panic!("chapters out of reading order must be refused"),
    }
    // Suffix chapters come after ordinary ones, so this order is accepted.
    let ok = Book::new(
        1,
        "T".to_string(),
        vec![chapter("One", "1", None, "a"), chapter("Appendix", "-1.1", None, "z")],
        vec![],
        None,
    );
    assert!(ok.is_ok());
}

#[test]
fn duplicate_chapter_numbers_are_refused() {
    let a = chapter("One", "1", None, "a");
    let b = chapter("AlsoOne", "1", None, "b");
    let r = Book::new(1, "T".to_string(), vec![a, b], vec![], None);
    match r {
        Err(e) => assert_eq!(e.message(), "Fatal error: chapter number is not unique"),
        Ok(_) => panic!("duplicate chapter numbers must be refused"),
    }
}

#[test]
fn chapter_lookup() {
    let book = Book::new(
        1,
        "T".to_string(),
        vec![chapter("One", "1", None, "first"), chapter("Two", "2", None, "second")],
        vec![],
        None,
    )
    .unwrap();
    let n2 = ChapterNumber::from_str("2.").unwrap();
    assert_eq!(book.get_chapter(&n2).unwrap().content, "second");
    let got = book.get_chapter_content(&n2).unwrap();
    assert_eq!(got.name, "Two");
    let missing = ChapterNumber::from_str("9").unwrap();
    assert!(book.get_chapter(&missing).is_none());
    let err = book.get_chapter_content(&missing);
    match err {
        Err(e) => assert_eq!(e.message(), "Fatal error: chapter not found"),
        Ok(_) => panic!("missing chapter must be an error"),
    }
}

#[test]
fn default_numbering_of_unnumbered_chapters() {
    let mut chapters = vec![
        chapter("Preface", "", None, "p"),
        chapter("SecondPreface", "", None, "q"),
        chapter("One", "1", None, "a"),
        chapter("Appendix", "", None, "z"),
    ];
    book_server::book::assign_default_numbers(&mut chapters);
    assert_eq!(chapters[0].number.0, vec![0, 1]);
    assert_eq!(chapters[1].number.0, vec![0, 2]);
    assert_eq!(chapters[2].number.0, vec![1]);
    assert_eq!(chapters[3].number.0, vec![-1, 1]);
}

#[test]
fn token_estimates() {
    assert_eq!(token_count("abcdefgh"), 2);
    assert_eq!(token_count(""), 0);
    assert_eq!(book_server::tokens::message_token_count(&Some("abcdefgh".to_string())), 2);
    assert_eq!(book_server::tokens::message_token_count(&None), 0);
}
