//! Tests of the lookup engine over a small in-memory corpus.

use receptus::models::{Book, BookAbbreviation, Reference, Testament, Verse, VerseFTS};
use receptus::sword_drill::SearchMode;
use receptus::{DbError, SwordDrill, VerseFormat, VerseStore};

fn book(id: i32, name: &str, chapter_count: i32, testament: Testament) -> Book {
    Book {
        id,
        name: name.to_string(),
        chapter_count,
        testament,
    }
}

fn verse(id: i32, book: i32, chapter: i32, verse: i32, words: &str) -> Verse {
    Verse {
        id,
        book,
        chapter,
        verse,
        words: words.to_string(),
    }
}

/// A corpus of three books; Psalms 119 carries 176 verses, with the real
/// text at verse 105.
fn store() -> VerseStore {
    let books = vec![
        book(1, "Job", 42, Testament::Old),
        book(2, "Psalms", 150, Testament::Old),
        book(3, "Proverbs", 31, Testament::Old),
    ];
    let abbreviations = vec![
        BookAbbreviation {
            id: 1,
            book_id: 1,
            abbreviation: "job".to_string(),
        },
        BookAbbreviation {
            id: 2,
            book_id: 2,
            abbreviation: "psalms".to_string(),
        },
        BookAbbreviation {
            id: 3,
            book_id: 2,
            abbreviation: "psa".to_string(),
        },
        BookAbbreviation {
            id: 4,
            book_id: 3,
            abbreviation: "proverbs".to_string(),
        },
    ];
    let mut verses = Vec::new();
    for v in 1..=176 {
        let words = if v == 105 {
            "NUN. Thy word is a lamp unto my feet, and a light unto my path.".to_string()
        } else {
            format!("psalm words {}", v)
        };
        verses.push(verse(v, 2, 119, v, &words));
    }
    let verses_html = verses.iter().map(|v| verse(v.id, v.book, v.chapter, v.verse, &format!("<p>{}</p>", v.words))).collect();
    VerseStore::new(books, abbreviations, verses, verses_html).expect("well-formed corpus")
}

/// Resolving an abbreviation finds the book and its full chapter list.
#[test]
fn resolve_abbreviation() {
    let store = store();
    let (b, chapters) = SwordDrill::book("psa", &store).unwrap();
    assert_eq!(b.name, "Psalms");
    assert_eq!(b.chapter_count, 150);
    assert_eq!(chapters.len(), 150);
    assert_eq!(chapters[0], 1);
    assert_eq!(chapters[149], 150);
}

/// Resolution is case-insensitive.
#[test]
fn resolve_case_insensitive() {
    let store = store();
    let (b, _) = SwordDrill::book("PSA", &store).unwrap();
    assert_eq!(b.name, "Psalms");
    let (b, _) = SwordDrill::book("Psalms", &store).unwrap();
    assert_eq!(b.name, "Psalms");
}

/// An unknown token fails with `BookNotFound` carrying the token.
#[test]
fn resolve_unknown_book() {
    let store = store();
    match SwordDrill::book("nope", &store) {
        Err(DbError::BookNotFound { book }) => assert_eq!(book, "nope"),
        other => panic!("expected BookNotFound, got {:?}", other),
    }
}

/// Retrieving a single verse returns exactly the known text.
#[test]
fn retrieve_single_verse() {
    let store = store();
    let reference = Reference::from_str("Psalms 119:105").unwrap();
    assert_eq!(reference.book, "Psalms");
    assert_eq!(reference.chapter, 119);
    assert_eq!(reference.verses, Some(105..=105));

    let (b, verses) = SwordDrill::verses(&reference, VerseFormat::PlainText, &store).unwrap();
    assert_eq!(b.name, "Psalms");
    assert_eq!(verses.len(), 1);
    assert_eq!(
        verses[0].words,
        "NUN. Thy word is a lamp unto my feet, and a light unto my path."
    );
}

/// The HTML table is selected by the format flag.
#[test]
fn retrieve_html_format() {
    let store = store();
    let reference = Reference::from_str("Psalms 119:105").unwrap();
    let (_, verses) = SwordDrill::verses(&reference, VerseFormat::Html, &store).unwrap();
    assert_eq!(verses.len(), 1);
    assert!(verses[0].words.starts_with("<p>"));
}

/// An out-of-range request returns the verses that exist, in order, and an
/// empty chapter is an empty result, not an error.
#[test]
fn retrieve_bounded_and_ordered() {
    let store = store();
    let reference = Reference::from_str("Psalms 119:1-999").unwrap();
    let (_, verses) = SwordDrill::verses(&reference, VerseFormat::PlainText, &store).unwrap();
    assert_eq!(verses.len(), 176);
    for (i, v) in verses.iter().enumerate() {
        assert_eq!(v.verse, (i + 1) as i32);
    }

    let missing = Reference::from_str("Psalms 23").unwrap();
    let (_, verses) = SwordDrill::verses(&missing, VerseFormat::PlainText, &store).unwrap();
    assert_eq!(verses.len(), 0);
}

/// Retrieval resolves the book case-insensitively from the typed token.
#[test]
fn retrieve_unknown_book_fails() {
    let store = store();
    let reference = Reference::from_str("Wisdom 1:1").unwrap();
    match SwordDrill::verses(&reference, VerseFormat::PlainText, &store) {
        Err(DbError::BookNotFound { book }) => assert_eq!(book, "wisdom"),
        other => panic!("expected BookNotFound, got {:?}", other),
    }
}

/// All books come back in canonical order.
#[test]
fn all_books_in_order() {
    let store = store();
    let books = SwordDrill::all_books(&store).unwrap();
    assert_eq!(books.len(), 3);
    assert_eq!(books[0].name, "Job");
    assert_eq!(books[1].name, "Psalms");
    assert_eq!(books[2].name, "Proverbs");
}

/// Word queries keep letters and spaces and gain a trailing wildcard.
#[test]
fn search_expression_words() {
    assert_eq!(
        SwordDrill::search_expression("fire hammer rock").unwrap(),
        "fire hammer rock*"
    );
}

/// Control syntax is stripped before the query reaches the index.
#[test]
fn search_expression_strips_controls() {
    assert_eq!(
        SwordDrill::search_expression("fire* ham:mer -rock3").unwrap(),
        "fire hammer rock*"
    );
}

/// A quoted query becomes a quoted phrase expression, with no wildcard.
#[test]
fn search_expression_phrase() {
    assert_eq!(
        SwordDrill::search_expression("\"like as a fire\"").unwrap(),
        "\"like as a fire\""
    );
}

/// A bare leading number followed by a space sanitizes to nothing: zero
/// results, not an error.
#[test]
fn search_leading_number_is_empty() {
    assert_eq!(SwordDrill::search_expression("1 "), None);
    assert_eq!(SwordDrill::search_expression("123!*:"), None);
    assert_eq!(SwordDrill::search_expression("   "), None);
}

/// Search prefers exact retrieval: a query that parses as a citation is
/// answered by retrieval, free text goes to the index, and text that
/// sanitizes to nothing yields an empty answer.
#[test]
fn search_dispatch() {
    match SwordDrill::search_mode("psalms 119:105") {
        SearchMode::Reference(r) => {
            assert_eq!(r.book, "psalms");
            assert_eq!(r.chapter, 119);
            assert_eq!(r.verses, Some(105..=105));
        }
        other => panic!("expected a citation, got {:?}", other),
    }
    match SwordDrill::search_mode("fire hammer rock") {
        SearchMode::FullText(e) => assert_eq!(e, "fire hammer rock*"),
        other => panic!("expected a full-text query, got {:?}", other),
    }
    assert!(matches!(SwordDrill::search_mode("1 "), SearchMode::Empty));
}

/// Hit lists are capped at fifteen results, keeping the best-ranked prefix.
#[test]
fn search_results_capped() {
    let hits: Vec<(VerseFTS, Book)> = (0..20)
        .map(|i| {
            (
                VerseFTS {
                    book: 2,
                    chapter: 119,
                    verse: i + 1,
                    words: format!("words {}", i),
                },
                book(2, "Psalms", 150, Testament::Old),
            )
        })
        .collect();
    let capped = SwordDrill::cap_results(hits);
    assert_eq!(capped.len(), 15);
    assert_eq!(capped[0].0.verse, 1);
    assert_eq!(capped[14].0.verse, 15);
}

/// The snapshot constructor rejects data that breaks its invariants.
#[test]
fn store_rejects_bad_data() {
    // Books out of canonical order.
    assert!(VerseStore::new(
        vec![book(2, "Psalms", 150, Testament::Old)],
        vec![],
        vec![],
        vec![],
    )
    .is_none());

    // Duplicate abbreviation keys.
    assert!(VerseStore::new(
        vec![book(1, "Psalms", 150, Testament::Old)],
        vec![
            BookAbbreviation {
                id: 1,
                book_id: 1,
                abbreviation: "psa".to_string()
            },
            BookAbbreviation {
                id: 2,
                book_id: 1,
                abbreviation: "psa".to_string()
            },
        ],
        vec![],
        vec![],
    )
    .is_none());

    // Unsorted verses.
    assert!(VerseStore::new(
        vec![book(1, "Psalms", 150, Testament::Old)],
        vec![],
        vec![verse(1, 1, 2, 1, "b"), verse(2, 1, 1, 1, "a")],
        vec![],
    )
    .is_none());
}
