//! Tests of the view-data layer: navigation links, post-retrieval
//! narrowing, page metadata and error payloads.

use receptus::data::{ErrorData, SearchResultData, VersesData};
use receptus::error::{Error, HtmlError, JsonError, ResponseKind};
use receptus::link::{BookLinks, VersesLinks};
use receptus::meta::Meta;
use receptus::models::{Book, Reference, Testament, Verse, VerseFTS};
use receptus::DbError;

fn all_books() -> Vec<Book> {
    let names: Vec<(&str, i32)> = vec![
        ("Genesis", 50),
        ("Exodus", 40),
        ("Leviticus", 27),
        ("Numbers", 36),
        ("Deuteronomy", 34),
        ("Joshua", 24),
        ("Judges", 21),
        ("Ruth", 4),
        ("1 Samuel", 31),
        ("2 Samuel", 24),
        ("1 Kings", 22),
        ("2 Kings", 25),
        ("1 Chronicles", 29),
        ("2 Chronicles", 36),
        ("Ezra", 10),
        ("Nehemiah", 13),
        ("Esther", 10),
        ("Job", 42),
        ("Psalms", 150),
        ("Proverbs", 31),
        ("Ecclesiastes", 12),
        ("Song of Solomon", 8),
        ("Isaiah", 66),
        ("Jeremiah", 52),
        ("Lamentations", 5),
        ("Ezekiel", 48),
        ("Daniel", 12),
        ("Hosea", 14),
        ("Joel", 3),
        ("Amos", 9),
        ("Obadiah", 1),
        ("Jonah", 4),
        ("Micah", 7),
        ("Nahum", 3),
        ("Habakkuk", 3),
        ("Zephaniah", 3),
        ("Haggai", 2),
        ("Zechariah", 14),
        ("Malachi", 4),
        ("Matthew", 28),
        ("Mark", 16),
        ("Luke", 24),
        ("John", 21),
        ("Acts", 28),
        ("Romans", 16),
        ("1 Corinthians", 16),
        ("2 Corinthians", 13),
        ("Galatians", 6),
        ("Ephesians", 6),
        ("Philippians", 4),
        ("Colossians", 4),
        ("1 Thessalonians", 5),
        ("2 Thessalonians", 3),
        ("1 Timothy", 6),
        ("2 Timothy", 4),
        ("Titus", 3),
        ("Philemon", 1),
        ("Hebrews", 13),
        ("James", 5),
        ("1 Peter", 5),
        ("2 Peter", 3),
        ("1 John", 5),
        ("2 John", 1),
        ("3 John", 1),
        ("Jude", 1),
        ("Revelation", 22),
    ];
    names
        .into_iter()
        .enumerate()
        .map(|(i, (name, chapter_count))| Book {
            id: (i + 1) as i32,
            name: name.to_string(),
            chapter_count,
            testament: if i < 39 { Testament::Old } else { Testament::New },
        })
        .collect()
}

#[test]
fn urls_for_books() {
    let books = all_books();

    // Genesis
    let book = &books[0];
    let chapters: Vec<i32> = (1..=book.chapter_count).collect();
    let links = BookLinks::new(book, &chapters, &books);
    assert_eq!(links.current.url, "/Genesis");
    assert!(links.previous.is_none());
    assert_eq!(links.next.unwrap().url, "/Exodus");

    // Revelation
    let book = &books[65];
    let chapters: Vec<i32> = (1..=book.chapter_count).collect();
    let links = BookLinks::new(book, &chapters, &books);
    assert_eq!(links.current.url, "/Revelation");
    assert_eq!(links.previous.unwrap().url, "/Jude");
    assert!(links.next.is_none());

    // Typical book
    let book = &books[18];
    let chapters: Vec<i32> = (1..=book.chapter_count).collect();
    let links = BookLinks::new(book, &chapters, &books);
    assert_eq!(links.current.url, "/Psalms");
    assert_eq!(links.previous.unwrap().url, "/Job");
    assert_eq!(links.next.unwrap().url, "/Proverbs");
}

#[test]
fn urls_for_verses() {
    let books = all_books();

    // Genesis 1
    let book = &books[0];
    let reference = Reference::from_str("Genesis 1").unwrap();
    let links = VersesLinks::new(book, &reference, &books);
    assert_eq!(links.book.url, "/Genesis");
    assert_eq!(links.chapter.unwrap().url, "/Genesis/1");
    assert_eq!(links.current.url, "/Genesis/1");
    assert!(links.previous.is_none());
    assert_eq!(links.next.unwrap().url, "/Genesis/2");

    // Revelation 22
    let book = &books[65];
    let reference = Reference::from_str("Revelation 22").unwrap();
    let links = VersesLinks::new(book, &reference, &books);
    assert_eq!(links.current.url, "/Revelation/22");
    assert_eq!(links.previous.unwrap().url, "/Revelation/21");
    assert!(links.next.is_none());

    // First chapter
    let book = &books[18];
    let reference = Reference::from_str("Psalms 1").unwrap();
    let links = VersesLinks::new(book, &reference, &books);
    assert_eq!(links.current.url, "/Psalms/1");
    assert_eq!(links.previous.unwrap().url, "/Job/42");

    // Last chapter
    let reference = Reference::from_str("Psalms 150").unwrap();
    let links = VersesLinks::new(book, &reference, &books);
    assert_eq!(links.current.url, "/Psalms/150");
    assert_eq!(links.next.unwrap().url, "/Proverbs/1");

    // Typical verses
    let reference = Reference::from_str("Psalms 119").unwrap();
    let links = VersesLinks::new(book, &reference, &books);
    assert_eq!(links.current.url, "/Psalms/119");
    assert_eq!(links.previous.unwrap().url, "/Psalms/118");
    assert_eq!(links.next.unwrap().url, "/Psalms/120");
}

/// A one-chapter book steps to the last chapter of the previous book and
/// the first of the next.
#[test]
fn urls_for_one_chapter_book() {
    let books = all_books();
    let book = &books[64]; // Jude
    let reference = Reference::from_str("Jude 1").unwrap();
    let links = VersesLinks::new(book, &reference, &books);
    assert_eq!(links.previous.unwrap().url, "/3 John/1");
    assert_eq!(links.next.unwrap().url, "/Revelation/1");
}

/// A chapter past the end of the book still gets page links, with
/// neighbours one step away.
#[test]
fn urls_for_out_of_range_chapter() {
    let books = all_books();
    let book = &books[18];
    let reference = Reference::from_str("Psalms 200").unwrap();
    let links = VersesLinks::new(book, &reference, &books);
    assert_eq!(links.current.url, "/Psalms/200");
    assert_eq!(links.previous.unwrap().url, "/Psalms/199");
    assert_eq!(links.next.unwrap().url, "/Psalms/201");
}

/// Narrowing: a request past the end of the chapter reports the verses
/// actually found.
#[test]
fn narrowing_out_of_range_request() {
    let books = all_books();
    let psalms = books[18].clone();
    let verses: Vec<Verse> = (1..=176)
        .map(|v| Verse {
            id: v,
            book: 19,
            chapter: 119,
            verse: v,
            words: format!("w{}", v),
        })
        .collect();
    let reference = Reference::from_str("Psalms 119:1-999").unwrap();
    assert_eq!(reference.verses, Some(1..=999));

    let data = VersesData::new((psalms, verses), reference, &books);
    assert_eq!(data.reference.verses, Some(1..=176));
    assert_eq!(data.reference_string, "Psalms 119:1-176");
    assert_eq!(data.verses.len(), 176);
}

/// Narrowing keeps a fully-present request intact and rewrites the book
/// token to the canonical name.
#[test]
fn narrowing_canonicalizes_book() {
    let books = all_books();
    let psalms = books[18].clone();
    let verses = vec![Verse {
        id: 105,
        book: 19,
        chapter: 119,
        verse: 105,
        words: "NUN. Thy word is a lamp unto my feet, and a light unto my path.".to_string(),
    }];
    let reference = Reference::from_str("psa 119:105").unwrap();
    let data = VersesData::new((psalms, verses), reference, &books);
    assert_eq!(data.reference.book, "Psalms");
    assert_eq!(data.reference.verses, Some(105..=105));
    assert_eq!(data.reference_string, "Psalms 119:105");
}

/// An empty retrieval narrows the range away entirely.
#[test]
fn narrowing_empty_result() {
    let books = all_books();
    let psalms = books[18].clone();
    let reference = Reference::from_str("Psalms 119:200-300").unwrap();
    let data = VersesData::new((psalms, vec![]), reference, &books);
    assert_eq!(data.reference.verses, None);
    assert_eq!(data.reference_string, "Psalms 119");
}

/// Search hits become links to their verse with the highlighted text kept.
#[test]
fn search_result_data() {
    let jeremiah = Book {
        id: 24,
        name: "Jeremiah".to_string(),
        chapter_count: 52,
        testament: Testament::Old,
    };
    let hits = vec![(
        VerseFTS {
            book: 24,
            chapter: 23,
            verse: 29,
            words: "Is not my word like as a <em>fire</em>? saith the LORD; and like a <em>hammer</em> that breaketh the <em>rock</em> in pieces?".to_string(),
        },
        jeremiah,
    )];
    let data = SearchResultData::from_verses_fts(hits);
    assert_eq!(data.matches.len(), 1);
    assert_eq!(data.matches[0].link.url, "/Jeremiah/23#v29");
    assert_eq!(data.matches[0].link.label, "Jeremiah 23:29");
    assert!(data.matches[0].text.contains("<em>fire</em>"));

    assert_eq!(SearchResultData::empty().matches.len(), 0);
}

/// Error messages and their response decisions.
#[test]
fn error_messages_and_responses() {
    let db_err = DbError::BookNotFound {
        book: "nope".to_string(),
    };
    assert_eq!(db_err.message(), "'nope' was not found.");

    let err: Error = Error::from(db_err);
    assert_eq!(err.message(), "'nope' was not found.");
    assert_eq!(
        ErrorData::from_error(&err).message,
        "'nope' was not found."
    );

    assert_eq!(
        DbError::Other {
            cause: "boom".to_string()
        }
        .message(),
        "There was a database error. Root cause: boom."
    );
    assert_eq!(
        DbError::ConnectionPool {
            cause: "boom".to_string()
        }
        .message(),
        "There was a connection pool error."
    );

    let invalid = Error::from(DbError::InvalidReference {
        reference: "x".to_string(),
    });
    assert_eq!(invalid.message(), "x is not a valid Bible reference.");

    // A search box downgrades a missing book to an empty result set.
    assert_eq!(
        JsonError::from(Error::BookNotFound("nope".to_string())).response_kind(),
        ResponseKind::OkEmptySearch
    );
    assert_eq!(
        JsonError::from(Error::InvalidReference("x".to_string())).response_kind(),
        ResponseKind::BadRequest
    );
    assert_eq!(
        HtmlError::from(Error::BookNotFound("nope".to_string())).response_kind(),
        ResponseKind::NotFound
    );
    assert_eq!(
        HtmlError::from(Error::Db("boom".to_string())).response_kind(),
        ResponseKind::InternalServerError
    );
}

/// Page metadata carries the expected titles and URLs.
#[test]
fn meta_pages() {
    let about = Meta::for_about();
    assert_eq!(about.title, "The Holy Bible | About");
    assert_eq!(about.url, "https://bible.rs/about");
    assert_eq!(about.description, "About Bible.rs");
    assert_eq!(about.json_ld.len(), 1);

    let error = Meta::for_error();
    assert_eq!(error.title, "The Holy Bible | Error");
    assert_eq!(error.description, "Error page");
    assert!(error.json_ld.is_empty());

    let search = Meta::for_search("fire", "/search?q=fire");
    assert_eq!(search.title, "The Holy Bible | Results for 'fire'");
    assert_eq!(search.description, "Results for 'fire'");
    assert_eq!(search.url, "https://bible.rs/search?q=fire");
}
