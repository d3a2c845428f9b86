//! Tests of citation parsing and rendering.

use receptus::models::Reference;
use receptus::reference::parse_num;
use receptus::DbError;

/// Parsing accepts canonical names, abbreviations, and `.`/`:`/space
/// separators, and yields the same structured reference for each form.
#[test]
fn reference_fmt() {
    vec![
        ("Genesis 50", "Genesis", 50, None),
        ("Joel 2:", "Joel", 2, None),
        ("Song of Solomon 1", "Song of Solomon", 1, None),
        ("Exodus 20", "Exodus", 20, None),
        ("1cor 4", "1cor", 4, None),
        ("John 1:1", "John", 1, Some(1..=1)),
        ("jhn.1.1", "jhn", 1, Some(1..=1)),
        ("I Timothy 3:16", "I Timothy", 3, Some(16..=16)),
        ("1 Timothy 3:16-18", "1 Timothy", 3, Some(16..=18)),
        ("1tim 3.16", "1tim", 3, Some(16..=16)),
    ]
    .iter()
    .for_each(|(raw, book, chapter, verses)| {
        assert_eq!(
            Reference::from_str(raw).unwrap(),
            Reference {
                book: (*book).to_string(),
                chapter: *chapter,
                verses: verses.to_owned()
            }
        );
    });
}

/// Rendering produces the canonical display form.
#[test]
fn reference_from_str() {
    vec![
        ("Genesis 50", "Genesis", 50, None),
        ("Song of Solomon 1", "Song of Solomon", 1, None),
        ("3 John 1", "3 John", 1, None),
        ("Exodus 20", "Exodus", 20, None),
        ("1 Cor 4", "1 Cor", 4, None),
        ("John 1:1", "John", 1, Some(1..=1)),
        ("I Timothy 3:16", "I Timothy", 3, Some(16..=16)),
        ("1 Timothy 3:16-18", "1 Timothy", 3, Some(16..=18)),
        ("1Tim 3:16", "1Tim", 3, Some(16..=16)),
    ]
    .iter()
    .for_each(|(expected, book, chapter, verses)| {
        assert_eq!(
            Reference {
                book: (*book).to_string(),
                chapter: *chapter,
                verses: verses.to_owned()
            }
            .format(),
            (*expected).to_string()
        );
    });
}

/// Different spellings of the same citation parse to the same chapter and
/// verse range, differing only in the book token.
#[test]
fn parse_equivalence_classes() {
    let a = Reference::from_str("John 1:1").unwrap();
    let b = Reference::from_str("jhn.1.1").unwrap();
    assert_eq!(a.chapter, b.chapter);
    assert_eq!(a.verses, b.verses);

    let c = Reference::from_str("1 Timothy 3:16").unwrap();
    let d = Reference::from_str("1tim 3.16").unwrap();
    assert_eq!(c.chapter, d.chapter);
    assert_eq!(c.verses, d.verses);
}

/// A citation longer than 100 characters is rejected.
#[test]
fn too_long_reference_fails() {
    let long = "a".repeat(101);
    match Reference::from_str(&long) {
        Err(DbError::InvalidReference { reference }) => assert_eq!(reference, long),
        other => panic!("expected InvalidReference, got {:?}", other),
    }
}

/// A citation of exactly 100 characters is still accepted.
#[test]
fn max_length_reference_ok() {
    let raw = format!("{} 123", "a".repeat(96));
    assert_eq!(raw.chars().count(), 100);
    let r = Reference::from_str(&raw).unwrap();
    assert_eq!(r.chapter, 123);
}

/// An empty citation is rejected, not a panic.
#[test]
fn empty_reference_fails() {
    assert!(matches!(
        Reference::from_str(""),
        Err(DbError::InvalidReference { .. })
    ));
}

/// A citation without a chapter is rejected: the chapter is mandatory.
#[test]
fn book_only_reference_fails() {
    assert!(matches!(
        Reference::from_str("Genesis"),
        Err(DbError::InvalidReference { .. })
    ));
}

/// A descending explicit verse range breaks the reference invariant and is
/// rejected.
#[test]
fn descending_range_fails() {
    assert!(matches!(
        Reference::from_str("John 1:5-2"),
        Err(DbError::InvalidReference { .. })
    ));
    // An ascending or single-point range is fine.
    assert!(Reference::from_str("John 1:2-5").is_ok());
    assert!(Reference::from_str("John 1:2-2").is_ok());
}

/// A citation whose book token trims to nothing is rejected.
#[test]
fn empty_book_token_fails() {
    assert!(matches!(
        Reference::from_str(" 1:2"),
        Err(DbError::InvalidReference { .. })
    ));
}

/// A citation that names only a start verse yields a single-verse range,
/// whose bounds coincide.
#[test]
fn single_verse_range_has_equal_bounds() {
    let r = Reference::from_str("Psalms 119:105").unwrap();
    let vs = r.verses.unwrap();
    assert_eq!(*vs.start(), 105);
    assert_eq!(*vs.end(), 105);
    assert!(vs.start() <= vs.end());
}

/// Round trip: canonical renderings parse back to the reference they were
/// rendered from.
#[test]
fn round_trip_canonical() {
    for s in ["Genesis 50", "John 1:1", "1 Timothy 3:16-18", "Song of Solomon 1"] {
        let r = Reference::from_str(s).unwrap();
        assert_eq!(r.format(), s);
    }
}

/// Number parsing: exact values, signs, leading zeros, and the failure
/// modes.
#[test]
fn parse_num_cases() {
    assert_eq!(parse_num("16".to_string()).unwrap(), 16);
    assert_eq!(parse_num("007".to_string()).unwrap(), 7);
    assert_eq!(parse_num("+7".to_string()).unwrap(), 7);
    assert_eq!(parse_num("-5".to_string()).unwrap(), -5);
    assert_eq!(parse_num("-2147483648".to_string()).unwrap(), -2147483648);
    assert!(matches!(
        parse_num("-2147483649".to_string()),
        Err(DbError::InvalidReference { .. })
    ));
    assert!(matches!(
        parse_num("-".to_string()),
        Err(DbError::InvalidReference { .. })
    ));
    assert!(matches!(
        parse_num("+-5".to_string()),
        Err(DbError::InvalidReference { .. })
    ));
    assert_eq!(parse_num("2147483647".to_string()).unwrap(), 2147483647);
    assert!(matches!(
        parse_num("2147483648".to_string()),
        Err(DbError::InvalidReference { .. })
    ));
    assert!(matches!(
        parse_num("".to_string()),
        Err(DbError::InvalidReference { .. })
    ));
    assert!(matches!(
        parse_num("1a".to_string()),
        Err(DbError::InvalidReference { .. })
    ));
}

/// A verse number too large for an `i32` fails the whole parse.
#[test]
fn oversized_verse_fails() {
    assert!(matches!(
        Reference::from_str("John 1:9999999999"),
        Err(DbError::InvalidReference { .. })
    ));
}

/// Trailing characters that fit no state are dropped, not an error.
#[test]
fn permissive_trailing_characters() {
    let r = Reference::from_str("John 1x").unwrap();
    assert_eq!(r.book, "John");
    assert_eq!(r.chapter, 1);
    assert_eq!(r.verses, None);
}
