//! View data for the pages around the engine: the verses page — including
//! the post-retrieval narrowing of the requested verse range to the span
//! actually found — the book and all-books pages, search results, and
//! error payloads.

use core::ops::RangeInclusive;
use vstd::prelude::*;

use crate::error::{spec_message, Error};
use crate::link::{
    books_wf, opt_link, spec_book_url, spec_chapter_url, spec_nav, spec_root_link,
    spec_verse_range_url, spec_verse_url, AllBooksLinks, BookLinks, Link, VersesLinks,
};
use crate::models::{Book, Verse, VerseFTS};
use crate::reference::{spec_format, Reference};

verus! {

/// Represents empty view data, for pages that need no context to render.
#[derive(Debug)]
pub struct EmptyData;

/// Error data for a view.
#[derive(Debug)]
pub struct ErrorData {
    pub message: String,
}

impl ErrorData {
    /// Creates error data carrying the error's message.
    pub fn from_error(e: &Error) -> (r: ErrorData)
        ensures
            r.message@ == spec_message(*e),
    {
        ErrorData { message: e.message() }
    }
}

/// Query parameters of the search endpoints.
#[derive(Debug)]
pub struct SearchParams {
    pub q: String,
}

/// The verse range a reference narrows to once the verses are fetched: the
/// requested start, up to the last verse number actually returned; `None`
/// when nothing was requested or nothing came back.
pub open spec fn narrowed_verses(requested: Option<(int, int)>, verses: Seq<Verse>) -> Option<
    (int, int),
> {
    match requested {
        None => None,
        Some((a, _)) => if verses.len() == 0 {
            None
        } else {
            Some((a, verses.last()@.verse))
        },
    }
}

/// Data of the verses page.
#[derive(Debug)]
pub struct VersesData {
    pub book: Book,
    pub links: VersesLinks,
    pub reference: Reference,
    pub reference_string: String,
    pub verses: Vec<Verse>,
}

impl VersesData {
    /// Builds the verses-page data: the reference is rewritten to the
    /// canonical book name and its verse range narrowed to the span that
    /// was actually returned, then rendered and linked.  A chapter past the
    /// end of the book is allowed: its retrieval is empty, and its links
    /// still render.
    pub fn new(result: (Book, Vec<Verse>), reference: Reference, books: &Vec<Book>) -> (r:
        VersesData)
        requires
            books_wf(books@),
            1 <= result.0@.id <= books@.len(),
            result.0@.chapter_count >= 1,
            1 <= reference@.chapter < crate::text::MAX_NUM,
            (result.0@.chapter_count == 1 && (result.0@.id == 1 || result.0@.id
                == books@.len())) ==> reference@.chapter == 1,
            reference@.wf(),
            forall|k: int| 0 <= k < result.1@.len() ==> (#[trigger] result.1@[k])@.verse >= 0,
            // The verses are the retrieval result for this reference: none
            // lies below the requested start.
            match reference@.verses {
                None => true,
                Some((a, b)) => forall|k: int|
                    0 <= k < result.1@.len() ==> (#[trigger] result.1@[k])@.verse >= a,
            },
        ensures
            r.book@ == result.0@,
            r.verses@ == result.1@,
            r.reference@.book == result.0@.name,
            r.reference@.chapter == reference@.chapter,
            r.reference@.verses == narrowed_verses(reference@.verses, result.1@),
            r.reference_string@ == spec_format(r.reference@),
            r.links.books@ == spec_root_link(),
            r.links.book@ == spec_book_url(result.0@.name),
            opt_link(r.links.chapter) == Some(
                spec_chapter_url(result.0@.name, reference@.chapter),
            ),
            r.links.current@ == match narrowed_verses(reference@.verses, result.1@) {
                None => spec_chapter_url(result.0@.name, reference@.chapter),
                Some((a, b)) => spec_verse_range_url(result.0@.name, reference@.chapter, a, b),
            },
            (opt_link(r.links.previous), opt_link(r.links.next)) == spec_nav(
                result.0@,
                reference@.chapter,
                books@,
            ),
    {
        let (book, verses) = result;
        let narrowed: Option<RangeInclusive<i32>> = match &reference.verses {
            Some(vs) => {
                if verses.len() == 0 {
                    None
                } else {
                    Some(RangeInclusive::new(*vs.start(), verses[verses.len() - 1].verse))
                }
            }
            None => None,
        };
        let new_reference = Reference {
            book: book.name.clone(),
            chapter: reference.chapter,
            verses: narrowed,
        };
        let reference_string = new_reference.format();
        let links = VersesLinks::new(&book, &new_reference, books);

        VersesData { book, links, reference: new_reference, reference_string, verses }
    }
}

/// Data of the book page.
#[derive(Debug)]
pub struct BookData {
    pub book: Book,
    pub chapters: Vec<i32>,
    pub links: BookLinks,
}

impl BookData {
    /// Builds the book-page data.
    pub fn new(result: (Book, Vec<i32>), books: &Vec<Book>) -> (r: BookData)
        requires
            books_wf(books@),
            1 <= result.0@.id <= books@.len(),
            forall|k: int| 0 <= k < result.1@.len() ==> result.1@[k] >= 0,
        ensures
            r.book@ == result.0@,
            r.chapters@ == result.1@,
            r.links.books@ == spec_root_link(),
            r.links.chapters@.len() == result.1@.len(),
            forall|k: int|
                0 <= k < result.1@.len() ==> (#[trigger] r.links.chapters@[k])@
                    == spec_chapter_url(result.0@.name, result.1@[k] as int).url,
            r.links.current@ == spec_book_url(result.0@.name),
    {
        let (book, chapters) = result;
        let links = BookLinks::new(&book, &chapters, books);
        BookData { book, chapters, links }
    }
}

/// Data of the all-books page.
#[derive(Debug)]
pub struct AllBooksData {
    pub books: Vec<Book>,
    pub links: AllBooksLinks,
}

impl AllBooksData {
    /// Builds the all-books data: one link per book.
    pub fn new(books: Vec<Book>) -> (r: AllBooksData)
        ensures
            r.books@ == books@,
            r.links.books@.len() == books@.len(),
            forall|k: int|
                0 <= k < books@.len() ==> (#[trigger] r.links.books@[k])@ == spec_book_url(
                    books@[k]@.name,
                ),
    {
        let links = AllBooksLinks::new(&books);
        AllBooksData { books, links }
    }
}

/// The all-books payload of the JSON API.
#[derive(Debug)]
pub struct AllBooksPayload {
    pub books: Vec<Book>,
}

/// A search result: a link to the verse and its (possibly highlighted)
/// text.
#[derive(Debug)]
pub struct SearchResult {
    pub link: Link,
    pub text: String,
}

/// Data of the search endpoint.
#[derive(Debug)]
pub struct SearchResultData {
    pub matches: Vec<SearchResult>,
}

impl SearchResultData {
    /// Creates an empty search result list.
    pub fn empty() -> (r: SearchResultData)
        ensures
            r.matches@.len() == 0,
    {
        SearchResultData { matches: vec![] }
    }

    /// Creates search result data from full-text-search hits: each match
    /// links to its verse and carries the highlighted text.
    pub fn from_verses_fts(from_db: Vec<(VerseFTS, Book)>) -> (r: SearchResultData)
        requires
            forall|k: int|
                0 <= k < from_db@.len() ==> (#[trigger] from_db@[k]).0@.chapter >= 0
                    && from_db@[k].0@.verse >= 0,
        ensures
            r.matches@.len() == from_db@.len(),
            forall|k: int|
                0 <= k < from_db@.len() ==> (#[trigger] r.matches@[k]).link@ == spec_verse_url(
                    from_db@[k].1@.name,
                    from_db@[k].0@.chapter,
                    from_db@[k].0@.verse,
                ) && r.matches@[k].text@ == from_db@[k].0@.words,
    {
        let mut matches: Vec<SearchResult> = Vec::new();
        let mut i: usize = 0;
        while i < from_db.len()
            invariant
                i <= from_db@.len(),
                forall|k: int|
                    0 <= k < from_db@.len() ==> (#[trigger] from_db@[k]).0@.chapter >= 0
                        && from_db@[k].0@.verse >= 0,
                matches@.len() == i,
                forall|k: int|
                    0 <= k < i ==> (#[trigger] matches@[k]).link@ == spec_verse_url(
                        from_db@[k].1@.name,
                        from_db@[k].0@.chapter,
                        from_db@[k].0@.verse,
                    ) && matches@[k].text@ == from_db@[k].0@.words,
            decreases from_db@.len() - i,
        {
            let v = &from_db[i].0;
            let b = &from_db[i].1;
            matches.push(
                SearchResult {
                    link: crate::link::verse_url(b.name.as_str(), v.chapter, v.verse),
                    text: v.words.clone(),
                },
            );
            i = i + 1;
        }
        SearchResultData { matches }
    }

    /// Creates search result data from plain verses of one book.
    pub fn from_verses(from_db: (Book, Vec<Verse>)) -> (r: SearchResultData)
        requires
            forall|k: int|
                0 <= k < from_db.1@.len() ==> (#[trigger] from_db.1@[k])@.chapter >= 0
                    && from_db.1@[k]@.verse >= 0,
        ensures
            r.matches@.len() == from_db.1@.len(),
            forall|k: int|
                0 <= k < from_db.1@.len() ==> (#[trigger] r.matches@[k]).link@
                    == spec_verse_url(
                    from_db.0@.name,
                    from_db.1@[k]@.chapter,
                    from_db.1@[k]@.verse,
                ) && r.matches@[k].text@ == from_db.1@[k]@.words,
    {
        let (book, verses) = from_db;
        let mut matches: Vec<SearchResult> = Vec::new();
        let mut i: usize = 0;
        while i < verses.len()
            invariant
                i <= verses@.len(),
                forall|k: int|
                    0 <= k < verses@.len() ==> (#[trigger] verses@[k])@.chapter >= 0
                        && verses@[k]@.verse >= 0,
                matches@.len() == i,
                forall|k: int|
                    0 <= k < i ==> (#[trigger] matches@[k]).link@ == spec_verse_url(
                        book@.name,
                        verses@[k]@.chapter,
                        verses@[k]@.verse,
                    ) && matches@[k].text@ == verses@[k]@.words,
            decreases verses@.len() - i,
        {
            let v = &verses[i];
            matches.push(
                SearchResult {
                    link: crate::link::verse_url(book.name.as_str(), v.chapter, v.verse),
                    text: v.words.clone(),
                },
            );
            i = i + 1;
        }
        SearchResultData { matches }
    }
}

} // verus!
