//! Site links: URL paths and labels for books, chapters and verses, and the
//! navigation link sets rendered on the book and verses pages — in
//! particular the previous/next chapter links, which step across book
//! boundaries.

use vstd::prelude::*;

use crate::models::{Book, BookModel};
use crate::reference::Reference;
use crate::text::{chars_string, dec_digits, push_i32_digits, push_str_chars, str_chars};

verus! {

/// Name used in link labels for the site root.
pub const NAME: &'static str = "Bible.rs";

/// A link: a URL path and a human-readable label.
#[derive(Debug)]
pub struct Link {
    pub label: String,
    pub url: String,
}

/// Mathematical model of a [`Link`].
#[verifier::ext_equal]
pub struct LinkModel {
    pub label: Seq<char>,
    pub url: Seq<char>,
}

impl View for Link {
    type V = LinkModel;

    open spec fn view(&self) -> LinkModel {
        LinkModel { label: self.label@, url: self.url@ }
    }
}

impl Clone for Link {
    /// Cloning keeps both fields.
    fn clone(&self) -> (r: Link)
        ensures
            r@ == self@,
    {
        Link { label: self.label.clone(), url: self.url.clone() }
    }
}

/// The model of an optional link.
pub open spec fn opt_link(o: Option<Link>) -> Option<LinkModel> {
    match o {
        None => None,
        Some(l) => Some(l@),
    }
}

/// The site root link.
pub open spec fn spec_root_link() -> LinkModel {
    LinkModel { label: NAME@, url: "/"@ }
}

/// The link for a book page.
pub open spec fn spec_book_url(b: Seq<char>) -> LinkModel {
    LinkModel { label: b, url: seq!['/'] + b }
}

/// The link for a chapter page.
pub open spec fn spec_chapter_url(b: Seq<char>, c: int) -> LinkModel {
    LinkModel {
        label: b + seq![' '] + dec_digits(c),
        url: seq!['/'] + b + seq!['/'] + dec_digits(c),
    }
}

/// The link for a single verse: the chapter page with a verse fragment.
pub open spec fn spec_verse_url(b: Seq<char>, c: int, v: int) -> LinkModel {
    LinkModel {
        label: b + seq![' '] + dec_digits(c) + seq![':'] + dec_digits(v),
        url: seq!['/'] + b + seq!['/'] + dec_digits(c) + seq!['#', 'v'] + dec_digits(v),
    }
}

/// The link for a verse range within a chapter.
pub open spec fn spec_verse_range_url(b: Seq<char>, c: int, a: int, e: int) -> LinkModel {
    let vs = if a == e {
        dec_digits(a)
    } else {
        dec_digits(a) + seq!['-'] + dec_digits(e)
    };
    LinkModel {
        label: b + seq![' '] + dec_digits(c) + seq![':'] + vs,
        url: seq!['/'] + b + seq!['/'] + dec_digits(c) + seq!['/'] + vs,
    }
}

/// Builds the site root link.
pub fn root_link() -> (r: Link)
    ensures
        r@ == spec_root_link(),
{
    Link { label: NAME.to_owned(), url: "/".to_owned() }
}

/// Builds the link for a book page.
pub fn book_url(b: &str) -> (r: Link)
    ensures
        r@ == spec_book_url(b@),
{
    let mut url: Vec<char> = Vec::new();
    url.push('/');
    push_str_chars(&mut url, b);
    proof {
        assert(url@ =~= seq!['/'] + b@);
    }
    Link { label: b.to_owned(), url: chars_string(&url) }
}

/// Builds the link for a chapter page.
pub fn chapter_url(b: &str, c: i32) -> (r: Link)
    requires
        c >= 0,
    ensures
        r@ == spec_chapter_url(b@, c as int),
{
    let mut label: Vec<char> = str_chars(b);
    label.push(' ');
    push_i32_digits(&mut label, c);
    let mut url: Vec<char> = Vec::new();
    url.push('/');
    push_str_chars(&mut url, b);
    url.push('/');
    push_i32_digits(&mut url, c);
    proof {
        assert(label@ =~= b@ + seq![' '] + dec_digits(c as int));
        assert(url@ =~= seq!['/'] + b@ + seq!['/'] + dec_digits(c as int));
    }
    Link { label: chars_string(&label), url: chars_string(&url) }
}

/// Builds the link for a single verse.
pub fn verse_url(b: &str, c: i32, v: i32) -> (r: Link)
    requires
        c >= 0,
        v >= 0,
    ensures
        r@ == spec_verse_url(b@, c as int, v as int),
{
    let mut label: Vec<char> = str_chars(b);
    label.push(' ');
    push_i32_digits(&mut label, c);
    label.push(':');
    push_i32_digits(&mut label, v);
    let mut url: Vec<char> = Vec::new();
    url.push('/');
    push_str_chars(&mut url, b);
    url.push('/');
    push_i32_digits(&mut url, c);
    url.push('#');
    url.push('v');
    push_i32_digits(&mut url, v);
    proof {
        assert(label@ =~= b@ + seq![' '] + dec_digits(c as int) + seq![':'] + dec_digits(
            v as int,
        ));
        assert(url@ =~= seq!['/'] + b@ + seq!['/'] + dec_digits(c as int) + seq!['#', 'v']
            + dec_digits(v as int));
    }
    Link { label: chars_string(&label), url: chars_string(&url) }
}

/// Builds the link for a verse range within a chapter.
pub fn verse_range_url(b: &str, c: i32, a: i32, e: i32) -> (r: Link)
    requires
        c >= 0,
        a >= 0,
        e >= 0,
    ensures
        r@ == spec_verse_range_url(b@, c as int, a as int, e as int),
{
    let mut vs: Vec<char> = Vec::new();
    push_i32_digits(&mut vs, a);
    if a != e {
        vs.push('-');
        push_i32_digits(&mut vs, e);
    }
    let mut label: Vec<char> = str_chars(b);
    label.push(' ');
    push_i32_digits(&mut label, c);
    label.push(':');
    crate::text::append_chars(&mut label, &vs);
    let mut url: Vec<char> = Vec::new();
    url.push('/');
    push_str_chars(&mut url, b);
    url.push('/');
    push_i32_digits(&mut url, c);
    url.push('/');
    crate::text::append_chars(&mut url, &vs);
    proof {
        let vss = if a == e {
            dec_digits(a as int)
        } else {
            dec_digits(a as int) + seq!['-'] + dec_digits(e as int)
        };
        assert(vs@ =~= vss);
        assert(label@ =~= b@ + seq![' '] + dec_digits(c as int) + seq![':'] + vss);
        assert(url@ =~= seq!['/'] + b@ + seq!['/'] + dec_digits(c as int) + seq!['/'] + vss);
    }
    Link { label: chars_string(&label), url: chars_string(&url) }
}

/// The book table is reference data in canonical order: 1-indexed ids with
/// at least one chapter each.
pub open spec fn books_wf(books: Seq<Book>) -> bool {
    &&& forall|i: int| 0 <= i < books.len() ==> (#[trigger] books[i])@.id == i + 1
    &&& forall|i: int| 0 <= i < books.len() ==> (#[trigger] books[i])@.chapter_count >= 1
}

/// The previous and next chapter links for a chapter page: within a book
/// they step one chapter, at a book boundary they step to the neighbouring
/// book's nearest chapter, and they vanish at the very first and very last
/// chapter of the corpus.
pub open spec fn spec_nav(book: BookModel, c: int, books: Seq<Book>) -> (Option<LinkModel>,
    Option<LinkModel>) {
    let bi = book.id - 1;
    let has_prev = bi > 0;
    let has_next = bi + 1 < books.len();
    if !has_prev && c == 1 {
        (None, Some(spec_chapter_url(book.name, c + 1)))
    } else if !has_next && c == book.chapter_count {
        (Some(spec_chapter_url(book.name, book.chapter_count - 1)), None)
    } else if book.chapter_count == 1 {
        (
            Some(spec_chapter_url(books[bi - 1]@.name, books[bi - 1]@.chapter_count)),
            Some(spec_chapter_url(books[bi + 1]@.name, 1)),
        )
    } else if c == 1 {
        (
            Some(spec_chapter_url(books[bi - 1]@.name, books[bi - 1]@.chapter_count)),
            Some(spec_chapter_url(book.name, c + 1)),
        )
    } else if c == book.chapter_count {
        (Some(spec_chapter_url(book.name, c - 1)), Some(spec_chapter_url(books[bi + 1]@.name, 1)))
    } else {
        (Some(spec_chapter_url(book.name, c - 1)), Some(spec_chapter_url(book.name, c + 1)))
    }
}

/// Links for the verses endpoint.
#[derive(Debug)]
pub struct VersesLinks {
    pub books: Link,
    pub book: Link,
    pub chapter: Option<Link>,
    pub previous: Option<Link>,
    pub next: Option<Link>,
    pub current: Link,
}

impl VersesLinks {
    /// Builds the link set for a verses page: the site root, the book, the
    /// chapter, the current selection, and the previous/next chapter
    /// navigation of [`spec_nav`].  The chapter need not exist in the book:
    /// an out-of-range chapter still gets its page links, with neighbours
    /// one step away.  Chapter `i32::MAX` is excluded (its successor has no
    /// `i32`), as is a chapter other than 1 of a single-chapter book that
    /// stands first or last in the corpus (such a page has no neighbour to
    /// link).
    pub fn new(book: &Book, reference: &Reference, books: &Vec<Book>) -> (r: VersesLinks)
        requires
            books_wf(books@),
            1 <= book@.id <= books@.len(),
            book@.chapter_count >= 1,
            1 <= reference@.chapter < crate::text::MAX_NUM,
            (book@.chapter_count == 1 && (book@.id == 1 || book@.id == books@.len()))
                ==> reference@.chapter == 1,
            match reference@.verses {
                None => true,
                Some((a, b)) => a >= 0 && b >= 0,
            },
        ensures
            r.books@ == spec_root_link(),
            r.book@ == spec_book_url(book@.name),
            opt_link(r.chapter) == Some(spec_chapter_url(book@.name, reference@.chapter)),
            r.current@ == match reference@.verses {
                None => spec_chapter_url(book@.name, reference@.chapter),
                Some((a, b)) => spec_verse_range_url(book@.name, reference@.chapter, a, b),
            },
            (opt_link(r.previous), opt_link(r.next)) == spec_nav(
                book@,
                reference@.chapter,
                books@,
            ),
    {
        let bible_root = root_link();
        let book_link = book_url(book.name.as_str());
        let chapter_link = Some(chapter_url(book.name.as_str(), reference.chapter));
        let current_link = match &reference.verses {
            Some(vs) => verse_range_url(
                book.name.as_str(),
                reference.chapter,
                *vs.start(),
                *vs.end(),
            ),
            None => chapter_url(book.name.as_str(), reference.chapter),
        };

        let book_index: usize = (book.id - 1) as usize;
        let c = reference.chapter;
        let has_prev = book_index > 0;
        let has_next = book_index + 1 < books.len();

        let (prev_link, next_link): (Option<Link>, Option<Link>) = if !has_prev && c == 1 {
            (None, Some(chapter_url(book.name.as_str(), c + 1)))
        } else if !has_next && c == book.chapter_count {
            (Some(chapter_url(book.name.as_str(), book.chapter_count - 1)), None)
        } else if book.chapter_count == 1 {
            let prev_book = &books[book_index - 1];
            let next_book = &books[book_index + 1];
            (
                Some(chapter_url(prev_book.name.as_str(), prev_book.chapter_count)),
                Some(chapter_url(next_book.name.as_str(), 1)),
            )
        } else if c == 1 {
            let prev_book = &books[book_index - 1];
            (
                Some(chapter_url(prev_book.name.as_str(), prev_book.chapter_count)),
                Some(chapter_url(book.name.as_str(), c + 1)),
            )
        } else if c == book.chapter_count {
            let next_book = &books[book_index + 1];
            (
                Some(chapter_url(book.name.as_str(), c - 1)),
                Some(chapter_url(next_book.name.as_str(), 1)),
            )
        } else {
            (
                Some(chapter_url(book.name.as_str(), c - 1)),
                Some(chapter_url(book.name.as_str(), c + 1)),
            )
        };

        VersesLinks {
            books: bible_root,
            book: book_link,
            chapter: chapter_link,
            previous: prev_link,
            next: next_link,
            current: current_link,
        }
    }
}

/// Links for the book endpoint.
#[derive(Debug)]
pub struct BookLinks {
    pub books: Link,
    pub chapters: Vec<String>,
    pub previous: Option<Link>,
    pub next: Option<Link>,
    pub current: Link,
}

impl BookLinks {
    /// Builds the link set for a book page: one chapter URL per chapter,
    /// and previous/next links to the neighbouring books in canonical
    /// order.
    pub fn new(book: &Book, chapters: &Vec<i32>, books: &Vec<Book>) -> (r: BookLinks)
        requires
            books_wf(books@),
            1 <= book@.id <= books@.len(),
            forall|k: int| 0 <= k < chapters@.len() ==> chapters@[k] >= 0,
        ensures
            r.books@ == spec_root_link(),
            r.chapters@.len() == chapters@.len(),
            forall|k: int|
                0 <= k < chapters@.len() ==> (#[trigger] r.chapters@[k])@ == spec_chapter_url(
                    book@.name,
                    chapters@[k] as int,
                ).url,
            opt_link(r.previous) == if book@.id != 1 {
                Some(spec_book_url(books@[book@.id - 2]@.name))
            } else {
                Option::<LinkModel>::None
            },
            opt_link(r.next) == if book@.id != books@.len() {
                Some(spec_book_url(books@[book@.id]@.name))
            } else {
                Option::<LinkModel>::None
            },
            r.current@ == spec_book_url(book@.name),
    {
        proof {
            assert(books@[books@.len() - 1]@.id == books@.len() as int);
        }
        let book_index: usize = (book.id - 1) as usize;
        let total: i32 = books[books.len() - 1].id;

        let mut chapter_urls: Vec<String> = Vec::new();
        let mut k: usize = 0;
        while k < chapters.len()
            invariant
                k <= chapters@.len(),
                forall|j: int| 0 <= j < chapters@.len() ==> chapters@[j] >= 0,
                chapter_urls@.len() == k,
                forall|j: int|
                    0 <= j < k ==> (#[trigger] chapter_urls@[j])@ == spec_chapter_url(
                        book@.name,
                        chapters@[j] as int,
                    ).url,
            decreases chapters@.len() - k,
        {
            let l = chapter_url(book.name.as_str(), chapters[k]);
            chapter_urls.push(l.url);
            k = k + 1;
        }

        BookLinks {
            books: root_link(),
            chapters: chapter_urls,
            previous: if book.id != 1 {
                Some(book_url(books[book_index - 1].name.as_str()))
            } else {
                None
            },
            next: if book.id != total {
                Some(book_url(books[book_index + 1].name.as_str()))
            } else {
                None
            },
            current: book_url(book.name.as_str()),
        }
    }
}

/// Links for the all-books endpoint.
#[derive(Debug)]
pub struct AllBooksLinks {
    pub books: Vec<Link>,
}

impl AllBooksLinks {
    /// Builds one book link per book, in the order given.
    pub fn new(books: &Vec<Book>) -> (r: AllBooksLinks)
        ensures
            r.books@.len() == books@.len(),
            forall|k: int|
                0 <= k < books@.len() ==> (#[trigger] r.books@[k])@ == spec_book_url(
                    books@[k]@.name,
                ),
    {
        let mut out: Vec<Link> = Vec::new();
        let mut i: usize = 0;
        while i < books.len()
            invariant
                i <= books@.len(),
                out@.len() == i,
                forall|k: int|
                    0 <= k < i ==> (#[trigger] out@[k])@ == spec_book_url(books@[k]@.name),
            decreases books@.len() - i,
        {
            out.push(book_url(books[i].name.as_str()));
            i = i + 1;
        }
        AllBooksLinks { books: out }
    }
}

} // verus!
