//! The lookup engine: resolves book-name tokens against the abbreviation
//! table, retrieves bounded, ordered verse ranges, and sanitizes free-text
//! search queries into safe full-text-search expressions.
//!
//! The engine works over an in-memory [`VerseStore`] snapshot of the corpus;
//! loading that snapshot from storage, and running a full-text index over
//! it, is the caller's concern.

use vstd::prelude::*;

use crate::models::{Book, BookAbbreviation, BookModel, Verse, VerseFTS, VerseModel};
use crate::reference::{spec_parse, Reference};
use crate::text::{chars_string, is_alpha, is_alpha_char, lower, lower_chars, str_chars, trim,
    trim_chars};
use crate::{DbError, VerseFormat};

verus! {

/// Max number of search results handed back to callers.
pub const SEARCH_RESULT_LIMIT: usize = 15;

/// An in-memory snapshot of the verse corpus: the books in canonical order,
/// the abbreviation table, and the verse tables in both result formats.
/// The two verse tables are parallel denormalizations with identical shape.
pub struct VerseStore {
    pub books: Vec<Book>,
    pub abbreviations: Vec<BookAbbreviation>,
    pub verses: Vec<Verse>,
    pub verses_html: Vec<Verse>,
}

/// Strict `(book, chapter, verse)` order on verses.
pub open spec fn verse_below(a: VerseModel, b: VerseModel) -> bool {
    ||| a.book < b.book
    ||| (a.book == b.book && a.chapter < b.chapter)
    ||| (a.book == b.book && a.chapter == b.chapter && a.verse < b.verse)
}

impl VerseStore {
    /// The book table as a sequence of models.
    pub open spec fn book_models(self) -> Seq<BookModel> {
        book_views(self.books@)
    }

    /// The abbreviation table as a sequence of models.
    pub open spec fn abbrev_models(self) -> Seq<crate::models::BookAbbreviationModel> {
        self.abbreviations@.map_values(|a: BookAbbreviation| a@)
    }

    /// The verse table for a result format.
    pub open spec fn table(self, format: VerseFormat) -> Seq<Verse> {
        match format {
            VerseFormat::PlainText => self.verses@,
            VerseFormat::Html => self.verses_html@,
        }
    }

    /// Abbreviation `i` is exactly the lookup key `key`.
    pub open spec fn key_at(self, key: Seq<char>, i: int) -> bool {
        &&& 0 <= i < self.abbrev_models().len()
        &&& self.abbrev_models()[i].abbreviation == key
    }

    /// Some abbreviation equals the lookup key.
    pub open spec fn has_key(self, key: Seq<char>) -> bool {
        exists|i: int| self.key_at(key, i)
    }

    /// The book a matching abbreviation points at.
    pub open spec fn book_for(self, i: int) -> BookModel {
        self.book_models()[self.abbrev_models()[i].book_id - 1]
    }

    /// Well-formedness of the snapshot: books stand at their 1-indexed
    /// canonical position with at least one chapter, abbreviations are
    /// unique keys into the book table, and both verse tables are strictly
    /// ordered by `(book, chapter, verse)`.
    pub open spec fn wf(self) -> bool {
        &&& forall|i: int|
            0 <= i < self.book_models().len() ==> (#[trigger] self.book_models()[i]).id == i + 1
        &&& forall|i: int|
            0 <= i < self.book_models().len() ==> (#[trigger] self.book_models()[i]).chapter_count
                >= 1
        &&& forall|i: int, j: int|
            0 <= i < j < self.abbrev_models().len() ==> (#[trigger] self.abbrev_models()[i]).abbreviation
                != (#[trigger] self.abbrev_models()[j]).abbreviation
        &&& forall|i: int|
            0 <= i < self.abbrev_models().len() ==> 1 <= (
            #[trigger] self.abbrev_models()[i]).book_id <= self.book_models().len()
        &&& forall|i: int, j: int|
            0 <= i < j < self.verses@.len() ==> verse_below(
                (#[trigger] self.verses@[i])@,
                (#[trigger] self.verses@[j])@,
            )
        &&& forall|i: int, j: int|
            0 <= i < j < self.verses_html@.len() ==> verse_below(
                (#[trigger] self.verses_html@[i])@,
                (#[trigger] self.verses_html@[j])@,
            )
    }
}

/// Strict order at every adjacent pair extends to every pair.
proof fn lemma_verse_order_chain(s: Seq<Verse>, i: int, j: int)
    requires
        forall|k: int| 0 <= k < s.len() - 1 ==> verse_below((#[trigger] s[k])@, s[k + 1]@),
        0 <= i < j < s.len(),
    ensures
        verse_below(s[i]@, s[j]@),
    decreases j - i,
{
    if j > i + 1 {
        lemma_verse_order_chain(s, i, j - 1);
    }
}

impl VerseStore {
    /// Builds a snapshot after checking its well-formedness at run time:
    /// canonical 1-indexed books with at least one chapter each, unique
    /// abbreviations pointing into the book table, and both verse tables
    /// strictly ordered by `(book, chapter, verse)`.  Returns `None`, and
    /// no snapshot, exactly when the data breaks one of these rules.
    pub fn new(
        books: Vec<Book>,
        abbreviations: Vec<BookAbbreviation>,
        verses: Vec<Verse>,
        verses_html: Vec<Verse>,
    ) -> (r: Option<VerseStore>)
        ensures
            match r {
                Some(st) => st == (VerseStore { books, abbreviations, verses, verses_html })
                    && st.wf(),
                None => !(VerseStore { books, abbreviations, verses, verses_html }).wf(),
            },
    {
        let ghost st = VerseStore { books, abbreviations, verses, verses_html };
        if books.len() > crate::text::MAX_NUM as usize {
            proof {
                let m = crate::text::MAX_NUM as int;
                assert(st.book_models()[m].id == st.books@[m].id as int);
                assert((st.books@[m].id as int) < m + 1);
            }
            return None;
        }
        let mut i: usize = 0;
        while i < books.len()
            invariant
                st == (VerseStore { books, abbreviations, verses, verses_html }),
                books@.len() <= crate::text::MAX_NUM as int,
                i <= books@.len(),
                forall|k: int|
                    0 <= k < i ==> (#[trigger] st.book_models()[k]).id == k + 1
                        && st.book_models()[k].chapter_count >= 1,
            decreases books@.len() - i,
        {
            if books[i].id != (i as i32) + 1 || books[i].chapter_count < 1 {
                proof {
                    assert(st.book_models()[i as int] == st.books@[i as int]@);
                    assert(!st.wf());
                }
                return None;
            }
            i = i + 1;
        }
        let mut a: usize = 0;
        while a < abbreviations.len()
            invariant
                st == (VerseStore { books, abbreviations, verses, verses_html }),
                a <= abbreviations@.len(),
                forall|k: int|
                    0 <= k < a ==> 1 <= (#[trigger] st.abbrev_models()[k]).book_id
                        <= st.book_models().len(),
                forall|k: int, l: int|
                    0 <= k < l < a ==> (#[trigger] st.abbrev_models()[k]).abbreviation != (
                    #[trigger] st.abbrev_models()[l]).abbreviation,
            decreases abbreviations@.len() - a,
        {
            if abbreviations[a].book_id < 1 || abbreviations[a].book_id as usize > books.len() {
                proof {
                    assert(st.abbrev_models()[a as int] == st.abbreviations@[a as int]@);
                    assert(st.book_models().len() == st.books@.len());
                    assert(!st.wf());
                }
                return None;
            }
            let mut b: usize = 0;
            while b < a
                invariant
                    st == (VerseStore { books, abbreviations, verses, verses_html }),
                    a < abbreviations@.len(),
                    b <= a,
                    forall|k: int|
                        0 <= k < b ==> (#[trigger] st.abbrev_models()[k]).abbreviation
                            != st.abbrev_models()[a as int].abbreviation,
                decreases a - b,
            {
                if abbreviations[b].abbreviation == abbreviations[a].abbreviation {
                    proof {
                        assert(st.abbrev_models()[b as int] == st.abbreviations@[b as int]@);
                        assert(st.abbrev_models()[a as int] == st.abbreviations@[a as int]@);
                        assert(st.abbrev_models()[b as int].abbreviation
                            == st.abbrev_models()[a as int].abbreviation);
                        assert(!st.wf());
                    }
                    return None;
                }
                b = b + 1;
            }
            a = a + 1;
        }
        let mut v: usize = 0;
        while v < verses.len()
            invariant
                st == (VerseStore { books, abbreviations, verses, verses_html }),
                v <= verses@.len(),
                forall|k: int|
                    0 <= k < v ==> k + 1 < verses@.len() ==> verse_below(
                        (#[trigger] st.verses@[k])@,
                        st.verses@[k + 1]@,
                    ),
            decreases verses@.len() - v,
        {
            if v + 1 < verses.len() {
                let x = &verses[v];
                let y = &verses[v + 1];
                let ok = x.book < y.book || (x.book == y.book && x.chapter < y.chapter) || (
                x.book == y.book && x.chapter == y.chapter && x.verse < y.verse);
                if !ok {
                    proof {
                        assert(!verse_below((st.verses@[v as int])@, (st.verses@[v + 1])@));
                        assert(!st.wf());
                    }
                    return None;
                }
            }
            v = v + 1;
        }
        let mut h: usize = 0;
        while h < verses_html.len()
            invariant
                st == (VerseStore { books, abbreviations, verses, verses_html }),
                h <= verses_html@.len(),
                forall|k: int|
                    0 <= k < h ==> k + 1 < verses_html@.len() ==> verse_below(
                        (#[trigger] st.verses_html@[k])@,
                        st.verses_html@[k + 1]@,
                    ),
            decreases verses_html@.len() - h,
        {
            if h + 1 < verses_html.len() {
                let x = &verses_html[h];
                let y = &verses_html[h + 1];
                let ok = x.book < y.book || (x.book == y.book && x.chapter < y.chapter) || (
                x.book == y.book && x.chapter == y.chapter && x.verse < y.verse);
                if !ok {
                    proof {
                        assert(!verse_below(
                            (st.verses_html@[h as int])@,
                            (st.verses_html@[h + 1])@,
                        ));
                        assert(!st.wf());
                    }
                    return None;
                }
            }
            h = h + 1;
        }
        proof {
            assert forall|i0: int, j0: int| 0 <= i0 < j0 < st.verses@.len() implies verse_below(
                (st.verses@[i0])@,
                st.verses@[j0]@,
            ) by {
                lemma_verse_order_chain(st.verses@, i0, j0);
            }
            assert forall|i0: int, j0: int|
                0 <= i0 < j0 < st.verses_html@.len() implies verse_below(
                (st.verses_html@[i0])@,
                st.verses_html@[j0]@,
            ) by {
                lemma_verse_order_chain(st.verses_html@, i0, j0);
            }
        }
        Some(VerseStore { books, abbreviations, verses, verses_html })
    }
}

/// A verse lies in the selection for a resolved book, a chapter and an
/// optional inclusive verse range.
pub open spec fn selected(book_id: int, chapter: int, vr: Option<(int, int)>) -> spec_fn(
    Verse,
) -> bool {
    |v: Verse|
        {
            &&& v.book as int == book_id
            &&& v.chapter as int == chapter
            &&& match vr {
                None => true,
                Some((a, b)) => a <= v.verse as int && v.verse as int <= b,
            }
        }
}

/// Every element of a filtered sequence occurs in the sequence it was
/// filtered from.
proof fn lemma_filter_member<A>(s: Seq<A>, pred: spec_fn(A) -> bool, k: int)
    requires
        0 <= k < s.filter(pred).len(),
    ensures
        exists|i: int| 0 <= i < s.len() && s[i] == s.filter(pred)[k],
    decreases s.len(),
{
    reveal(Seq::filter);
    if s.len() > 0 {
        let t = s.drop_last();
        if pred(s.last()) && k == s.filter(pred).len() - 1 {
            assert(s[s.len() - 1] == s.filter(pred)[k]);
        } else {
            lemma_filter_member(t, pred, k);
            let i = choose|i: int| 0 <= i < t.len() && t[i] == t.filter(pred)[k];
            assert(s[i] == s.filter(pred)[k]);
        }
    }
}

/// A selection filtered out of a strictly ordered verse table is itself
/// strictly ordered.
proof fn lemma_selection_keeps_order(s: Seq<Verse>, pred: spec_fn(Verse) -> bool)
    requires
        forall|i: int, j: int|
            0 <= i < j < s.len() ==> verse_below((#[trigger] s[i])@, (#[trigger] s[j])@),
    ensures
        forall|i: int, j: int|
            0 <= i < j < s.filter(pred).len() ==> verse_below(
                (#[trigger] s.filter(pred)[i])@,
                (#[trigger] s.filter(pred)[j])@,
            ),
    decreases s.len(),
{
    reveal(Seq::filter);
    if s.len() > 0 {
        let t = s.drop_last();
        assert(forall|i: int, j: int|
            0 <= i < j < t.len() ==> verse_below((#[trigger] t[i])@, (#[trigger] t[j])@));
        lemma_selection_keeps_order(t, pred);
        let f = s.filter(pred);
        let ft = t.filter(pred);
        if pred(s.last()) {
            assert(f == ft.push(s.last()));
            assert forall|i: int, j: int| 0 <= i < j < f.len() implies verse_below(
                (f[i])@,
                (f[j])@,
            ) by {
                if j < f.len() - 1 {
                    assert(f[i] == ft[i] && f[j] == ft[j]);
                } else {
                    assert(f[i] == ft[i] && f[j] == s.last());
                    lemma_filter_member(t, pred, i);
                    let m = choose|m: int| 0 <= m < t.len() && t[m] == ft[i];
                    assert(t[m] == s[m]);
                    assert(verse_below(s[m]@, s[s.len() - 1]@));
                }
            }
        }
    }
}

/// Retrieval order: the verse selection for one book and chapter that
/// [`SwordDrill::verses`] hands back is strictly ascending in verse number
/// — and so ordered by `(chapter, verse)`, the chapter being fixed.
pub proof fn lemma_retrieval_ordered(
    store: VerseStore,
    format: VerseFormat,
    book_id: int,
    chapter: int,
    vr: Option<(int, int)>,
)
    requires
        store.wf(),
    ensures
        forall|i: int, j: int|
            0 <= i < j < store.table(format).filter(selected(book_id, chapter, vr)).len()
                ==> (#[trigger] store.table(format).filter(selected(book_id, chapter, vr))[i])@.verse
                < (#[trigger] store.table(format).filter(selected(book_id, chapter, vr))[j])@.verse,
{
    let s = store.table(format);
    let pred = selected(book_id, chapter, vr);
    assert(forall|i: int, j: int|
        0 <= i < j < s.len() ==> verse_below((#[trigger] s[i])@, (#[trigger] s[j])@));
    lemma_selection_keeps_order(s, pred);
    let f = s.filter(pred);
    assert forall|i: int, j: int| 0 <= i < j < f.len() implies (#[trigger] f[i])@.verse < (
    #[trigger] f[j])@.verse by {
        Seq::lemma_filter_pred(s, pred, i);
        Seq::lemma_filter_pred(s, pred, j);
        assert(verse_below(f[i]@, f[j]@));
    }
}

/// The views of a verse sequence.
pub open spec fn verse_views(s: Seq<Verse>) -> Seq<VerseModel> {
    s.map_values(|v: Verse| v@)
}

/// The views of a book sequence.
pub open spec fn book_views(s: Seq<Book>) -> Seq<BookModel> {
    s.map_values(|b: Book| b@)
}

/// Views distribute over appending a book.
proof fn lemma_book_views_push(s: Seq<Book>, b: Book)
    ensures
        book_views(s.push(b)) == book_views(s).push(b@),
{
    assert(book_views(s.push(b)) =~= book_views(s).push(b@));
}

/// Views distribute over appending a verse.
proof fn lemma_verse_views_push(s: Seq<Verse>, v: Verse)
    ensures
        verse_views(s.push(v)) == verse_views(s).push(v@),
{
    assert(verse_views(s.push(v)) =~= verse_views(s).push(v@));
}

/// How a search query is answered: by exact retrieval when it parses as a
/// citation, by the full-text index otherwise, or by an empty result set
/// when nothing queryable remains after sanitization.
#[derive(Debug)]
pub enum SearchMode {
    Reference(Reference),
    FullText(String),
    Empty,
}

/// The main implementation of the lookup engine.
pub struct SwordDrill;

impl SwordDrill {
    /// Looks up the book for a book-name token, case-insensitively: the
    /// lowercased token is matched against the abbreviation table (which
    /// registers each lowercase canonical name as an abbreviation of its
    /// own).  On success, returns the book and its full 1-based chapter
    /// list; when no abbreviation matches, fails with `BookNotFound`.
    pub fn book(book_name: &str, store: &VerseStore) -> (r: Result<(Book, Vec<i32>), DbError>)
        requires
            store.wf(),
        ensures
            match r {
                Ok((b, chapters)) => {
                    &&& exists|i: int|
                        store.key_at(lower(book_name@), i) && b@ == store.book_for(i)
                    &&& chapters@.len() == b@.chapter_count
                    &&& forall|k: int| 0 <= k < chapters@.len() ==> chapters@[k] == k + 1
                },
                Err(e) => {
                    &&& !store.has_key(lower(book_name@))
                    &&& e matches DbError::BookNotFound { book } && book@ == book_name@
                },
            },
    {
        let name_chars = str_chars(book_name);
        let lowered = lower_chars(&name_chars);
        let key = chars_string(&lowered);

        let mut i: usize = 0;
        while i < store.abbreviations.len()
            invariant
                store.wf(),
                i <= store.abbreviations@.len(),
                key@ == lower(book_name@),
                forall|k: int| 0 <= k < i ==> !store.key_at(key@, k),
            decreases store.abbreviations@.len() - i,
        {
            if store.abbreviations[i].abbreviation == key {
                proof {
                    assert(store.abbrev_models()[i as int].abbreviation == key@);
                    assert(store.key_at(key@, i as int));
                    assert(1 <= store.abbrev_models()[i as int].book_id <= store.book_models().len());
                }
                let idx: usize = (store.abbreviations[i].book_id - 1) as usize;
                let b = store.books[idx].clone();
                let mut chapters: Vec<i32> = Vec::new();
                let mut c: i32 = 0;
                while c < b.chapter_count
                    invariant
                        b.chapter_count >= 1,
                        0 <= c <= b.chapter_count,
                        chapters@.len() == c,
                        forall|k: int| 0 <= k < chapters@.len() ==> chapters@[k] == k + 1,
                    decreases b.chapter_count - c,
                {
                    c = c + 1;
                    chapters.push(c);
                }
                proof {
                    assert(store.key_at(key@, i as int));
                    assert(b@ == store.book_for(i as int));
                }
                return Ok((b, chapters));
            }
            i = i + 1;
        }
        Err(DbError::BookNotFound { book: book_name.to_owned() })
    }

    /// Looks up the verses selected by a reference: resolves the book, picks
    /// the verse table for the requested format, and returns the verses of
    /// the referenced chapter — narrowed to the verse range when one is
    /// given — in `(chapter, verse)` order.  An empty result is not an
    /// error; a book token that resolves to nothing is.
    pub fn verses(reference: &Reference, format: VerseFormat, store: &VerseStore) -> (r: Result<
        (Book, Vec<Verse>),
        DbError,
    >)
        requires
            store.wf(),
        ensures
            match r {
                Ok((b, vs)) => {
                    &&& exists|i: int|
                        store.key_at(lower(reference.book@), i) && b@ == store.book_for(i)
                    &&& verse_views(vs@) == verse_views(
                        store.table(format).filter(
                            selected(b@.id, reference@.chapter, reference@.verses),
                        ),
                    )
                },
                Err(e) => {
                    &&& !store.has_key(lower(reference.book@))
                    &&& e matches DbError::BookNotFound { book } && book@ == lower(reference.book@)
                },
            },
    {
        let book_chars = str_chars(reference.book.as_str());
        let lowered = lower_chars(&book_chars);
        let lowered_name = chars_string(&lowered);
        proof {
            crate::text::lemma_lower_idempotent(reference.book@);
        }
        let (book, _chapters) = match Self::book(lowered_name.as_str(), store) {
            Ok(p) => p,
            Err(e) => {
                return Err(e);
            }
        };

        let table: &Vec<Verse> = match format {
            VerseFormat::PlainText => &store.verses,
            VerseFormat::Html => &store.verses_html,
        };
        let ghost pred = selected(book@.id, reference@.chapter, reference@.verses);

        let mut out: Vec<Verse> = Vec::new();
        let mut i: usize = 0;
        while i < table.len()
            invariant
                i <= table@.len(),
                table@ == store.table(format),
                pred == selected(book@.id, reference@.chapter, reference@.verses),
                verse_views(out@) == verse_views(table@.take(i as int).filter(pred)),
            decreases table@.len() - i,
        {
            let v = &table[i];
            let keep = v.book == book.id && v.chapter == reference.chapter && match &reference
                .verses {
                None => true,
                Some(vr) => *vr.start() <= v.verse && v.verse <= *vr.end(),
            };
            proof {
                reveal(Seq::filter);
                assert(table@.take(i + 1).drop_last() == table@.take(i as int));
                assert(table@.take(i + 1).last() == table@[i as int]);
                assert(keep == pred(table@[i as int]));
                if keep {
                    assert(table@.take(i + 1).filter(pred) == table@.take(i as int).filter(
                        pred,
                    ).push(table@[i as int]));
                } else {
                    assert(table@.take(i + 1).filter(pred) == table@.take(i as int).filter(
                        pred,
                    ));
                }
            }
            if keep {
                let ghost prev = out@;
                let w = v.clone();
                proof {
                    assert(w@ == table@[i as int]@);
                }
                out.push(w);
                proof {
                    lemma_verse_views_push(table@.take(i as int).filter(pred), table@[i as int]);
                    lemma_verse_views_push(prev, w);
                    assert(verse_views(out@) == verse_views(table@.take(i + 1).filter(pred)));
                }
            }
            i = i + 1;
        }
        proof {
            assert(table@.take(table@.len() as int) == table@);
        }
        Ok((book, out))
    }

    /// Returns all books, in canonical order.
    pub fn all_books(store: &VerseStore) -> (r: Result<Vec<Book>, DbError>)
        requires
            store.wf(),
        ensures
            match r {
                Ok(books) => book_views(books@) == store.book_models(),
                Err(e) => false,
            },
    {
        let mut out: Vec<Book> = Vec::new();
        let mut i: usize = 0;
        while i < store.books.len()
            invariant
                i <= store.books@.len(),
                book_views(out@) == book_views(store.books@.take(i as int)),
            decreases store.books@.len() - i,
        {
            let ghost prev = out@;
            let bk = store.books[i].clone();
            proof {
                assert(bk@ == store.books@[i as int]@);
            }
            out.push(bk);
            proof {
                assert(store.books@.take(i + 1) =~= store.books@.take(i as int).push(
                    store.books@[i as int],
                ));
                lemma_book_views_push(store.books@.take(i as int), store.books@[i as int]);
                lemma_book_views_push(prev, bk);
                assert(book_views(out@) == book_views(store.books@.take(i + 1)));
            }
            i = i + 1;
        }
        proof {
            assert(store.books@.take(store.books@.len() as int) == store.books@);
        }
        Ok(out)
    }

    /// What the search sanitizer keeps: ASCII letters and spaces.
    pub open spec fn kept(c: char) -> bool {
        is_alpha_char(c) || c == ' '
    }

    /// The predicate the sanitizer filters with.
    pub open spec fn keep_fn() -> spec_fn(char) -> bool {
        |c: char| Self::kept(c)
    }

    /// The sanitized form of a query: every other character stripped.
    pub open spec fn sanitized(q: Seq<char>) -> Seq<char> {
        q.filter(Self::keep_fn())
    }

    /// The full-text-search match expression for a sanitized query: a
    /// query that held a quote asks for a contiguous phrase, so the
    /// cleaned text is re-wrapped in quotes; otherwise a trailing wildcard
    /// makes each remaining word match as an independent prefix token.
    pub open spec fn expression(q: Seq<char>) -> Seq<char> {
        if q.contains('"') {
            seq!['"'] + Self::sanitized(q) + seq!['"']
        } else {
            Self::sanitized(q) + seq!['*']
        }
    }

    /// Sanitizes a free-text query into a full-text-search expression.
    ///
    /// Every character that is not an ASCII letter or a space is stripped,
    /// which neutralizes full-text-search control syntax.  `None` — meaning
    /// an empty result set, not an error — is returned exactly when nothing
    /// but whitespace remains.  A double quote in the raw query asks for a
    /// contiguous-phrase match: the cleaned text is then re-wrapped in
    /// quotes, with no wildcard.  Otherwise a trailing wildcard makes the
    /// remaining words match as independent prefix tokens.
    pub fn search_expression(query: &str) -> (r: Option<String>)
        ensures
            match r {
                None => trim(Self::sanitized(query@)).len() == 0,
                Some(e) => trim(Self::sanitized(query@)).len() > 0 && e@ == Self::expression(
                    query@,
                ),
            },
    {
        let chars = str_chars(query);
        let ghost keep_pred = Self::keep_fn();

        let mut had_quote = false;
        let mut i: usize = 0;
        while i < chars.len()
            invariant
                i <= chars@.len(),
                chars@ == query@,
                had_quote == chars@.take(i as int).contains('"'),
            decreases chars@.len() - i,
        {
            if chars[i] == '"' {
                had_quote = true;
            }
            proof {
                assert(chars@.take(i + 1).drop_last() == chars@.take(i as int));
                assert(chars@.take(i + 1).last() == chars@[i as int]);
                if chars@.take(i as int).contains('"') || chars@[i as int] == '"' {
                    assert(chars@.take(i + 1).contains('"')) by {
                        if chars@[i as int] == '"' {
                            assert(chars@.take(i + 1)[i as int] == '"');
                        } else {
                            let k = choose|k: int|
                                0 <= k < i && chars@.take(i as int)[k] == '"';
                            assert(chars@.take(i + 1)[k] == '"');
                        }
                    }
                } else {
                    assert(!chars@.take(i + 1).contains('"')) by {
                        assert(forall|k: int|
                            0 <= k < i + 1 ==> chars@.take(i + 1)[k] == #[trigger] chars@.take(
                                i + 1,
                            )[k] && chars@.take(i + 1)[k] != '"');
                    }
                }
            }
            i = i + 1;
        }
        proof {
            assert(chars@.take(chars@.len() as int) == chars@);
        }

        let mut clean: Vec<char> = Vec::new();
        let mut j: usize = 0;
        while j < chars.len()
            invariant
                j <= chars@.len(),
                chars@ == query@,
                keep_pred == Self::keep_fn(),
                clean@ == chars@.take(j as int).filter(keep_pred),
            decreases chars@.len() - j,
        {
            let c = chars[j];
            let keep_c = is_alpha(c) || c == ' ';
            proof {
                reveal(Seq::filter);
                assert(chars@.take(j + 1).drop_last() == chars@.take(j as int));
                assert(chars@.take(j + 1).last() == chars@[j as int]);
                assert(keep_c == keep_pred(chars@[j as int]));
                if keep_c {
                    assert(chars@.take(j + 1).filter(keep_pred) == chars@.take(j as int).filter(
                        keep_pred,
                    ).push(chars@[j as int]));
                } else {
                    assert(chars@.take(j + 1).filter(keep_pred) == chars@.take(j as int).filter(
                        keep_pred,
                    ));
                }
            }
            if keep_c {
                clean.push(c);
            }
            j = j + 1;
        }
        proof {
            assert(chars@.take(chars@.len() as int) == chars@);
            assert(clean@ == Self::sanitized(query@));
        }

        let trimmed = trim_chars(&clean);
        if trimmed.len() == 0 {
            return None;
        }

        let mut expr: Vec<char> = Vec::new();
        if had_quote {
            expr.push('"');
        }
        crate::text::append_chars(&mut expr, &clean);
        if had_quote {
            expr.push('"');
        } else {
            expr.push('*');
        }
        proof {
            assert(expr@ =~= Self::expression(query@));
        }
        Some(chars_string(&expr))
    }

    /// Decides how a search query is answered.  A query that parses as a
    /// citation is answered by exact retrieval — search is the fallback,
    /// not a superset.  Anything else is sanitized: if queryable text
    /// remains it goes to the full-text index, otherwise the answer is an
    /// empty result set.
    pub fn search_mode(query: &str) -> (r: SearchMode)
        ensures
            match r {
                SearchMode::Reference(rf) => spec_parse(query@) == Some(rf@),
                SearchMode::FullText(e) => spec_parse(query@) is None && trim(
                    Self::sanitized(query@),
                ).len() > 0 && e@ == Self::expression(query@),
                SearchMode::Empty => spec_parse(query@) is None && trim(
                    Self::sanitized(query@),
                ).len() == 0,
            },
    {
        match Reference::from_str(query) {
            Ok(reference) => SearchMode::Reference(reference),
            Err(_) => match Self::search_expression(query) {
                Some(expression) => SearchMode::FullText(expression),
                None => SearchMode::Empty,
            },
        }
    }

    /// Caps a ranked hit list at [`SEARCH_RESULT_LIMIT`] entries, keeping
    /// the best-ranked prefix.
    pub fn cap_results(hits: Vec<(VerseFTS, Book)>) -> (r: Vec<(VerseFTS, Book)>)
        ensures
            hits@.len() <= SEARCH_RESULT_LIMIT ==> r@ == hits@,
            hits@.len() > SEARCH_RESULT_LIMIT ==> r@ == hits@.take(SEARCH_RESULT_LIMIT as int),
    {
        let mut hits = hits;
        hits.truncate(SEARCH_RESULT_LIMIT);
        proof {
            if hits@.len() > SEARCH_RESULT_LIMIT {
                assert(hits@.take(SEARCH_RESULT_LIMIT as int) == hits@.subrange(
                    0,
                    SEARCH_RESULT_LIMIT as int,
                ));
            }
        }
        hits
    }
}

} // verus!
