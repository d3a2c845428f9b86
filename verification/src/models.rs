//! Data model of the engine: verses, books, book abbreviations and
//! full-text-search hits.  All of these are read-only snapshots of
//! reference data; the engine never mutates them.

use vstd::prelude::*;

pub use crate::reference::Reference;

verus! {

/// A Bible verse.
#[derive(Debug)]
pub struct Verse {
    pub id: i32,
    pub book: i32,
    pub chapter: i32,
    pub verse: i32,
    pub words: String,
}

/// Mathematical model of a [`Verse`].
#[verifier::ext_equal]
pub struct VerseModel {
    pub id: int,
    pub book: int,
    pub chapter: int,
    pub verse: int,
    pub words: Seq<char>,
}

impl View for Verse {
    type V = VerseModel;

    open spec fn view(&self) -> VerseModel {
        VerseModel {
            id: self.id as int,
            book: self.book as int,
            chapter: self.chapter as int,
            verse: self.verse as int,
            words: self.words@,
        }
    }
}

impl Clone for Verse {
    /// Cloning keeps every field.
    fn clone(&self) -> (r: Verse)
        ensures
            r@ == self@,
    {
        Verse {
            id: self.id,
            book: self.book,
            chapter: self.chapter,
            verse: self.verse,
            words: self.words.clone(),
        }
    }
}

/// The two testaments of the Bible.
#[derive(Clone, Copy, Debug, PartialEq, Eq, Structural)]
pub enum Testament {
    Old,
    New,
}

impl Testament {
    /// Decodes the stored column value: exactly `"OLD"` and `"NEW"` are
    /// testaments; anything else is not.
    pub fn from_text(s: &str) -> (r: Option<Testament>)
        ensures
            r == (if s@ == "OLD"@ {
                Some(Testament::Old)
            } else if s@ == "NEW"@ {
                Some(Testament::New)
            } else {
                Option::<Testament>::None
            }),
    {
        proof {
            reveal_strlit("OLD");
            reveal_strlit("NEW");
        }
        let cs = crate::text::str_chars(s);
        if cs.len() == 3 && cs[0] == 'O' && cs[1] == 'L' && cs[2] == 'D' {
            proof {
                assert(s@ =~= "OLD"@);
            }
            Some(Testament::Old)
        } else if cs.len() == 3 && cs[0] == 'N' && cs[1] == 'E' && cs[2] == 'W' {
            proof {
                assert(s@ =~= "NEW"@);
            }
            Some(Testament::New)
        } else {
            proof {
                if s@ == "OLD"@ {
                    assert(cs@.len() == 3 && cs@[0] == 'O' && cs@[1] == 'L' && cs@[2] == 'D');
                }
                if s@ == "NEW"@ {
                    assert(cs@.len() == 3 && cs@[0] == 'N' && cs@[1] == 'E' && cs@[2] == 'W');
                }
            }
            None
        }
    }
}

/// A book of the Bible: reference data in canonical order, 1-indexed.
#[derive(Debug)]
pub struct Book {
    pub id: i32,
    pub name: String,
    pub chapter_count: i32,
    pub testament: Testament,
}

/// Mathematical model of a [`Book`].
#[verifier::ext_equal]
pub struct BookModel {
    pub id: int,
    pub name: Seq<char>,
    pub chapter_count: int,
    pub testament: Testament,
}

impl View for Book {
    type V = BookModel;

    open spec fn view(&self) -> BookModel {
        BookModel {
            id: self.id as int,
            name: self.name@,
            chapter_count: self.chapter_count as int,
            testament: self.testament,
        }
    }
}

impl Clone for Book {
    /// Cloning keeps every field.
    fn clone(&self) -> (r: Book)
        ensures
            r@ == self@,
    {
        Book {
            id: self.id,
            name: self.name.clone(),
            chapter_count: self.chapter_count,
            testament: self.testament,
        }
    }
}

/// An accepted abbreviation for a book, stored lowercase; the lowercase
/// canonical name is registered as one of its own abbreviations.
#[derive(Debug)]
pub struct BookAbbreviation {
    pub id: i32,
    pub book_id: i32,
    pub abbreviation: String,
}

/// Mathematical model of a [`BookAbbreviation`].
#[verifier::ext_equal]
pub struct BookAbbreviationModel {
    pub id: int,
    pub book_id: int,
    pub abbreviation: Seq<char>,
}

impl View for BookAbbreviation {
    type V = BookAbbreviationModel;

    open spec fn view(&self) -> BookAbbreviationModel {
        BookAbbreviationModel {
            id: self.id as int,
            book_id: self.book_id as int,
            abbreviation: self.abbreviation@,
        }
    }
}

impl Clone for BookAbbreviation {
    /// Cloning keeps every field.
    fn clone(&self) -> (r: BookAbbreviation)
        ensures
            r@ == self@,
    {
        BookAbbreviation {
            id: self.id,
            book_id: self.book_id,
            abbreviation: self.abbreviation.clone(),
        }
    }
}

/// A full-text-search hit: the coordinates of the matching verse and its
/// text with inline emphasis markers around the matched spans.  The storage
/// layer orders hits by its native relevance rank before handing them over.
#[derive(Debug)]
pub struct VerseFTS {
    pub book: i32,
    pub chapter: i32,
    pub verse: i32,
    pub words: String,
}

/// Mathematical model of a [`VerseFTS`].
#[verifier::ext_equal]
pub struct VerseFTSModel {
    pub book: int,
    pub chapter: int,
    pub verse: int,
    pub words: Seq<char>,
}

impl View for VerseFTS {
    type V = VerseFTSModel;

    open spec fn view(&self) -> VerseFTSModel {
        VerseFTSModel {
            book: self.book as int,
            chapter: self.chapter as int,
            verse: self.verse as int,
            words: self.words@,
        }
    }
}

impl Clone for VerseFTS {
    /// Cloning keeps every field.
    fn clone(&self) -> (r: VerseFTS)
        ensures
            r@ == self@,
    {
        VerseFTS {
            book: self.book,
            chapter: self.chapter,
            verse: self.verse,
            words: self.words.clone(),
        }
    }
}

} // verus!
