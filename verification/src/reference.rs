//! Citation parsing: turns a free-text citation such as `"John 3:16"`,
//! `"1 Tim 3:16-18"` or `"jhn.1.1"` into a structured [`Reference`], and
//! renders a [`Reference`] back to its canonical display form.
//!
//! The parser is a single-pass character-class state machine; its exact
//! behaviour is captured by [`spec_parse`], and the renderer's by
//! [`spec_format`].  [`lemma_format_parse_round_trip`] proves that parsing a
//! canonical rendering gives back the reference it was rendered from.

use core::ops::RangeInclusive;
use vstd::prelude::*;

use crate::text::{
    all_digits, chars_string, dec_digits, digits_to_i32, digits_val, i32_digits, is_alpha,
    is_alpha_char, is_digit, is_digit_char, is_space, is_space_char, lemma_dec_digits_are_digits,
    lemma_dec_digits_val, lemma_digits_val_nonneg, str_chars, trim, trim_chars, valid_num,
    append_chars,
};
use crate::DbError;

verus! {

/// Relies on `RangeInclusive::start`: returns the lower bound.
pub assume_specification<Idx>[ RangeInclusive::<Idx>::start ](
    r: &RangeInclusive<Idx>,
) -> (ret: &Idx)
    ensures
        *ret == r@.start,
;

/// Relies on `RangeInclusive::end`: returns the upper bound.
pub assume_specification<Idx>[ RangeInclusive::<Idx>::end ](
    r: &RangeInclusive<Idx>,
) -> (ret: &Idx)
    ensures
        *ret == r@.end,
;

/// Longest citation string the parser accepts, in characters.
pub const MAX_REFERENCE_SIZE: usize = 100;

/// A structured Bible reference used to look up a passage: a book-name
/// token as typed by the user, a chapter, and an optional inclusive verse
/// range.
#[derive(Debug, PartialEq)]
pub struct Reference {
    pub book: String,
    pub chapter: i32,
    pub verses: Option<RangeInclusive<i32>>,
}

impl Clone for Reference {
    /// Cloning keeps the book token, the chapter and the verse bounds.
    fn clone(&self) -> (r: Reference)
        ensures
            r@ == self@,
    {
        Reference {
            book: self.book.clone(),
            chapter: self.chapter,
            verses: match &self.verses {
                None => None,
                Some(vs) => Some(RangeInclusive::new(*vs.start(), *vs.end())),
            },
        }
    }
}

/// Mathematical model of a [`Reference`]: the book token as a character
/// sequence, the chapter, and the verse range as a pair of bounds.
#[verifier::ext_equal]
pub struct ReferenceModel {
    pub book: Seq<char>,
    pub chapter: int,
    pub verses: Option<(int, int)>,
}

impl View for Reference {
    type V = ReferenceModel;

    open spec fn view(&self) -> ReferenceModel {
        ReferenceModel {
            book: self.book@,
            chapter: self.chapter as int,
            verses: match self.verses {
                None => None,
                Some(r) => Some((r@.start as int, r@.end as int)),
            },
        }
    }
}

impl ReferenceModel {
    /// The reference invariant every parsed reference satisfies: numbers
    /// are non-negative and in range, and a verse range is ascending.
    pub open spec fn wf(self) -> bool {
        &&& 0 <= self.chapter <= crate::text::MAX_NUM
        &&& match self.verses {
            None => true,
            Some((a, b)) => 0 <= a <= b <= crate::text::MAX_NUM,
        }
    }
}

/// States of the citation state machine.
#[derive(Clone, Copy, Debug)]
pub enum State {
    Init,
    Book,
    Chapter,
    VerseFrom,
    VerseTo,
}

/// Ghost state of the citation state machine: the current state and the
/// four accumulation buffers.
#[verifier::ext_equal]
pub struct Machine {
    pub state: State,
    pub book: Seq<char>,
    pub chapter: Seq<char>,
    pub vfrom: Seq<char>,
    pub vto: Seq<char>,
}

/// The machine before any character is consumed.
pub open spec fn init_machine() -> Machine {
    Machine {
        state: State::Init,
        book: Seq::empty(),
        chapter: Seq::empty(),
        vfrom: Seq::empty(),
        vto: Seq::empty(),
    }
}

/// One transition of the state machine on character `c`.  The book token
/// takes ASCII letters and whitespace; in every state, a character that
/// fits no class is silently dropped, never an error.
pub open spec fn step(m: Machine, c: char) -> Machine {
    match m.state {
        State::Init => Machine { state: State::Book, book: m.book.push(c), ..m },
        State::Book => if is_digit_char(c) {
            Machine { state: State::Chapter, chapter: m.chapter.push(c), ..m }
        } else if is_alpha_char(c) || is_space_char(c) {
            Machine { book: m.book.push(c), ..m }
        } else {
            m
        },
        State::Chapter => if is_digit_char(c) {
            Machine { chapter: m.chapter.push(c), ..m }
        } else if c == ':' || c == '.' {
            Machine { state: State::VerseFrom, ..m }
        } else {
            m
        },
        State::VerseFrom => if c == '-' {
            Machine { state: State::VerseTo, ..m }
        } else if is_digit_char(c) {
            Machine { vfrom: m.vfrom.push(c), ..m }
        } else {
            m
        },
        State::VerseTo => if is_digit_char(c) {
            Machine { vto: m.vto.push(c), ..m }
        } else {
            m
        },
    }
}

/// Runs the machine over a whole character sequence.
pub open spec fn run(m: Machine, s: Seq<char>) -> Machine
    decreases s.len(),
{
    if s.len() == 0 {
        m
    } else {
        run(step(m, s[0]), s.drop_first())
    }
}

/// Builds the parse result from the machine's final buffers: the chapter is
/// mandatory; a missing end verse collapses the range to a single verse.
/// The reference invariant is enforced here: a citation whose book token
/// trims to nothing, or whose verse range descends, is invalid — the
/// buffers may hold such values, but no `Reference` ever does.
pub open spec fn finalize(m: Machine) -> Option<ReferenceModel> {
    if !valid_num(m.chapter) {
        None
    } else if trim(m.book).len() == 0 {
        None
    } else if m.vfrom.len() == 0 {
        Some(ReferenceModel { book: trim(m.book), chapter: digits_val(m.chapter), verses: None })
    } else if !valid_num(m.vfrom) {
        None
    } else if m.vto.len() == 0 {
        Some(
            ReferenceModel {
                book: trim(m.book),
                chapter: digits_val(m.chapter),
                verses: Some((digits_val(m.vfrom), digits_val(m.vfrom))),
            },
        )
    } else if !valid_num(m.vto) {
        None
    } else if digits_val(m.vfrom) > digits_val(m.vto) {
        None
    } else {
        Some(
            ReferenceModel {
                book: trim(m.book),
                chapter: digits_val(m.chapter),
                verses: Some((digits_val(m.vfrom), digits_val(m.vto))),
            },
        )
    }
}

/// What parsing a citation string yields: `None` exactly when the string is
/// empty, longer than [`MAX_REFERENCE_SIZE`] characters, some numeric
/// buffer fails to denote an `i32`, the book token trims to nothing, or an
/// explicit verse range descends.
pub open spec fn spec_parse(s: Seq<char>) -> Option<ReferenceModel> {
    if s.len() == 0 || s.len() > MAX_REFERENCE_SIZE {
        None
    } else {
        finalize(run(init_machine(), s))
    }
}

/// Running a machine over a concatenation runs it over each part in turn.
proof fn lemma_run_concat(m: Machine, s1: Seq<char>, s2: Seq<char>)
    ensures
        run(m, s1 + s2) == run(run(m, s1), s2),
    decreases s1.len(),
{
    if s1.len() == 0 {
        assert(s1 + s2 =~= s2);
    } else {
        assert((s1 + s2)[0] == s1[0]);
        assert((s1 + s2).drop_first() =~= s1.drop_first() + s2);
        lemma_run_concat(step(m, s1[0]), s1.drop_first(), s2);
    }
}

/// Running a machine over a single character is one step.
proof fn lemma_run_one(m: Machine, c: char)
    ensures
        run(m, seq![c]) == step(m, c),
{
    assert(seq![c][0] == c);
    assert(seq![c].drop_first() =~= Seq::<char>::empty());
    assert(run(step(m, c), Seq::<char>::empty()) == step(m, c));
}

impl Reference {
    /// Parses a free-text citation into a structured reference.
    ///
    /// Succeeds exactly when [`spec_parse`] yields a value, and then returns
    /// precisely that value; otherwise reports the offending string.
    pub fn from_str(s: &str) -> (r: Result<Reference, DbError>)
        ensures
            match r {
                Ok(rf) => spec_parse(s@) == Some(rf@) && rf@.wf(),
                Err(e) => {
                    &&& spec_parse(s@) is None
                    &&& e matches DbError::InvalidReference { reference } && reference@ == s@
                },
            },
    {
        let chars = str_chars(s);
        if chars.len() == 0 || chars.len() > MAX_REFERENCE_SIZE {
            return Err(DbError::InvalidReference { reference: s.to_owned() });
        }

        let mut state = State::Init;
        let mut book_part: Vec<char> = Vec::new();
        let mut chapter_part: Vec<char> = Vec::new();
        let mut verse_from_part: Vec<char> = Vec::new();
        let mut verse_to_part: Vec<char> = Vec::new();

        let mut i: usize = 0;
        while i < chars.len()
            invariant
                i <= chars.len(),
                run(init_machine(), chars@.take(i as int)) == (Machine {
                    state: state,
                    book: book_part@,
                    chapter: chapter_part@,
                    vfrom: verse_from_part@,
                    vto: verse_to_part@,
                }),
            decreases chars.len() - i,
        {
            let c = chars[i];
            proof {
                assert(chars@.take(i + 1) =~= chars@.take(i as int) + seq![chars@[i as int]]);
                lemma_run_concat(init_machine(), chars@.take(i as int), seq![chars@[i as int]]);
                lemma_run_one(run(init_machine(), chars@.take(i as int)), chars@[i as int]);
            }
            match state {
                State::Init => {
                    book_part.push(c);
                    state = State::Book;
                }
                State::Book => {
                    if is_digit(c) {
                        chapter_part.push(c);
                        state = State::Chapter;
                    } else if is_alpha(c) || is_space(c) {
                        book_part.push(c);
                    }
                }
                State::Chapter => {
                    if is_digit(c) {
                        chapter_part.push(c);
                    } else if c == ':' || c == '.' {
                        state = State::VerseFrom;
                    }
                }
                State::VerseFrom => {
                    if c == '-' {
                        state = State::VerseTo;
                    } else if is_digit(c) {
                        verse_from_part.push(c);
                    }
                }
                State::VerseTo => {
                    if is_digit(c) {
                        verse_to_part.push(c);
                    }
                }
            }
            i = i + 1;
        }
        proof {
            assert(chars@.take(chars@.len() as int) == chars@);
        }

        let chapter: i32 = match digits_to_i32(&chapter_part) {
            Some(n) => n,
            None => {
                return Err(DbError::InvalidReference { reference: s.to_owned() });
            }
        };
        let trimmed = trim_chars(&book_part);
        if trimmed.len() == 0 {
            return Err(DbError::InvalidReference { reference: s.to_owned() });
        }
        let book = chars_string(&trimmed);

        let verses: Option<RangeInclusive<i32>> = if verse_from_part.len() == 0 {
            None
        } else {
            let from: i32 = match digits_to_i32(&verse_from_part) {
                Some(n) => n,
                None => {
                    return Err(DbError::InvalidReference { reference: s.to_owned() });
                }
            };
            let to: i32 = if verse_to_part.len() == 0 {
                from
            } else {
                match digits_to_i32(&verse_to_part) {
                    Some(n) => n,
                    None => {
                        return Err(DbError::InvalidReference { reference: s.to_owned() });
                    }
                }
            };
            if from > to {
                return Err(DbError::InvalidReference { reference: s.to_owned() });
            }
            Some(RangeInclusive::new(from, to))
        };

        let r = Reference { book, chapter, verses };
        proof {
            assert(spec_parse(s@) == Some(r@)) by {
                assert(spec_parse(s@) =~= Some(r@));
            }
        }
        Ok(r)
    }
}

/// What a numeric string denotes as an `i32`: an optional leading sign
/// followed by decimal digits, within the `i32` range; `None` otherwise.
pub open spec fn spec_parse_i32(s: Seq<char>) -> Option<int> {
    if s.len() > 0 && (s[0] == '+' || s[0] == '-') {
        let rest = s.drop_first();
        if rest.len() > 0 && all_digits(rest) {
            let v = digits_val(rest);
            if s[0] == '+' {
                if v <= crate::text::MAX_NUM as int {
                    Some(v)
                } else {
                    None
                }
            } else {
                if v <= crate::text::MAX_NUM as int + 1 {
                    Some(-v)
                } else {
                    None
                }
            }
        } else {
            None
        }
    } else if valid_num(s) {
        Some(digits_val(s))
    } else {
        None
    }
}

/// Parses a numeric string — an optional `+`/`-` sign followed by decimal
/// digits — into an `i32`: fails on an empty or bare-sign string, on any
/// other character, and on values outside the `i32` range.
pub fn parse_num(s: String) -> (r: Result<i32, DbError>)
    ensures
        match r {
            Ok(n) => spec_parse_i32(s@) == Some(n as int),
            Err(e) => {
                &&& spec_parse_i32(s@) is None
                &&& e matches DbError::InvalidReference { reference } && reference@ == s@
            },
        },
{
    let chars = str_chars(s.as_str());
    if chars.len() > 0 && (chars[0] == '+' || chars[0] == '-') {
        let negative = chars[0] == '-';
        let mut digits: Vec<char> = Vec::new();
        let mut i: usize = 1;
        while i < chars.len()
            invariant
                1 <= i <= chars@.len(),
                digits@ == chars@.drop_first().take(i - 1),
            decreases chars@.len() - i,
        {
            digits.push(chars[i]);
            proof {
                assert(chars@.drop_first().take(i as int) == chars@.drop_first().take(
                    i - 1,
                ).push(chars@[i as int]));
            }
            i = i + 1;
        }
        proof {
            assert(chars@.drop_first().take(chars@.len() - 1) == chars@.drop_first());
        }
        let bound: i64 = if negative {
            crate::text::MAX_NUM as i64 + 1
        } else {
            crate::text::MAX_NUM as i64
        };
        match crate::text::digits_to_i64(&digits, bound) {
            Some(n) => {
                let v: i64 = if negative {
                    -n
                } else {
                    n
                };
                Ok(v as i32)
            }
            None => Err(DbError::InvalidReference { reference: s }),
        }
    } else {
        match digits_to_i32(&chars) {
            Some(n) => Ok(n),
            None => Err(DbError::InvalidReference { reference: s }),
        }
    }
}

/// Canonical display form of a reference: `"{book} {chapter}"`, with
/// `":{verse}"` appended for a single verse and `":{start}-{end}"` for a
/// range.
pub open spec fn spec_format(r: ReferenceModel) -> Seq<char> {
    let base = r.book + seq![' '] + dec_digits(r.chapter);
    match r.verses {
        None => base,
        Some((a, b)) => if a == b {
            base + seq![':'] + dec_digits(a)
        } else {
            base + seq![':'] + dec_digits(a) + seq!['-'] + dec_digits(b)
        },
    }
}

impl Reference {
    /// Renders the reference in its canonical display form.
    pub fn format(&self) -> (r: String)
        requires
            self@.wf(),
        ensures
            r@ == spec_format(self@),
    {
        let mut out: Vec<char> = str_chars(self.book.as_str());
        out.push(' ');
        let ch = i32_digits(self.chapter);
        append_chars(&mut out, &ch);
        proof {
            assert(out@ == self@.book + seq![' '] + dec_digits(self@.chapter)) by {
                assert(out@ =~= self@.book + seq![' '] + dec_digits(self@.chapter));
            }
        }
        match &self.verses {
            None => {}
            Some(vs) => {
                let a: i32 = *vs.start();
                let b: i32 = *vs.end();
                out.push(':');
                let da = i32_digits(a);
                append_chars(&mut out, &da);
                if a != b {
                    out.push('-');
                    let db = i32_digits(b);
                    append_chars(&mut out, &db);
                    proof {
                        assert(out@ =~= spec_format(self@));
                    }
                } else {
                    proof {
                        assert(out@ =~= spec_format(self@));
                    }
                }
            }
        }
        chars_string(&out)
    }
}

/// A reference whose rendering parses back to itself: a non-empty book token
/// with no surrounding whitespace whose later characters are letters or
/// spaces, in-range numbers, and a rendering within the length cap.
pub open spec fn canonical(r: ReferenceModel) -> bool {
    &&& r.wf()
    &&& r.book.len() > 0
    &&& !is_space_char(r.book[0])
    &&& !is_space_char(r.book.last())
    &&& forall|i: int|
        1 <= i < r.book.len() ==> is_alpha_char(#[trigger] r.book[i]) || is_space_char(r.book[i])
    &&& spec_format(r).len() <= MAX_REFERENCE_SIZE
}

/// In the `Book` state, letters and spaces only extend the book buffer.
proof fn lemma_book_phase(m: Machine, s: Seq<char>)
    requires
        m.state matches State::Book,
        forall|i: int|
            0 <= i < s.len() ==> is_alpha_char(#[trigger] s[i]) || is_space_char(s[i]),
    ensures
        run(m, s) == (Machine { book: m.book + s, ..m }),
    decreases s.len(),
{
    if s.len() == 0 {
        assert(m.book + s =~= m.book);
        assert(run(m, s) =~= (Machine { book: m.book + s, ..m }));
    } else {
        let c = s[0];
        assert(is_alpha_char(c) || is_space_char(c));
        assert(!is_digit_char(c));
        let m1 = step(m, c);
        assert(m1 == (Machine { book: m.book.push(c), ..m }));
        assert(forall|i: int|
            0 <= i < s.len() - 1 ==> is_alpha_char(#[trigger] s.drop_first()[i]) || is_space_char(
                s.drop_first()[i]));
        lemma_book_phase(m1, s.drop_first());
        assert(m.book.push(c) + s.drop_first() =~= m.book + s);
        assert(run(m, s) =~= (Machine { book: m.book + s, ..m }));
    }
}

/// In the `Chapter` state, digits only extend the chapter buffer.
proof fn lemma_chapter_phase(m: Machine, s: Seq<char>)
    requires
        m.state matches State::Chapter,
        all_digits(s),
    ensures
        run(m, s) == (Machine { chapter: m.chapter + s, ..m }),
    decreases s.len(),
{
    if s.len() == 0 {
        assert(m.chapter + s =~= m.chapter);
        assert(run(m, s) =~= (Machine { chapter: m.chapter + s, ..m }));
    } else {
        let c = s[0];
        assert(is_digit_char(c));
        let m1 = step(m, c);
        assert(all_digits(s.drop_first())) by {
            assert(forall|i: int|
                0 <= i < s.len() - 1 ==> s.drop_first()[i] == #[trigger] s[i + 1]);
        }
        lemma_chapter_phase(m1, s.drop_first());
        assert(m.chapter.push(c) + s.drop_first() =~= m.chapter + s);
        assert(run(m, s) =~= (Machine { chapter: m.chapter + s, ..m }));
    }
}

/// In the `VerseFrom` state, digits only extend the verse-from buffer.
proof fn lemma_verse_from_phase(m: Machine, s: Seq<char>)
    requires
        m.state matches State::VerseFrom,
        all_digits(s),
    ensures
        run(m, s) == (Machine { vfrom: m.vfrom + s, ..m }),
    decreases s.len(),
{
    if s.len() == 0 {
        assert(m.vfrom + s =~= m.vfrom);
        assert(run(m, s) =~= (Machine { vfrom: m.vfrom + s, ..m }));
    } else {
        let c = s[0];
        assert(is_digit_char(c));
        assert(c != '-');
        let m1 = step(m, c);
        assert(all_digits(s.drop_first())) by {
            assert(forall|i: int|
                0 <= i < s.len() - 1 ==> s.drop_first()[i] == #[trigger] s[i + 1]);
        }
        lemma_verse_from_phase(m1, s.drop_first());
        assert(m.vfrom.push(c) + s.drop_first() =~= m.vfrom + s);
        assert(run(m, s) =~= (Machine { vfrom: m.vfrom + s, ..m }));
    }
}

/// In the `VerseTo` state, digits only extend the verse-to buffer.
proof fn lemma_verse_to_phase(m: Machine, s: Seq<char>)
    requires
        m.state matches State::VerseTo,
        all_digits(s),
    ensures
        run(m, s) == (Machine { vto: m.vto + s, ..m }),
    decreases s.len(),
{
    if s.len() == 0 {
        assert(m.vto + s =~= m.vto);
        assert(run(m, s) =~= (Machine { vto: m.vto + s, ..m }));
    } else {
        let c = s[0];
        assert(is_digit_char(c));
        let m1 = step(m, c);
        assert(all_digits(s.drop_first())) by {
            assert(forall|i: int|
                0 <= i < s.len() - 1 ==> s.drop_first()[i] == #[trigger] s[i + 1]);
        }
        lemma_verse_to_phase(m1, s.drop_first());
        assert(m.vto.push(c) + s.drop_first() =~= m.vto + s);
        assert(run(m, s) =~= (Machine { vto: m.vto + s, ..m }));
    }
}

/// Running the machine over `book + " " + digits(chapter)` reaches the
/// `Chapter` state with the book buffer holding `book` plus the separator
/// space and the chapter buffer holding the digits.
proof fn lemma_run_base(r: ReferenceModel)
    requires
        canonical(r),
    ensures
        run(init_machine(), r.book + seq![' '] + dec_digits(r.chapter)) == (Machine {
            state: State::Chapter,
            book: r.book.push(' '),
            chapter: dec_digits(r.chapter),
            vfrom: Seq::empty(),
            vto: Seq::empty(),
        }),
{
    let book = r.book;
    let ds = dec_digits(r.chapter);
    lemma_dec_digits_are_digits(r.chapter);

    // Consume the book token: the first character unconditionally, the rest
    // as letters and spaces.
    assert(book =~= seq![book[0]] + book.drop_first());
    lemma_run_concat(init_machine(), seq![book[0]], book.drop_first());
    lemma_run_one(init_machine(), book[0]);
    let m1 = step(init_machine(), book[0]);
    assert(m1 == (Machine {
        state: State::Book,
        book: seq![book[0]],
        chapter: Seq::empty(),
        vfrom: Seq::empty(),
        vto: Seq::empty(),
    }));
    assert(forall|i: int|
        0 <= i < book.drop_first().len() ==> is_alpha_char(#[trigger] book.drop_first()[i])
            || is_space_char(book.drop_first()[i])) by {
        assert(forall|i: int|
            0 <= i < book.len() - 1 ==> book.drop_first()[i] == #[trigger] book[i + 1]);
    }
    lemma_book_phase(m1, book.drop_first());
    let m2 = run(init_machine(), book);
    assert(m2.state matches State::Book);
    assert(m2.book =~= book);

    // Consume the separator space.
    lemma_run_concat(init_machine(), book, seq![' ']);
    lemma_run_one(m2, ' ');
    let m3 = run(init_machine(), book + seq![' ']);
    assert(m3 == (Machine { book: book.push(' '), ..m2 }));

    // The first chapter digit switches to the `Chapter` state; the rest
    // extend the chapter buffer.
    lemma_run_concat(init_machine(), book + seq![' '], ds);
    assert(ds =~= seq![ds[0]] + ds.drop_first());
    lemma_run_concat(m3, seq![ds[0]], ds.drop_first());
    lemma_run_one(m3, ds[0]);
    assert(is_digit_char(ds[0]));
    let m4 = step(m3, ds[0]);
    assert(m4 == (Machine { state: State::Chapter, chapter: seq![ds[0]], ..m3 }));
    assert(all_digits(ds.drop_first())) by {
        assert(forall|i: int|
            0 <= i < ds.len() - 1 ==> ds.drop_first()[i] == #[trigger] ds[i + 1]);
    }
    lemma_chapter_phase(m4, ds.drop_first());
    assert(seq![ds[0]] + ds.drop_first() =~= ds);
    assert(run(init_machine(), book + seq![' '] + ds) =~= (Machine {
        state: State::Chapter,
        book: book.push(' '),
        chapter: ds,
        vfrom: Seq::empty(),
        vto: Seq::empty(),
    })) by {
        assert((book + seq![' ']) + ds =~= book + seq![' '] + ds);
    }
}

/// The book buffer of the final machine trims back to the book token.
proof fn lemma_trim_book(r: ReferenceModel)
    requires
        canonical(r),
    ensures
        trim(r.book.push(' ')) == r.book,
{
    crate::text::lemma_trim_push_space(r.book, ' ');
    crate::text::lemma_trim_id(r.book);
}

/// Round trip: parsing the canonical rendering of a reference yields the
/// reference itself.  Canonical inputs are exactly those whose book token is
/// non-empty, starts and ends with non-whitespace, and continues with
/// letters and spaces, with all numbers in range and the rendering at most
/// [`MAX_REFERENCE_SIZE`] characters long.
pub proof fn lemma_format_parse_round_trip(r: ReferenceModel)
    requires
        canonical(r),
    ensures
        spec_parse(spec_format(r)) == Some(r),
{
    let base = r.book + seq![' '] + dec_digits(r.chapter);
    lemma_run_base(r);
    lemma_trim_book(r);
    lemma_dec_digits_are_digits(r.chapter);
    lemma_dec_digits_val(r.chapter);
    let mbase = Machine {
        state: State::Chapter,
        book: r.book.push(' '),
        chapter: dec_digits(r.chapter),
        vfrom: Seq::empty(),
        vto: Seq::empty(),
    };
    match r.verses {
        None => {
            assert(spec_format(r) == base);
            assert(spec_format(r).len() >= 2);
            assert(finalize(mbase) =~= Some(r));
        }
        Some((a, b)) => {
            lemma_dec_digits_are_digits(a);
            lemma_dec_digits_val(a);
            let da = dec_digits(a);
            // The separator switches to `VerseFrom`, then the digits of the
            // start verse accumulate.
            lemma_run_concat(init_machine(), base, seq![':']);
            lemma_run_one(mbase, ':');
            assert(!is_digit_char(':'));
            let mcolon = step(mbase, ':');
            assert(mcolon == (Machine { state: State::VerseFrom, ..mbase }));
            lemma_run_concat(init_machine(), base + seq![':'], da);
            lemma_verse_from_phase(mcolon, da);
            let mfrom = Machine { state: State::VerseFrom, vfrom: da, ..mbase };
            assert(run(init_machine(), base + seq![':'] + da) =~= mfrom) by {
                assert((base + seq![':']) + da =~= base + seq![':'] + da);
                assert(Seq::<char>::empty() + da =~= da);
            }
            if a == b {
                assert(spec_format(r) == base + seq![':'] + da);
                assert(spec_format(r).len() >= 2);
                assert(finalize(mfrom) =~= Some(r));
            } else {
                lemma_dec_digits_are_digits(b);
                lemma_dec_digits_val(b);
                let db = dec_digits(b);
                let s = base + seq![':'] + da + seq!['-'] + db;
                assert(spec_format(r) == s);
                lemma_run_concat(init_machine(), base + seq![':'] + da, seq!['-']);
                lemma_run_one(mfrom, '-');
                let mdash = step(mfrom, '-');
                assert(mdash == (Machine { state: State::VerseTo, ..mfrom }));
                lemma_run_concat(init_machine(), base + seq![':'] + da + seq!['-'], db);
                lemma_verse_to_phase(mdash, db);
                let mto = Machine { state: State::VerseTo, vfrom: da, vto: db, ..mbase };
                assert(run(init_machine(), s) =~= mto) by {
                    assert((base + seq![':'] + da) + seq!['-'] =~= base + seq![':'] + da
                        + seq!['-']);
                    assert((base + seq![':'] + da + seq!['-']) + db =~= s);
                    assert(Seq::<char>::empty() + db =~= db);
                }
                assert(s.len() >= 2);
                assert(finalize(mto) =~= Some(r));
            }
        }
    }
}

/// Round trip, stated over the string: a string that already matches the
/// canonical rendering of some reference parses successfully, and renders
/// back to itself.
pub proof fn lemma_parse_format_round_trip(s: Seq<char>, r: ReferenceModel)
    requires
        canonical(r),
        s == spec_format(r),
    ensures
        spec_parse(s) matches Some(p) && spec_format(p) == s,
{
    lemma_format_parse_round_trip(r);
}

/// Range integrity: every parsed reference with a verse range has an
/// ascending range — a citation with a descending explicit range is
/// rejected as invalid.
pub proof fn lemma_range_integrity(s: Seq<char>, r: ReferenceModel)
    requires
        spec_parse(s) == Some(r),
    ensures
        match r.verses {
            None => true,
            Some((a, b)) => a <= b,
        },
{
    let m = run(init_machine(), s);
    if m.vfrom.len() > 0 && m.vto.len() > 0 {
        lemma_digits_val_nonneg(m.vfrom);
    }
}

} // verus!
