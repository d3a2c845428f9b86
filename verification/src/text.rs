//! Character-level helpers shared by the citation parser, the book resolver
//! and the search sanitizer: character classes, whitespace trimming,
//! lowercasing, and decimal conversion between digit strings and integers.
//!
//! The character classes are fixed as ASCII by decision: the citation
//! grammar is made of ASCII letters, spaces and decimal digits, the
//! abbreviation table stores ASCII-lowercase keys, and the search
//! sanitizer keeps only ASCII letters and spaces.  Keeping the classes
//! ASCII makes classification, trimming and case folding fully specified
//! functions of this crate rather than trusted descriptions of library
//! behaviour.  A character outside these classes — a non-ASCII letter
//! included — is treated like any other unrecognized character: dropped
//! from a book token, stripped from a search query, left unchanged by
//! case folding.

use vstd::prelude::*;

verus! {

/// Largest value a chapter or verse number may take.
pub const MAX_NUM: i32 = 2147483647;

/// An ASCII decimal digit.
pub open spec fn is_digit_char(c: char) -> bool {
    '0' <= c && c <= '9'
}

/// An ASCII letter.
pub open spec fn is_alpha_char(c: char) -> bool {
    ('a' <= c && c <= 'z') || ('A' <= c && c <= 'Z')
}

/// ASCII whitespace.
pub open spec fn is_space_char(c: char) -> bool {
    c == ' ' || c == '\t' || c == '\n' || c == '\r'
}

/// Numeric value of a decimal digit character.
pub open spec fn digit_val(c: char) -> int {
    c as int - '0' as int
}

/// Digit character for a value in `0..10`.
pub open spec fn digit_char(d: int) -> char {
    (('0' as u8) + (d as u8)) as char
}

/// Every character of `s` is a decimal digit.
pub open spec fn all_digits(s: Seq<char>) -> bool {
    forall|i: int| 0 <= i < s.len() ==> is_digit_char(#[trigger] s[i])
}

/// Value of a digit string read as a decimal number.
pub open spec fn digits_val(s: Seq<char>) -> int
    decreases s.len(),
{
    if s.len() == 0 {
        0
    } else {
        digits_val(s.drop_last()) * 10 + digit_val(s.last())
    }
}

/// A non-empty digit string whose value is at most `bound`.
pub open spec fn digits_within(s: Seq<char>, bound: int) -> bool {
    s.len() > 0 && all_digits(s) && digits_val(s) <= bound
}

/// A digit string that denotes a number an `i32` can hold.
pub open spec fn valid_num(s: Seq<char>) -> bool {
    digits_within(s, MAX_NUM as int)
}

/// Canonical decimal rendering of `n >= 0`, without leading zeros.
pub open spec fn dec_digits(n: int) -> Seq<char>
    decreases n,
{
    if n < 10 {
        seq![digit_char(n)]
    } else {
        dec_digits(n / 10).push(digit_char(n % 10))
    }
}

/// The value of a digit string is never negative.
pub proof fn lemma_digits_val_nonneg(s: Seq<char>)
    requires
        all_digits(s),
    ensures
        digits_val(s) >= 0,
    decreases s.len(),
{
    if s.len() > 0 {
        assert(all_digits(s.drop_last())) by {
            assert(forall|i: int|
                0 <= i < s.len() - 1 ==> s.drop_last()[i] == #[trigger] s[i]);
        }
        lemma_digits_val_nonneg(s.drop_last());
    }
}

/// The canonical rendering consists of digits.
pub proof fn lemma_dec_digits_are_digits(n: int)
    requires
        n >= 0,
    ensures
        dec_digits(n).len() > 0,
        all_digits(dec_digits(n)),
    decreases n,
{
    if n < 10 {
        assert(is_digit_char(digit_char(n)));
    } else {
        lemma_dec_digits_are_digits(n / 10);
        assert(0 <= n % 10 < 10);
        assert(is_digit_char(digit_char(n % 10)));
    }
}

/// Reading the canonical rendering back gives the number itself.
pub proof fn lemma_dec_digits_val(n: int)
    requires
        n >= 0,
    ensures
        digits_val(dec_digits(n)) == n,
    decreases n,
{
    if n < 10 {
        let s = seq![digit_char(n)];
        assert(digits_val(Seq::<char>::empty()) == 0);
        assert(s.drop_last() =~= Seq::<char>::empty());
        assert(s.last() == digit_char(n));
        assert(digits_val(s) == digit_val(digit_char(n)));
        assert(digit_val(digit_char(n)) == n);
    } else {
        lemma_dec_digits_val(n / 10);
        let s = dec_digits(n);
        assert(s.drop_last() == dec_digits(n / 10));
        assert(digits_val(s) == n / 10 * 10 + digit_val(digit_char(n % 10)));
        assert(n / 10 * 10 + n % 10 == n);
    }
}

/// Collects the characters of a string slice into a vector.
pub fn str_chars(s: &str) -> (r: Vec<char>)
    ensures
        r@ == s@,
{
    broadcast use vstd::string::group_string_axioms;

    let mut v: Vec<char> = Vec::new();
    for c in it: s.chars()
        invariant
            it.seq() == s@,
            v@ == s@.take(it.index()),
    {
        v.push(c);
    }
    proof {
        assert(s@.take(s@.len() as int) == s@);
    }
    v
}

/// Relies on `String::push`: appends a single character.
#[verifier::external_body]
fn push_char(s: &mut String, c: char)
    ensures
        final(s)@ == old(s)@.push(c),
{
    s.push(c)
}

/// Builds a `String` from a vector of characters.
pub fn chars_string(v: &Vec<char>) -> (r: String)
    ensures
        r@ == v@,
{
    let mut s = String::new();
    let mut i: usize = 0;
    while i < v.len()
        invariant
            i <= v.len(),
            s@ == v@.take(i as int),
        decreases v.len() - i,
    {
        push_char(&mut s, v[i]);
        proof {
            assert(v@.take(i as int).push(v@[i as int]) == v@.take(i + 1));
        }
        i = i + 1;
    }
    proof {
        assert(v@.take(v@.len() as int) == v@);
    }
    s
}

/// Appends all characters of `src` to `dst`.
pub fn append_chars(dst: &mut Vec<char>, src: &Vec<char>)
    ensures
        final(dst)@ == old(dst)@ + src@,
{
    let mut i: usize = 0;
    while i < src.len()
        invariant
            i <= src.len(),
            dst@ == old(dst)@ + src@.take(i as int),
        decreases src.len() - i,
    {
        dst.push(src[i]);
        proof {
            assert(old(dst)@ + src@.take(i + 1) =~= (old(dst)@ + src@.take(i as int)).push(
                src@[i as int]));
        }
        i = i + 1;
    }
    proof {
        assert(src@.take(src@.len() as int) == src@);
    }
}

/// Reads a digit string bounded by `bound`; `None` when `v` is empty,
/// holds a non-digit, or denotes a number above `bound`.
pub fn digits_to_i64(v: &Vec<char>, bound: i64) -> (r: Option<i64>)
    requires
        0 <= bound <= 1000000000000,
    ensures
        r is Some <==> digits_within(v@, bound as int),
        r matches Some(n) ==> n == digits_val(v@) && 0 <= n <= bound,
{
    if v.len() == 0 {
        return None;
    }
    let mut acc: i64 = 0;
    let mut i: usize = 0;
    while i < v.len()
        invariant
            0 <= bound <= 1000000000000,
            i <= v.len(),
            all_digits(v@.take(i as int)),
            acc == digits_val(v@.take(i as int)),
            0 <= acc <= bound,
        decreases v.len() - i,
    {
        let c = v[i];
        if !('0' <= c && c <= '9') {
            return None;
        }
        let d: i64 = (c as u32 as i64) - ('0' as u32 as i64);
        proof {
            assert(v@.take(i + 1).drop_last() == v@.take(i as int));
            assert(v@.take(i + 1).last() == v@[i as int]);
        }
        let next: i64 = acc * 10 + d;
        if next > bound {
            proof {
                lemma_digits_bigger_stays_big(v@, i + 1, bound as int);
            }
            return None;
        }
        acc = next;
        i = i + 1;
    }
    proof {
        assert(v@.take(v@.len() as int) == v@);
    }
    Some(acc)
}

/// Reads a digit string as an `i32`; `None` when `v` is empty, holds a
/// non-digit, or denotes a number too large for an `i32`.
pub fn digits_to_i32(v: &Vec<char>) -> (r: Option<i32>)
    ensures
        r is Some <==> valid_num(v@),
        r matches Some(n) ==> n == digits_val(v@) && n >= 0,
{
    match digits_to_i64(v, MAX_NUM as i64) {
        Some(n) => Some(n as i32),
        None => None,
    }
}

/// Once a digit-string prefix exceeds `bound`, every longer prefix does
/// too, or some later character is not a digit.
proof fn lemma_digits_bigger_stays_big(s: Seq<char>, k: int, bound: int)
    requires
        0 < k <= s.len(),
        all_digits(s.take(k)),
        digits_val(s.take(k)) > bound,
        bound >= 0,
    ensures
        !digits_within(s, bound),
    decreases s.len() - k,
{
    if k == s.len() {
        assert(s.take(k) == s);
    } else {
        if !is_digit_char(s[k]) {
            assert(!all_digits(s));
        } else {
            assert(all_digits(s.take(k + 1))) by {
                assert(forall|i: int|
                    0 <= i < k ==> s.take(k + 1)[i] == #[trigger] s.take(k)[i]);
                assert(s.take(k + 1)[k] == s[k]);
            }
            assert(s.take(k + 1).drop_last() == s.take(k));
            lemma_digits_val_nonneg(s.take(k));
            assert(digits_val(s.take(k + 1)) > bound);
            lemma_digits_bigger_stays_big(s, k + 1, bound);
        }
    }
}

/// Renders `n >= 0` as its canonical decimal digit string.
pub fn i32_digits(n: i32) -> (v: Vec<char>)
    requires
        n >= 0,
    ensures
        v@ == dec_digits(n as int),
{
    let mut rev: Vec<char> = Vec::new();
    let mut x: i32 = n;
    // Collect digits from least to most significant.
    while x >= 10
        invariant
            0 <= x,
            dec_digits(n as int) == dec_digits(x as int) + rev@.reverse(),
        decreases x,
    {
        let d: u8 = (x % 10) as u8;
        proof {
            assert(dec_digits(x as int) == dec_digits(x as int / 10).push(
                digit_char(x as int % 10)));
            assert((dec_digits(x as int / 10).push(digit_char(x as int % 10)))
                + rev@.reverse() == dec_digits(x as int / 10) + rev@.push(
                digit_char(x as int % 10)).reverse());
        }
        rev.push((48u8 + d) as char);
        x = x / 10;
    }
    let d: u8 = (x % 10) as u8;
    proof {
        assert(x % 10 == x as int);
        assert(dec_digits(x as int) == seq![digit_char(x as int)]);
    }
    rev.push((48u8 + d) as char);
    proof {
        assert(dec_digits(n as int) == rev@.reverse());
    }
    let mut v: Vec<char> = Vec::new();
    let mut i: usize = rev.len();
    while i > 0
        invariant
            i <= rev.len(),
            v@ == rev@.skip(i as int).reverse(),
        decreases i,
    {
        i = i - 1;
        v.push(rev[i]);
        proof {
            assert(rev@.skip(i as int) == seq![rev@[i as int]] + rev@.skip(i + 1));
            assert((seq![rev@[i as int]] + rev@.skip(i + 1)).reverse()
                == rev@.skip(i + 1).reverse().push(rev@[i as int]));
        }
    }
    proof {
        assert(rev@.skip(0) == rev@);
    }
    v
}

/// Appends the characters of a string slice to `dst`.
pub fn push_str_chars(dst: &mut Vec<char>, s: &str)
    ensures
        final(dst)@ == old(dst)@ + s@,
{
    let cs = str_chars(s);
    append_chars(dst, &cs);
}

/// Appends the canonical decimal rendering of `n >= 0` to `dst`.
pub fn push_i32_digits(dst: &mut Vec<char>, n: i32)
    requires
        n >= 0,
    ensures
        final(dst)@ == old(dst)@ + dec_digits(n as int),
{
    let ds = i32_digits(n);
    append_chars(dst, &ds);
}

/// Leading whitespace removed.
pub open spec fn trim_start(s: Seq<char>) -> Seq<char>
    decreases s.len(),
{
    if s.len() > 0 && is_space_char(s[0]) {
        trim_start(s.drop_first())
    } else {
        s
    }
}

/// Trailing whitespace removed.
pub open spec fn trim_end(s: Seq<char>) -> Seq<char>
    decreases s.len(),
{
    if s.len() > 0 && is_space_char(s.last()) {
        trim_end(s.drop_last())
    } else {
        s
    }
}

/// Leading and trailing whitespace removed.
pub open spec fn trim(s: Seq<char>) -> Seq<char> {
    trim_end(trim_start(s))
}

proof fn lemma_trim_start_skip(s: Seq<char>, i: int)
    requires
        0 <= i <= s.len(),
        forall|k: int| 0 <= k < i ==> is_space_char(#[trigger] s[k]),
    ensures
        trim_start(s) == trim_start(s.skip(i)),
    decreases i,
{
    if i > 0 {
        assert(is_space_char(s[0]));
        assert(s.drop_first() == s.skip(1));
        assert(s.skip(1).skip(i - 1) == s.skip(i));
        assert(forall|k: int|
            0 <= k < i - 1 ==> is_space_char(#[trigger] s.skip(1)[k]));
        lemma_trim_start_skip(s.skip(1), i - 1);
    } else {
        assert(s.skip(0) == s);
    }
}

proof fn lemma_trim_end_take(s: Seq<char>, j: int)
    requires
        0 <= j <= s.len(),
        forall|k: int| j <= k < s.len() ==> is_space_char(#[trigger] s[k]),
    ensures
        trim_end(s) == trim_end(s.take(j)),
    decreases s.len() - j,
{
    if j < s.len() {
        assert(is_space_char(s.last()));
        assert(s.drop_last() == s.take(s.len() - 1));
        assert(s.take(s.len() - 1).take(j) == s.take(j));
        assert(forall|k: int|
            j <= k < s.len() - 1 ==> is_space_char(#[trigger] s.take(s.len() - 1)[k]));
        lemma_trim_end_take(s.take(s.len() - 1), j);
    } else {
        assert(s.take(s.len() as int) == s);
    }
}

/// A string that neither starts nor ends with whitespace is its own trim.
pub proof fn lemma_trim_id(s: Seq<char>)
    requires
        s.len() == 0 || (!is_space_char(s[0]) && !is_space_char(s.last())),
    ensures
        trim(s) == s,
{
}

/// Trimming a string extended by one trailing space gives its trim.
pub proof fn lemma_trim_push_space(s: Seq<char>, c: char)
    requires
        is_space_char(c),
    ensures
        trim(s.push(c)) == trim(s),
    decreases s.len(),
{
    let t = s.push(c);
    if s.len() == 0 {
        assert(t.len() == 1 && t[0] == c);
        assert(t.drop_first() =~= Seq::<char>::empty());
        assert(trim_start(Seq::<char>::empty()) == Seq::<char>::empty());
        assert(trim_start(t) == Seq::<char>::empty());
    } else if is_space_char(s[0]) {
        assert(t[0] == s[0]);
        assert(t.drop_first() == s.drop_first().push(c));
        lemma_trim_push_space(s.drop_first(), c);
    } else {
        assert(t[0] == s[0]);
        assert(trim_start(t) == t);
        assert(trim_start(s) == s);
        assert(t.drop_last() == s);
        assert(t.last() == c);
        assert(trim_end(t) == trim_end(s));
    }
}

/// Decides [`is_space_char`].
pub fn is_space(c: char) -> (r: bool)
    ensures
        r == is_space_char(c),
{
    c == ' ' || c == '\t' || c == '\n' || c == '\r'
}

/// Decides [`is_alpha_char`].
pub fn is_alpha(c: char) -> (r: bool)
    ensures
        r == is_alpha_char(c),
{
    ('a' <= c && c <= 'z') || ('A' <= c && c <= 'Z')
}

/// Decides [`is_digit_char`].
pub fn is_digit(c: char) -> (r: bool)
    ensures
        r == is_digit_char(c),
{
    '0' <= c && c <= '9'
}

/// Removes leading and trailing whitespace.
pub fn trim_chars(v: &Vec<char>) -> (r: Vec<char>)
    ensures
        r@ == trim(v@),
{
    let mut i: usize = 0;
    while i < v.len() && is_space(v[i])
        invariant
            i <= v.len(),
            forall|k: int| 0 <= k < i ==> is_space_char(#[trigger] v@[k]),
        decreases v.len() - i,
    {
        i = i + 1;
    }
    let mut j: usize = v.len();
    while j > i && is_space(v[j - 1])
        invariant
            i <= j <= v.len(),
            forall|k: int| j <= k < v.len() ==> is_space_char(#[trigger] v@[k]),
        decreases j,
    {
        j = j - 1;
    }
    let mut r: Vec<char> = Vec::new();
    let mut k: usize = i;
    while k < j
        invariant
            i <= k <= j <= v.len(),
            r@ == v@.subrange(i as int, k as int),
        decreases j - k,
    {
        r.push(v[k]);
        proof {
            assert(v@.subrange(i as int, k as int).push(v@[k as int])
                == v@.subrange(i as int, k + 1));
        }
        k = k + 1;
    }
    proof {
        lemma_trim_start_skip(v@, i as int);
        if i < v.len() {
            assert(!is_space_char(v@[i as int]));
            assert(trim_start(v@.skip(i as int)) == v@.skip(i as int));
        } else {
            assert(v@.skip(i as int) == Seq::<char>::empty());
        }
        let u = v@.skip(i as int);
        assert(forall|k: int|
            j - i <= k < u.len() ==> is_space_char(#[trigger] u[k]));
        lemma_trim_end_take(u, j - i);
        if j > i {
            assert(!is_space_char(u[j - i - 1]));
            assert(trim_end(u.take(j - i)) == u.take(j - i));
        } else {
            assert(u.take(0) == Seq::<char>::empty());
        }
        assert(u.take(j - i) == v@.subrange(i as int, j as int));
    }
    r
}

/// `c` lowercased, for ASCII letters; other characters — non-ASCII
/// letters included — are unchanged, matching the ASCII-lowercase keys of
/// the abbreviation table.
pub open spec fn lower_char(c: char) -> char {
    if 'A' <= c && c <= 'Z' {
        ((c as u8) + 32) as char
    } else {
        c
    }
}

/// `s` with every ASCII uppercase letter lowercased.
pub open spec fn lower(s: Seq<char>) -> Seq<char> {
    s.map_values(|c: char| lower_char(c))
}

/// Lowercasing is idempotent.
pub proof fn lemma_lower_idempotent(s: Seq<char>)
    ensures
        lower(lower(s)) == lower(s),
{
    assert(lower(lower(s)) =~= lower(s)) by {
        assert(forall|i: int| 0 <= i < s.len() ==> lower_char(lower_char(#[trigger] s[i]))
            == lower_char(s[i]));
    }
}

/// Lowercases the ASCII letters of a string.
pub fn lower_chars(v: &Vec<char>) -> (r: Vec<char>)
    ensures
        r@ == lower(v@),
{
    let mut r: Vec<char> = Vec::new();
    let mut i: usize = 0;
    while i < v.len()
        invariant
            i <= v.len(),
            r@ == lower(v@.take(i as int)),
        decreases v.len() - i,
    {
        let c = v[i];
        let lc: char = if 'A' <= c && c <= 'Z' {
            ((c as u8) + 32) as char
        } else {
            c
        };
        r.push(lc);
        proof {
            assert(lower(v@.take(i + 1)) == lower(v@.take(i as int)).push(
                lower_char(v@[i as int])));
        }
        i = i + 1;
    }
    proof {
        assert(v@.take(v@.len() as int) == v@);
    }
    r
}

} // verus!
