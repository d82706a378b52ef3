//! Reading of colour codes such as `#1a2b3c`.
use vstd::prelude::*;
use vstd::string::{StringExecFns, StrSliceExecFns};

use crate::text::chars_of;
use crate::theme::Rgb;

verus! {

/// Unicode `White_Space`, which is what `char::is_whitespace` tests.
pub open spec fn is_whitespace(c: char) -> bool {
    ||| c == '\t'
    ||| c == '\n'
    ||| c == '\x0B'
    ||| c == '\x0C'
    ||| c == '\r'
    ||| c == ' '
    ||| c == '\u{85}'
    ||| c == '\u{A0}'
    ||| c == '\u{1680}'
    ||| ('\u{2000}' <= c && c <= '\u{200A}')
    ||| c == '\u{2028}'
    ||| c == '\u{2029}'
    ||| c == '\u{202F}'
    ||| c == '\u{205F}'
    ||| c == '\u{3000}'
}

fn exec_is_whitespace(c: char) -> (b: bool)
    ensures
        b == is_whitespace(c),
{
    c == '\t' || c == '\n' || c == '\x0B' || c == '\x0C' || c == '\r' || c == ' ' || c == '\u{85}'
        || c == '\u{A0}' || c == '\u{1680}' || ('\u{2000}' <= c && c <= '\u{200A}') || c
        == '\u{2028}' || c == '\u{2029}' || c == '\u{202F}' || c == '\u{205F}' || c == '\u{3000}'
}

/// `s` without its leading characters that satisfy `p`.
pub open spec fn skip_leading(s: Seq<char>, p: spec_fn(char) -> bool) -> Seq<char>
    decreases s.len(),
{
    if s.len() > 0 && p(s[0]) {
        skip_leading(s.drop_first(), p)
    } else {
        s
    }
}

/// `s` without its trailing characters that satisfy `p`.
pub open spec fn skip_trailing(s: Seq<char>, p: spec_fn(char) -> bool) -> Seq<char>
    decreases s.len(),
{
    if s.len() > 0 && p(s.last()) {
        skip_trailing(s.drop_last(), p)
    } else {
        s
    }
}

/// What `str::trim` leaves of `s`.
pub open spec fn trimmed(s: Seq<char>) -> Seq<char> {
    skip_trailing(skip_leading(s, |c: char| is_whitespace(c)), |c: char| is_whitespace(c))
}

/// The text of a colour code once surrounding whitespace and leading `#` signs are removed.
pub open spec fn code_digits(s: Seq<char>) -> Seq<char> {
    skip_leading(trimmed(s), |c: char| c == '#')
}

/// The number of bytes of a character in UTF-8.
pub open spec fn utf8_width(c: char) -> int {
    if (c as u32) < 0x80 {
        1
    } else if (c as u32) < 0x800 {
        2
    } else if (c as u32) < 0x10000 {
        3
    } else {
        4
    }
}

/// The number of bytes of a character sequence in UTF-8.
pub open spec fn utf8_len(s: Seq<char>) -> int
    decreases s.len(),
{
    if s.len() == 0 {
        0
    } else {
        utf8_len(s.drop_last()) + utf8_width(s.last())
    }
}

/// The value of a hexadecimal digit.
pub open spec fn hex_digit(c: char) -> Option<u8> {
    if '0' <= c && c <= '9' {
        Some(((c as u32) - ('0' as u32)) as u8)
    } else if 'a' <= c && c <= 'f' {
        Some(((c as u32) - ('a' as u32) + 10) as u8)
    } else if 'A' <= c && c <= 'F' {
        Some(((c as u32) - ('A' as u32) + 10) as u8)
    } else {
        None
    }
}

/// What `u8::from_str_radix(_, 16)` gives for a two-character text: a `+` sign may stand
/// before a single digit.
pub open spec fn radix_pair(c0: char, c1: char) -> Option<u8> {
    if c0 == '+' {
        hex_digit(c1)
    } else {
        match (hex_digit(c0), hex_digit(c1)) {
            (Some(h), Some(l)) => Some((h * 16 + l) as u8),
            _ => None,
        }
    }
}

/// How the two bytes at byte offset `i` of `u` are read, where the characters before `i` are
/// one byte each: `None` where the byte slice ends inside a character (which panics),
/// `Some(None)` where they are no number, `Some(Some(v))` where they read as `v`.
pub open spec fn code_piece(u: Seq<char>, i: int) -> Option<Option<u8>> {
    if utf8_width(u[i]) >= 3 {
        None
    } else if utf8_width(u[i]) == 2 {
        Some(None)
    } else if utf8_width(u[i + 1]) >= 2 {
        None
    } else {
        Some(radix_pair(u[i], u[i + 1]))
    }
}

/// What reading a colour code comes to.
pub enum CodeOutcome {
    /// The byte slicing ends inside a character, and the reading panics.
    Panics,
    /// The digits are not six bytes long.
    Length(Seq<char>),
    /// A pair of digits is not a number.
    Digit,
    /// The colour.
    Colour(Rgb),
}

/// What reading the colour code `s` comes to.
pub open spec fn code_outcome(s: Seq<char>) -> CodeOutcome {
    code_outcome_of_digits(code_digits(s))
}

/// What reading the digits `u` of a colour code comes to.
pub open spec fn code_outcome_of_digits(u: Seq<char>) -> CodeOutcome {
    if utf8_len(u) != 6 {
        CodeOutcome::Length(u)
    } else {
        match code_piece(u, 0) {
            None => CodeOutcome::Panics,
            Some(None) => CodeOutcome::Digit,
            Some(Some(r)) => match code_piece(u, 2) {
                None => CodeOutcome::Panics,
                Some(None) => CodeOutcome::Digit,
                Some(Some(g)) => match code_piece(u, 4) {
                    None => CodeOutcome::Panics,
                    Some(None) => CodeOutcome::Digit,
                    Some(Some(b)) => CodeOutcome::Colour(Rgb { r, g, b }),
                },
            },
        }
    }
}

/// Why a colour code could not be read.
#[derive(Debug)]
pub enum ColourError {
    /// The code, without whitespace and `#`, is not six bytes long; it is carried here.
    InvalidLength(String),
    /// A pair of digits is not a hexadecimal number.
    InvalidDigit,
}

impl ColourError {
    /// The message of the error, after `prefix` for a code of the wrong length.
    pub fn message(&self, prefix: &str) -> (m: String)
        ensures
            m@ == (match *self {
                ColourError::InvalidLength(code) => prefix@ + ": "@ + code@,
                ColourError::InvalidDigit => "invalid digit found in string"@,
            }),
    {
        match self {
            ColourError::InvalidLength(code) => {
                let mut m = prefix.to_owned();
                m.append(": ");
                m.append(code.as_str());
                m
            },
            ColourError::InvalidDigit => "invalid digit found in string".to_owned(),
        }
    }
}

/// The outcome that an error stands for.
pub open spec fn error_outcome(e: ColourError) -> CodeOutcome {
    match e {
        ColourError::InvalidLength(t) => CodeOutcome::Length(t@),
        ColourError::InvalidDigit => CodeOutcome::Digit,
    }
}

/// The outcome that a result stands for.
pub open spec fn result_outcome(r: Result<Rgb, ColourError>) -> CodeOutcome {
    match r {
        Ok(c) => CodeOutcome::Colour(c),
        Err(e) => error_outcome(e),
    }
}

proof fn lemma_skip_leading(s: Seq<char>, p: spec_fn(char) -> bool, lo: int)
    requires
        0 <= lo <= s.len(),
        forall|j: int| 0 <= j < lo ==> p(#[trigger] s[j]),
        lo == s.len() || !p(s[lo]),
    ensures
        skip_leading(s, p) == s.subrange(lo, s.len() as int),
    decreases lo,
{
    if lo == 0 {
        assert(s.subrange(0, s.len() as int) =~= s);
    } else {
        assert(p(s[0]));
        let t = s.drop_first();
        assert forall|j: int| 0 <= j < lo - 1 implies p(#[trigger] t[j]) by {
            assert(t[j] == s[j + 1]);
        }
        if lo < s.len() {
            assert(t[lo - 1] == s[lo]);
        }
        lemma_skip_leading(t, p, lo - 1);
        assert(t.subrange(lo - 1, t.len() as int) =~= s.subrange(lo, s.len() as int));
    }
}

proof fn lemma_skip_trailing(s: Seq<char>, p: spec_fn(char) -> bool, hi: int)
    requires
        0 <= hi <= s.len(),
        forall|j: int| hi <= j < s.len() ==> p(#[trigger] s[j]),
        hi == 0 || !p(s[hi - 1]),
    ensures
        skip_trailing(s, p) == s.subrange(0, hi),
    decreases s.len() - hi,
{
    if hi == s.len() {
        assert(s.subrange(0, hi) =~= s);
    } else {
        assert(p(s.last()));
        let t = s.drop_last();
        lemma_skip_trailing(t, p, hi);
        assert(t.subrange(0, hi) =~= s.subrange(0, hi));
    }
}

proof fn lemma_utf8_len_take(s: Seq<char>, k: int)
    requires
        0 <= k <= s.len(),
    ensures
        utf8_len(s.take(k)) <= utf8_len(s),
        k < s.len() ==> utf8_len(s.take(k)) < utf8_len(s),
        utf8_len(s) >= s.len(),
    decreases s.len(),
{
    if s.len() > 0 {
        if k == s.len() {
            assert(s.take(k) =~= s);
            lemma_utf8_len_take(s.drop_last(), 0);
        } else {
            lemma_utf8_len_take(s.drop_last(), k);
            assert(s.drop_last().take(k) =~= s.take(k));
        }
    } else {
        assert(s.take(k) =~= s);
    }
}

proof fn lemma_utf8_len_ascii(s: Seq<char>, k: int)
    requires
        0 <= k <= s.len(),
        forall|j: int| 0 <= j < k ==> utf8_width(#[trigger] s[j]) == 1,
    ensures
        utf8_len(s.take(k)) == k,
    decreases k,
{
    if k > 0 {
        lemma_utf8_len_ascii(s, k - 1);
        assert(s.take(k).drop_last() =~= s.take(k - 1));
    }
}

fn exec_utf8_width(c: char) -> (w: usize)
    ensures
        w == utf8_width(c),
{
    let v = c as u32;
    if v < 0x80 {
        1
    } else if v < 0x800 {
        2
    } else if v < 0x10000 {
        3
    } else {
        4
    }
}

fn exec_hex_digit(c: char) -> (d: Option<u8>)
    ensures
        d == hex_digit(c),
{
    if '0' <= c && c <= '9' {
        Some(((c as u32) - ('0' as u32)) as u8)
    } else if 'a' <= c && c <= 'f' {
        Some(((c as u32) - ('a' as u32) + 10) as u8)
    } else if 'A' <= c && c <= 'F' {
        Some(((c as u32) - ('A' as u32) + 10) as u8)
    } else {
        None
    }
}

fn exec_radix_pair(c0: char, c1: char) -> (v: Option<u8>)
    ensures
        v == radix_pair(c0, c1),
{
    if c0 == '+' {
        exec_hex_digit(c1)
    } else {
        match (exec_hex_digit(c0), exec_hex_digit(c1)) {
            (Some(h), Some(l)) => Some(h * 16 + l),
            _ => None,
        }
    }
}

/// Reads the two bytes at offset `i` of the digits `chars[lo..hi]`; the earlier digits are one
/// byte each and the digits are six bytes long.
fn read_piece(chars: &Vec<char>, lo: usize, hi: usize, i: usize) -> (r: Option<Option<u8>>)
    requires
        lo <= hi <= chars@.len(),
        i == 0 || i == 2 || i == 4,
        lo + i < hi,
        utf8_len(chars@.subrange(lo as int, hi as int)) == 6,
        forall|j: int| 0 <= j < i ==> utf8_width(#[trigger] chars@.subrange(lo as int, hi as int)[j]) == 1,
    ensures
        r == code_piece(chars@.subrange(lo as int, hi as int), i as int),
{
    let ghost u = chars@.subrange(lo as int, hi as int);
    let w0 = exec_utf8_width(chars[lo + i]);
    assert(chars@[lo + i] == u[i as int]);
    if w0 >= 3 {
        return None;
    }
    if w0 == 2 {
        return Some(None);
    }
    proof {
        lemma_utf8_len_ascii(u, i + 1);
        if lo + i + 1 == hi {
            assert(u.take(i + 1) =~= u);
        }
    }
    assert(chars@[lo + i + 1] == u[i + 1]);
    let w1 = exec_utf8_width(chars[lo + i + 1]);
    if w1 >= 2 {
        return None;
    }
    Some(exec_radix_pair(chars[lo + i], chars[lo + i + 1]))
}

/// Finds the digits of a colour code: `chars[start..hi]` is what remains once whitespace
/// around the code and `#` signs before it are removed.
fn digits_range(chars: &Vec<char>) -> (r: (usize, usize))
    ensures
        r.0 <= r.1 <= chars@.len(),
        code_digits(chars@) == chars@.subrange(r.0 as int, r.1 as int),
{
    let n = chars.len();
    let ghost ws = |c: char| is_whitespace(c);
    let ghost hash = |c: char| c == '#';
    let mut lo: usize = 0;
    while lo < n && exec_is_whitespace(chars[lo])
        invariant
            n == chars@.len(),
            lo <= n,
            forall|j: int| 0 <= j < lo ==> is_whitespace(#[trigger] chars@[j]),
        decreases n - lo,
    {
        lo = lo + 1;
    }
    let mut hi: usize = n;
    while hi > lo && exec_is_whitespace(chars[hi - 1])
        invariant
            n == chars@.len(),
            lo <= hi <= n,
            forall|j: int| hi <= j < n ==> is_whitespace(#[trigger] chars@[j]),
        decreases hi,
    {
        hi = hi - 1;
    }
    proof {
        lemma_skip_leading(chars@, ws, lo as int);
        let t = chars@.subrange(lo as int, n as int);
        assert forall|j: int| hi - lo <= j < t.len() implies ws(#[trigger] t[j]) by {
            assert(t[j] == chars@[lo + j]);
        }
        if hi > lo {
            assert(t[hi - lo - 1] == chars@[hi - 1]);
        }
        lemma_skip_trailing(t, ws, hi - lo);
        assert(t.subrange(0, hi - lo) =~= chars@.subrange(lo as int, hi as int));
        assert(trimmed(chars@) == chars@.subrange(lo as int, hi as int));
    }
    let mut start: usize = lo;
    while start < hi && chars[start] == '#'
        invariant
            n == chars@.len(),
            lo <= start <= hi <= n,
            forall|j: int| lo <= j < start ==> #[trigger] chars@[j] == '#',
        decreases hi - start,
    {
        start = start + 1;
    }
    proof {
        let t = chars@.subrange(lo as int, hi as int);
        assert forall|j: int| 0 <= j < start - lo implies hash(#[trigger] t[j]) by {
            assert(t[j] == chars@[lo + j]);
        }
        if start < hi {
            assert(t[start - lo] == chars@[start as int]);
        }
        lemma_skip_leading(t, hash, start - lo);
        assert(t.subrange(start - lo, t.len() as int) =~= chars@.subrange(start as int, hi as int));
    }
    (start, hi)
}

/// Whether `chars[start..hi]` is six bytes long in UTF-8.
fn six_bytes(chars: &Vec<char>, start: usize, hi: usize) -> (b: bool)
    requires
        start <= hi <= chars@.len(),
    ensures
        b == (utf8_len(chars@.subrange(start as int, hi as int)) == 6),
{
    let ghost u = chars@.subrange(start as int, hi as int);
    let mut total: usize = 0;
    let mut k: usize = start;
    while k < hi && total <= 6
        invariant
            start <= k <= hi <= chars@.len(),
            u == chars@.subrange(start as int, hi as int),
            total == utf8_len(chars@.subrange(start as int, k as int)),
            total <= 10,
        decreases hi - k,
    {
        let w = exec_utf8_width(chars[k]);
        proof {
            assert(chars@.subrange(start as int, k + 1).drop_last() =~= chars@.subrange(start as int, k as int));
        }
        total = total + w;
        k = k + 1;
    }
    proof {
        assert(chars@.subrange(start as int, k as int) =~= u.take(k - start));
        lemma_utf8_len_take(u, k - start);
        if k == hi {
            assert(u.take(k - start) =~= u);
        }
    }
    total == 6 && k == hi
}

/// Reads the three pairs of digits of `chars[start..hi]`, which is six bytes long: `None` where
/// the reading panics, `Some(None)` where a pair is no number.
fn read_digits(chars: &Vec<char>, start: usize, hi: usize) -> (r: Option<Option<Rgb>>)
    requires
        start <= hi <= chars@.len(),
        utf8_len(chars@.subrange(start as int, hi as int)) == 6,
    ensures
        match r {
            None => code_outcome_of_digits(chars@.subrange(start as int, hi as int)) is Panics,
            Some(None) => code_outcome_of_digits(chars@.subrange(start as int, hi as int)) == CodeOutcome::Digit,
            Some(Some(c)) => code_outcome_of_digits(chars@.subrange(start as int, hi as int)) == CodeOutcome::Colour(c),
        },
{
    let ghost u = chars@.subrange(start as int, hi as int);
    proof {
        lemma_utf8_len_take(u, 0);
        if u.len() == 0 {
            assert(false);
        }
    }
    let r = match read_piece(chars, start, hi, 0) {
        None => {
            return None;
        },
        Some(None) => {
            return Some(None);
        },
        Some(Some(v)) => v,
    };
    proof {
        assert(utf8_width(u[0]) == 1 && utf8_width(u[1]) == 1);
        lemma_utf8_len_ascii(u, 2);
        if u.len() == 2 {
            assert(u.take(2) =~= u);
        }
    }
    let g = match read_piece(chars, start, hi, 2) {
        None => {
            return None;
        },
        Some(None) => {
            return Some(None);
        },
        Some(Some(v)) => v,
    };
    proof {
        assert(utf8_width(u[2]) == 1 && utf8_width(u[3]) == 1);
        assert forall|j: int| 0 <= j < 4 implies utf8_width(#[trigger] u[j]) == 1 by {
            if j < 2 {
            }
        }
        lemma_utf8_len_ascii(u, 4);
        if u.len() == 4 {
            assert(u.take(4) =~= u);
        }
    }
    let b = match read_piece(chars, start, hi, 4) {
        None => {
            return None;
        },
        Some(None) => {
            return Some(None);
        },
        Some(Some(v)) => v,
    };
    Some(Some(Rgb { r, g, b }))
}

/// Whether reading the colour code `s` would slice a character apart, which `parse_hex` must
/// not be asked to do.
pub fn code_panics(s: &str) -> (b: bool)
    ensures
        b == (code_outcome(s@) is Panics),
{
    let chars = chars_of(s);
    let (start, hi) = digits_range(&chars);
    if !six_bytes(&chars, start, hi) {
        return false;
    }
    match read_digits(&chars, start, hi) {
        None => true,
        Some(_) => false,
    }
}

/// Reads a colour code: surrounding whitespace and any leading `#` signs are ignored, and the
/// six bytes that remain are read as three pairs of hexadecimal digits.
pub fn parse_hex(s: &str) -> (r: Result<Rgb, ColourError>)
    requires
        !(code_outcome(s@) is Panics),
    ensures
        result_outcome(r) == code_outcome(s@),
{
    let chars = chars_of(s);
    let (start, hi) = digits_range(&chars);
    let ghost u = chars@.subrange(start as int, hi as int);
    assert(code_digits(s@) == u);
    if !six_bytes(&chars, start, hi) {
        let text = s.substring_char(start, hi);
        return Err(ColourError::InvalidLength(text.to_owned()));
    }
    match read_digits(&chars, start, hi) {
        Some(Some(c)) => Ok(c),
        Some(None) => Err(ColourError::InvalidDigit),
        None => {
            assert(false);
            Err(ColourError::InvalidDigit)
        },
    }
}

/// The lower-case hexadecimal digit of `d`, which is below sixteen.
pub open spec fn hex_char(d: u8) -> char {
    match d {
        0 => '0',
        1 => '1',
        2 => '2',
        3 => '3',
        4 => '4',
        5 => '5',
        6 => '6',
        7 => '7',
        8 => '8',
        9 => '9',
        10 => 'a',
        11 => 'b',
        12 => 'c',
        13 => 'd',
        14 => 'e',
        _ => 'f',
    }
}

/// The upper-case hexadecimal digit of `d`, which is below sixteen.
pub open spec fn hex_char_upper(d: u8) -> char {
    match d {
        0 => '0',
        1 => '1',
        2 => '2',
        3 => '3',
        4 => '4',
        5 => '5',
        6 => '6',
        7 => '7',
        8 => '8',
        9 => '9',
        10 => 'A',
        11 => 'B',
        12 => 'C',
        13 => 'D',
        14 => 'E',
        _ => 'F',
    }
}

/// The hexadecimal digit of `d` in the chosen case.
pub open spec fn hex_digit_char(d: u8, upper: bool) -> char {
    if upper {
        hex_char_upper(d)
    } else {
        hex_char(d)
    }
}

/// The six digits `rrggbb` of a colour, in the chosen case.
pub open spec fn hex_digits(c: Rgb, upper: bool) -> Seq<char> {
    seq![
        hex_digit_char(c.r / 16, upper), hex_digit_char(c.r % 16, upper),
        hex_digit_char(c.g / 16, upper), hex_digit_char(c.g % 16, upper),
        hex_digit_char(c.b / 16, upper), hex_digit_char(c.b % 16, upper),
    ]
}

/// The code of a colour: its six digits in the chosen case, after a `#` where `hash` holds.
pub open spec fn hex_code(c: Rgb, upper: bool, hash: bool) -> Seq<char> {
    if hash {
        seq!['#'] + hex_digits(c, upper)
    } else {
        hex_digits(c, upper)
    }
}

proof fn lemma_hex_char(d: u8, upper: bool)
    requires
        d < 16,
    ensures
        hex_digit(hex_digit_char(d, upper)) == Some(d),
        !is_whitespace(hex_digit_char(d, upper)),
        hex_digit_char(d, upper) != '#',
        hex_digit_char(d, upper) != '+',
        utf8_width(hex_digit_char(d, upper)) == 1,
{
}

proof fn lemma_pair(v: u8, upper: bool)
    ensures
        radix_pair(hex_digit_char(v / 16, upper), hex_digit_char(v % 16, upper)) == Some(v),
{
    lemma_hex_char(v / 16, upper);
    lemma_hex_char(v % 16, upper);
    assert(((v / 16) * 16 + v % 16) as u8 == v);
}

/// Every colour reads back from its code, with upper- or lower-case digits, with or without a
/// leading `#`.
pub proof fn lemma_hex_code_round_trip(c: Rgb, upper: bool, hash: bool)
    ensures
        code_outcome(hex_code(c, upper, hash)) == CodeOutcome::Colour(c),
{
    let s = hex_code(c, upper, hash);
    let d = hex_digits(c, upper);
    let ws = |ch: char| is_whitespace(ch);
    let hashp = |ch: char| ch == '#';
    lemma_hex_char(c.r / 16, upper);
    lemma_hex_char(c.r % 16, upper);
    lemma_hex_char(c.g / 16, upper);
    lemma_hex_char(c.g % 16, upper);
    lemma_hex_char(c.b / 16, upper);
    lemma_hex_char(c.b % 16, upper);
    let h: int = if hash { 1 } else { 0 };
    assert(s.len() == 6 + h);
    assert forall|j: int| 0 <= j < 6 implies #[trigger] s[j + h] == d[j] by {
        if hash {
            assert((seq!['#'] + d)[j + 1] == d[j]);
        }
    }
    assert(s[h + 5] == d[5]);
    assert(!ws(s[0])) by {
        if !hash {
            assert(s[0] == d[0]);
        }
    }
    lemma_skip_leading(s, ws, 0);
    assert(s.subrange(0, s.len() as int) =~= s);
    lemma_skip_trailing(s, ws, s.len() as int);
    assert(trimmed(s) == s);
    assert(s[h] == d[0]);
    lemma_skip_leading(s, hashp, h);
    let u = s.subrange(h, s.len() as int);
    assert(u =~= d);
    assert(code_digits(s) == d);
    assert forall|j: int| 0 <= j < 6 implies utf8_width(#[trigger] d[j]) == 1 by {}
    lemma_utf8_len_ascii(d, 6);
    assert(d.take(6) =~= d);
    lemma_pair(c.r, upper);
    lemma_pair(c.g, upper);
    lemma_pair(c.b, upper);
}

proof fn lemma_skip_leading_append(s: Seq<char>, t: Seq<char>, p: spec_fn(char) -> bool)
    ensures
        skip_leading(s + t, p) == if skip_leading(s, p).len() > 0 {
            skip_leading(s, p) + t
        } else {
            skip_leading(t, p)
        },
    decreases s.len(),
{
    if s.len() == 0 {
        assert(s + t =~= t);
    } else {
        assert((s + t)[0] == s[0]);
        if p(s[0]) {
            assert((s + t).drop_first() =~= s.drop_first() + t);
            lemma_skip_leading_append(s.drop_first(), t, p);
        }
    }
}

/// Whitespace before and after a colour code does not change how it reads.
pub proof fn lemma_code_ignores_whitespace(s: Seq<char>, a: char, b: char)
    requires
        is_whitespace(a),
        is_whitespace(b),
    ensures
        code_outcome(seq![a] + s + seq![b]) == code_outcome(s),
{
    let ws = |c: char| is_whitespace(c);
    let full = seq![a] + s + seq![b];
    assert(full[0] == a);
    assert(full.drop_first() =~= s + seq![b]);
    assert(skip_leading(full, ws) == skip_leading(s + seq![b], ws));
    lemma_skip_leading_append(s, seq![b], ws);
    let lead = skip_leading(s, ws);
    if lead.len() > 0 {
        let x = lead + seq![b];
        assert(x.last() == b);
        assert(x.drop_last() =~= lead);
        assert(skip_trailing(x, ws) == skip_trailing(lead, ws));
    } else {
        let one = seq![b];
        assert(one.drop_first() =~= Seq::<char>::empty());
        assert(skip_leading(one, ws) == skip_leading(Seq::<char>::empty(), ws));
        assert(skip_leading(Seq::<char>::empty(), ws) =~= Seq::<char>::empty());
        assert(lead =~= Seq::<char>::empty());
    }
    assert(trimmed(full) == trimmed(s));
}

} // verus!
