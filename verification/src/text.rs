//! Operations on text, stated over sequences of characters.

use vstd::prelude::*;
use vstd::string::*;
use vstd::utf8::*;

verus! {

/// `needle` occurs in `hay` starting at position `at`.
pub open spec fn occurs_at(hay: Seq<char>, needle: Seq<char>, at: int) -> bool {
    &&& 0 <= at
    &&& at + needle.len() <= hay.len()
    &&& hay.subrange(at, at + needle.len()) == needle
}

/// `needle` is a contiguous part of `hay`. The empty text is part of every
/// text; the comparison is by character, so it is case-sensitive.
pub open spec fn is_substring(hay: Seq<char>, needle: Seq<char>) -> bool {
    exists|at: int| occurs_at(hay, needle, at)
}

/// `s` without its last character when that character is a line feed,
/// otherwise `s` itself.
pub open spec fn without_line_end(s: Seq<char>) -> Seq<char> {
    if s.len() > 0 && s.last() == '\n' {
        s.drop_last()
    } else {
        s
    }
}

/// `count` copies of `fill`.
pub open spec fn repeated(fill: char, count: nat) -> Seq<char> {
    Seq::new(count, |i: int| fill)
}

/// `s` followed by as many `fill` characters as it takes to reach `width`
/// characters; `s` itself when it is already that long.
pub open spec fn padded(s: Seq<char>, width: nat, fill: char) -> Seq<char> {
    if s.len() >= width {
        s
    } else {
        s + repeated(fill, (width - s.len()) as nat)
    }
}

/// The characters a column may be filled with.
#[derive(Clone, Copy, Debug, PartialEq, Eq)]
pub enum Fill {
    Space,
    Underscore,
}

impl Fill {
    /// The character this fill stands for.
    pub open spec fn glyph(self) -> char {
        match self {
            Fill::Space => ' ',
            Fill::Underscore => '_',
        }
    }

    fn as_text(self) -> (s: &'static str)
        ensures
            s@ == seq![self.glyph()],
    {
        match self {
            Fill::Space => {
                proof {
                    reveal_strlit(" ");
                }
                " "
            },
            Fill::Underscore => {
                proof {
                    reveal_strlit("_");
                }
                "_"
            },
        }
    }
}

/// The characters of `s`, in order.
pub fn chars_of(s: &str) -> (out: Vec<char>)
    ensures
        out@ == s@,
{
    let mut out: Vec<char> = Vec::new();
    for c in it: s.chars()
        invariant
            it.seq() == s@,
            out@ == it.seq().take(it.index() as int),
    {
        out.push(c);
    }
    out
}

fn matches_at(hay: &Vec<char>, needle: &Vec<char>, at: usize) -> (found: bool)
    requires
        at + needle.len() <= hay.len(),
    ensures
        found == occurs_at(hay@, needle@, at as int),
{
    let mut j: usize = 0;
    while j < needle.len()
        invariant
            j <= needle.len(),
            at + needle.len() <= hay.len(),
            forall|k: int| 0 <= k < j ==> hay@[at + k] == needle@[k],
        decreases needle.len() - j,
    {
        if hay[at + j] != needle[j] {
            return false;
        }
        j += 1;
    }
    assert(hay@.subrange(at as int, at + needle.len()) =~= needle@);
    true
}

/// The first position at which `needle` occurs in `hay`, if any.
pub fn find(hay: &Vec<char>, needle: &Vec<char>) -> (position: Option<usize>)
    ensures
        position is Some <==> is_substring(hay@, needle@),
        position matches Some(at) ==> {
            &&& occurs_at(hay@, needle@, at as int)
            &&& forall|earlier: int| 0 <= earlier < at ==> !occurs_at(hay@, needle@, earlier)
        },
{
    if needle.len() > hay.len() {
        return None;
    }
    let last: usize = hay.len() - needle.len();
    let mut at: usize = 0;
    loop
        invariant
            needle.len() <= hay.len(),
            last == hay.len() - needle.len(),
            at <= last,
            forall|earlier: int| 0 <= earlier < at ==> !occurs_at(hay@, needle@, earlier),
        decreases last - at,
    {
        if matches_at(hay, needle, at) {
            return Some(at);
        }
        if at == last {
            return None;
        }
        at += 1;
    }
}

/// Whether `needle` is a contiguous part of `hay`.
pub fn contains(hay: &str, needle: &str) -> (found: bool)
    ensures
        found == is_substring(hay@, needle@),
{
    let h = chars_of(hay);
    let n = chars_of(needle);
    find(&h, &n).is_some()
}

/// Whether two texts hold the same characters.
pub fn same_text(a: &str, b: &str) -> (same: bool)
    ensures
        same == (a@ == b@),
{
    let x = chars_of(a);
    let y = chars_of(b);
    if x.len() != y.len() {
        return false;
    }
    let mut i: usize = 0;
    while i < x.len()
        invariant
            x@ == a@,
            y@ == b@,
            x.len() == y.len(),
            i <= x.len(),
            forall|k: int| 0 <= k < i ==> x@[k] == y@[k],
        decreases x.len() - i,
    {
        if x[i] != y[i] {
            return false;
        }
        i += 1;
    }
    assert(x@ =~= y@);
    true
}

/// `text` without one trailing line feed, if it ends in one.
pub fn strip_line_end(text: &str) -> (out: String)
    ensures
        out@ == without_line_end(text@),
{
    let n = text.unicode_len();
    if n > 0 && text.get_char(n - 1) == '\n' {
        text.substring_char(0, n - 1).to_owned()
    } else {
        text.to_owned()
    }
}

/// `text` filled on the right up to `width` characters.
pub fn pad_right(text: &str, width: usize, fill: Fill) -> (out: String)
    ensures
        out@ == padded(text@, width as nat, fill.glyph()),
{
    let mut out = text.to_owned();
    let n = text.unicode_len();
    if n >= width {
        return out;
    }
    let missing: usize = width - n;
    let glyph = fill.as_text();
    let mut added: usize = 0;
    while added < missing
        invariant
            added <= missing,
            glyph@ == seq![fill.glyph()],
            out@ == text@ + repeated(fill.glyph(), added as nat),
        decreases missing - added,
    {
        out.append(glyph);
        added += 1;
    }
    out
}

/// `line` with `text`, filled on the right up to `width` characters, at
/// its end.
pub fn push_padded(line: &mut String, text: &str, width: usize, fill: Fill)
    ensures
        final(line)@ == old(line)@ + padded(text@, width as nat, fill.glyph()),
{
    let cell = pad_right(text, width, fill);
    line.append(cell.as_str());
}

/// What is left of `s` when the white space at its two ends is removed,
/// white space being what the Unicode standard calls so.
pub uninterp spec fn trimmed(s: Seq<char>) -> Seq<char>;

/// `text` without the white space at its two ends.
///
/// Rests on `str::trim` of the standard library. Which characters count as
/// white space is a table of the Unicode standard, so the result is named,
/// not spelled out.
#[verifier::external_body]
pub(crate) fn trim(text: &str) -> (out: String)
    ensures
        out@ == trimmed(text@),
{
    text.trim().to_string()
}

/// The character of the digit `d`.
pub open spec fn digit_of(d: int) -> char {
    if d == 0 {
        '0'
    } else if d == 1 {
        '1'
    } else if d == 2 {
        '2'
    } else if d == 3 {
        '3'
    } else if d == 4 {
        '4'
    } else if d == 5 {
        '5'
    } else if d == 6 {
        '6'
    } else if d == 7 {
        '7'
    } else if d == 8 {
        '8'
    } else {
        '9'
    }
}

/// The digits of `n` in base ten, the most significant first, without
/// leading zeros.
pub open spec fn digits_of(n: nat) -> Seq<char>
    decreases n,
{
    if n < 10 {
        seq![digit_of(n as int)]
    } else {
        digits_of(n / 10).push(digit_of((n % 10) as int))
    }
}

/// The decimal numeral of `value`: its digits, after a minus sign where it
/// is negative.
pub open spec fn decimal_of(value: int) -> Seq<char> {
    if value < 0 {
        seq!['-'] + digits_of((-value) as nat)
    } else {
        digits_of(value as nat)
    }
}

fn digit_text(d: u32) -> (text: &'static str)
    requires
        d < 10,
    ensures
        text@ == seq![digit_of(d as int)],
{
    proof {
        reveal_strlit("0");
        reveal_strlit("1");
        reveal_strlit("2");
        reveal_strlit("3");
        reveal_strlit("4");
        reveal_strlit("5");
        reveal_strlit("6");
        reveal_strlit("7");
        reveal_strlit("8");
        reveal_strlit("9");
    }
    if d == 0 {
        "0"
    } else if d == 1 {
        "1"
    } else if d == 2 {
        "2"
    } else if d == 3 {
        "3"
    } else if d == 4 {
        "4"
    } else if d == 5 {
        "5"
    } else if d == 6 {
        "6"
    } else if d == 7 {
        "7"
    } else if d == 8 {
        "8"
    } else {
        "9"
    }
}

/// The digits of `n`: see [`digits_of`].
pub fn digits(n: u32) -> (out: String)
    ensures
        out@ == digits_of(n as nat),
    decreases n,
{
    if n < 10 {
        digit_text(n).to_owned()
    } else {
        let mut out = digits(n / 10);
        out.append(digit_text(n % 10));
        out
    }
}

/// The decimal numeral of `value`: see [`decimal_of`].
pub fn decimal(value: i32) -> (out: String)
    ensures
        out@ == decimal_of(value as int),
{
    if value < 0 {
        proof {
            reveal_strlit("-");
        }
        let magnitude: u32 = (0 - value as i64) as u32;
        let mut out = "-".to_owned();
        out.append(digits(magnitude).as_str());
        out
    } else {
        digits(value as u32)
    }
}

/// The text that `bytes` encode in UTF-8, if they encode one.
///
/// Rests on `std::str::from_utf8`, which gives the text exactly when the
/// bytes are well-formed UTF-8 and an error otherwise.
#[verifier::external_body]
pub(crate) fn str_from_utf8(bytes: &[u8]) -> (decoded: Option<&str>)
    ensures
        decoded is Some <==> valid_utf8(bytes@),
        decoded matches Some(s) ==> s@ == decode_utf8(bytes@),
{
    std::str::from_utf8(bytes).ok()
}

} // verus!
