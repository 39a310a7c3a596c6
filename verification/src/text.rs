//! String helpers: trimming, splitting, whitespace collapsing, decimal numbers.
//!
//! Text is modelled as `Seq<char>`, raw markup as `Seq<u8>`. The functions of
//! std and of outside crates that have no specification in vstd are wrapped
//! here, each with the contract that the rest of the library relies on.

use bstr::ByteSlice;
use isnt::std_1::primitive::IsntStrExt;
use regex::Regex;
use vstd::pervasive::unreached;
use vstd::prelude::*;
use vstd::string::*;

verus! {

/// Whether `c` has the Unicode property `White_Space`, by which
/// `char::is_whitespace`, `str::trim` and `str::trim_end` go: the controls
/// from tab to carriage return, the space, the next-line control, the
/// no-break spaces, the Ogham space mark, the spaces of fixed width, the
/// line and paragraph separators, the mathematical space and the
/// ideographic space.
pub open spec fn white_space(c: char) -> bool {
    let code = c as u32;
    ||| 0x09 <= code <= 0x0d
    ||| code == 0x20
    ||| code == 0x85
    ||| code == 0xa0
    ||| code == 0x1680
    ||| 0x2000 <= code <= 0x200a
    ||| code == 0x2028
    ||| code == 0x2029
    ||| code == 0x202f
    ||| code == 0x205f
    ||| code == 0x3000
}

/// `s` without its trailing whitespace.
pub open spec fn trim_end_of(s: Seq<char>) -> Seq<char>
    decreases s.len(),
{
    if s.len() > 0 && white_space(s.last()) {
        trim_end_of(s.drop_last())
    } else {
        s
    }
}

/// `s` without its leading whitespace.
pub open spec fn trim_start_of(s: Seq<char>) -> Seq<char>
    decreases s.len(),
{
    if s.len() > 0 && white_space(s[0]) {
        trim_start_of(s.skip(1))
    } else {
        s
    }
}

/// `s` without leading and trailing whitespace.
pub open spec fn trim_of(s: Seq<char>) -> Seq<char> {
    trim_start_of(trim_end_of(s))
}

/// The rest of `s` behind `prefix`, where `s` starts with it.
pub open spec fn stripped_prefix(s: Seq<char>, prefix: Seq<char>) -> Option<Seq<char>> {
    if prefix.is_prefix_of(s) {
        Some(s.skip(prefix.len() as int))
    } else {
        None
    }
}

/// The index of the first `c` in `s`.
pub open spec fn position_of(s: Seq<char>, c: char) -> Option<int>
    decreases s.len(),
{
    if s.len() == 0 {
        None
    } else if s[0] == c {
        Some(0)
    } else {
        match position_of(s.skip(1), c) {
            Some(i) => Some(i + 1),
            None => None,
        }
    }
}

/// What stands before and behind the first `c` in `s`.
pub open spec fn split_at_first(s: Seq<char>, c: char) -> Option<(Seq<char>, Seq<char>)> {
    match position_of(s, c) {
        Some(i) => Some((s.take(i), s.skip(i + 1))),
        None => None,
    }
}

/// Whether `c` is a line feed, a tab or a space.
pub open spec fn is_gap(c: char) -> bool {
    c == '\n' || c == '\t' || c == ' '
}

/// `s` with each maximal run of line feeds, tabs and spaces collapsed into
/// one space.
pub open spec fn runs_collapsed(s: Seq<char>) -> Seq<char>
    decreases s.len(),
{
    if s.len() == 0 {
        s
    } else if !is_gap(s.last()) {
        runs_collapsed(s.drop_last()).push(s.last())
    } else if s.len() >= 2 && is_gap(s[s.len() - 2]) {
        runs_collapsed(s.drop_last())
    } else {
        runs_collapsed(s.drop_last()).push(' ')
    }
}

/// `s` with every match of `from` replaced by `to`, as `str::replace` computes it.
pub uninterp spec fn str_replaced(s: Seq<char>, from: Seq<char>, to: Seq<char>) -> Seq<char>;

/// `bytes` without leading and trailing Unicode whitespace, as bstr trims a
/// byte string that need not be valid UTF-8.
pub uninterp spec fn byte_trimmed(bytes: Seq<u8>) -> Seq<u8>;

/// The regular expression for a run of line feeds, tabs and spaces.
pub const WHITESPACE_RUN: &'static str = "[\n\t ]+";

/// The regular expression for a run of line feeds, tabs and spaces.
pub open spec fn whitespace_run() -> Seq<char> {
    "[\n\t ]+"@
}

/// Whether raw text holds nothing but whitespace.
pub open spec fn blank(bytes: Seq<u8>) -> bool {
    byte_trimmed(bytes).len() == 0
}

/// The character of a decimal digit.
pub open spec fn digit_char(d: nat) -> char {
    if d == 0 {
        '0'
    } else if d == 1 {
        '1'
    } else if d == 2 {
        '2'
    } else if d == 3 {
        '3'
    } else if d == 4 {
        '4'
    } else if d == 5 {
        '5'
    } else if d == 6 {
        '6'
    } else if d == 7 {
        '7'
    } else if d == 8 {
        '8'
    } else {
        '9'
    }
}

/// `n` written in decimal, without leading zeros.
pub open spec fn decimal_digits(n: nat) -> Seq<char>
    decreases n,
{
    if n < 10 {
        seq![digit_char(n)]
    } else {
        decimal_digits(n / 10).push(digit_char(n % 10))
    }
}

/// `str::trim_end`: the longest prefix of `s` that does not end in whitespace.
#[verifier::external_body]
pub(crate) fn trim_end<'a>(s: &'a str) -> (r: &'a str)
    ensures
        r@ == trim_end_of(s@),
{
    s.trim_end()
}

/// `str::trim`: `s` between its first and its last character that is not
/// whitespace.
#[verifier::external_body]
pub(crate) fn trim<'a>(s: &'a str) -> (r: &'a str)
    ensures
        r@ == trim_of(s@),
{
    s.trim()
}

/// `str::strip_prefix`: what follows `prefix`, or `None` where `s` does not
/// start with it.
#[verifier::external_body]
pub(crate) fn strip_prefix<'a>(s: &'a str, prefix: &str) -> (r: Option<&'a str>)
    ensures
        r.is_some() == stripped_prefix(s@, prefix@).is_some(),
        r matches Some(rest) ==> rest@ == stripped_prefix(s@, prefix@).unwrap(),
{
    s.strip_prefix(prefix)
}

/// `str::split_once` on a character: the parts before and behind its first
/// occurrence, or `None` where it does not occur.
#[verifier::external_body]
pub(crate) fn split_once<'a>(s: &'a str, delimiter: char) -> (r: Option<(&'a str, &'a str)>)
    ensures
        r.is_some() == split_at_first(s@, delimiter).is_some(),
        r matches Some(parts) ==> (parts.0@, parts.1@) == split_at_first(s@, delimiter).unwrap(),
{
    s.split_once(delimiter)
}

/// `str::replace`.
#[verifier::external_body]
pub(crate) fn replace(s: &str, from: &str, to: &str) -> (r: String)
    ensures
        r@ == str_replaced(s@, from@, to@),
{
    s.replace(from, to)
}

/// `==` on string slices: the same characters in the same order.
#[verifier::external_body]
pub(crate) fn str_eq(a: &str, b: &str) -> (r: bool)
    ensures
        r == (a@ == b@),
{
    a == b
}

/// `is_not_empty` of the isnt crate: the negation of `str::is_empty`.
#[verifier::external_body]
pub(crate) fn is_not_empty(s: &str) -> (r: bool)
    ensures
        r == (s@.len() > 0),
{
    s.is_not_empty()
}

/// `Regex::new` and `Regex::replace_all` of the regex crate: the pattern is
/// compiled and every match of it in `haystack` replaced. The one claim is
/// of the pattern for a run of line feeds, tabs and spaces, replaced by one
/// space: that pattern is a bracketed class under `+`, which the crate
/// accepts and matches greedily, leftmost first and without overlap, so each
/// maximal run is one match. Of other patterns nothing is claimed.
#[verifier::external_body]
pub(crate) fn replace_all(pattern: &str, haystack: &str, replacement: &str) -> (r: Option<String>)
    ensures
        pattern@ == whitespace_run() && replacement@ == " "@ ==> r.is_some(),
        pattern@ == whitespace_run() && replacement@ == " "@ ==> r.unwrap()@ == runs_collapsed(
            haystack@,
        ),
{
    match Regex::new(pattern) {
        Ok(regex) => Some(regex.replace_all(haystack, replacement).into_owned()),
        Err(_) => None,
    }
}

/// `ByteSlice::trim` of the bstr crate.
#[verifier::external_body]
pub(crate) fn trim_bytes<'a>(bytes: &'a [u8]) -> (r: &'a [u8])
    ensures
        r@ == byte_trimmed(bytes@),
{
    bytes.trim()
}

/// Collapses each run of line feeds, tabs and spaces in `s` into one space.
pub fn collapse_whitespace(s: &str) -> (r: String)
    ensures
        r@ == runs_collapsed(s@),
{
    match replace_all(WHITESPACE_RUN, s, " ") {
        Some(collapsed) => collapsed,
        None => unreached(),
    }
}

/// Whether raw text holds nothing but whitespace.
pub fn is_blank(bytes: &[u8]) -> (r: bool)
    ensures
        r == blank(bytes@),
{
    trim_bytes(bytes).len() == 0
}

/// The text of one decimal digit.
fn digit_text(d: usize) -> (r: &'static str)
    requires
        d < 10,
    ensures
        r@ == seq![digit_char(d as nat)],
{
    proof {
        reveal_strlit("0");
        reveal_strlit("1");
        reveal_strlit("2");
        reveal_strlit("3");
        reveal_strlit("4");
        reveal_strlit("5");
        reveal_strlit("6");
        reveal_strlit("7");
        reveal_strlit("8");
        reveal_strlit("9");
    }
    let r = if d == 0 {
        "0"
    } else if d == 1 {
        "1"
    } else if d == 2 {
        "2"
    } else if d == 3 {
        "3"
    } else if d == 4 {
        "4"
    } else if d == 5 {
        "5"
    } else if d == 6 {
        "6"
    } else if d == 7 {
        "7"
    } else if d == 8 {
        "8"
    } else {
        "9"
    };
    r
}

/// Writes `n` in decimal.
pub fn decimal(n: usize) -> (r: String)
    ensures
        r@ == decimal_digits(n as nat),
    decreases n,
{
    if n < 10 {
        String::from_str(digit_text(n))
    } else {
        let mut r = decimal(n / 10);
        r.append(digit_text(n % 10));
        r
    }
}

/// A new string made of `a` followed by `b`.
pub fn joined(a: &str, b: &str) -> (r: String)
    ensures
        r@ == a@ + b@,
{
    let mut r = String::from_str(a);
    r.append(b);
    r
}

} // verus!
