//! Text: numbers in decimal and hexadecimal, durations, paths and UTF-8.
//!
//! What is marked as trusted says what an outside function does and is not
//! proved; all else is.

use vstd::prelude::*;
use vstd::string::StringExecFns;

verus! {

/// The character of one decimal digit.
pub open spec fn spec_digit(d: nat) -> char
    recommends
        d < 10,
{
    if d == 0 {
        '0'
    } else if d == 1 {
        '1'
    } else if d == 2 {
        '2'
    } else if d == 3 {
        '3'
    } else if d == 4 {
        '4'
    } else if d == 5 {
        '5'
    } else if d == 6 {
        '6'
    } else if d == 7 {
        '7'
    } else if d == 8 {
        '8'
    } else {
        '9'
    }
}

/// A natural number in decimal, without leading zeros.
pub open spec fn spec_decimal(n: nat) -> Seq<char>
    decreases n,
{
    if n < 10 {
        seq![spec_digit(n)]
    } else {
        spec_decimal(n / 10).push(spec_digit(n % 10))
    }
}

/// An integer in decimal, with a minus sign before a negative one.
pub open spec fn spec_signed_decimal(n: int) -> Seq<char> {
    if n < 0 {
        seq!['-'] + spec_decimal((-n) as nat)
    } else {
        spec_decimal(n as nat)
    }
}

/// One decimal digit as a string.
fn digit(d: u64) -> (s: &'static str)
    requires
        d < 10,
    ensures
        s@ == seq![spec_digit(d as nat)],
{
    proof {
        reveal_strlit("0");
        reveal_strlit("1");
        reveal_strlit("2");
        reveal_strlit("3");
        reveal_strlit("4");
        reveal_strlit("5");
        reveal_strlit("6");
        reveal_strlit("7");
        reveal_strlit("8");
        reveal_strlit("9");
    }
    let s = if d == 0 {
        "0"
    } else if d == 1 {
        "1"
    } else if d == 2 {
        "2"
    } else if d == 3 {
        "3"
    } else if d == 4 {
        "4"
    } else if d == 5 {
        "5"
    } else if d == 6 {
        "6"
    } else if d == 7 {
        "7"
    } else if d == 8 {
        "8"
    } else {
        "9"
    };
    assert(s@ =~= seq![spec_digit(d as nat)]);
    s
}

/// `n` in decimal.
pub fn decimal(n: u64) -> (s: String)
    ensures
        s@ == spec_decimal(n as nat),
    decreases n,
{
    if n < 10 {
        String::from_str(digit(n))
    } else {
        let mut s = decimal(n / 10);
        s.append(digit(n % 10));
        assert(s@ =~= spec_decimal(n as nat));
        s
    }
}

/// `n` in decimal, with a minus sign if it is negative.
pub fn signed_decimal(n: i64) -> (s: String)
    ensures
        s@ == spec_signed_decimal(n as int),
{
    if n < 0 {
        let magnitude: u64 = (-(n as i128)) as u64;
        let digits = decimal(magnitude);
        proof {
            reveal_strlit("-");
        }
        let s = String::from_str("-").concat(digits.as_str());
        assert(s@ =~= spec_signed_decimal(n as int));
        s
    } else {
        decimal(n as u64)
    }
}

/// The character of one hexadecimal digit, in lower case.
pub open spec fn spec_hex_digit(d: nat) -> char
    recommends
        d < 16,
{
    if d < 10 {
        spec_digit(d)
    } else if d == 10 {
        'a'
    } else if d == 11 {
        'b'
    } else if d == 12 {
        'c'
    } else if d == 13 {
        'd'
    } else if d == 14 {
        'e'
    } else {
        'f'
    }
}

/// Bytes in hexadecimal: two lower-case digits for each byte, the high half
/// first.
pub open spec fn spec_hex(bytes: Seq<u8>) -> Seq<char>
    decreases bytes.len(),
{
    if bytes.len() == 0 {
        Seq::empty()
    } else {
        spec_hex(bytes.drop_last()).push(spec_hex_digit((bytes.last() / 16) as nat)).push(
            spec_hex_digit((bytes.last() % 16) as nat),
        )
    }
}

/// `hex::encode`: each byte as two lower-case hexadecimal digits, the high
/// half first. Trusted, not proved.
#[verifier::external_body]
pub(crate) fn hex_encode(bytes: &[u8]) -> (text: String)
    ensures
        text@ == spec_hex(bytes@),
{
    hex::encode(bytes)
}

/// How `std` writes a duration of `secs` seconds and `nanos` nanoseconds
/// for debugging, such as `1s` or `1.5ms`.
pub uninterp spec fn spec_duration_debug(secs: u64, nanos: u32) -> Seq<char>;

/// `Debug` of `std::time::Duration`. Trusted, not proved: claims only that
/// the text depends on the two numbers alone.
#[verifier::external_body]
pub(crate) fn duration_debug(secs: u64, nanos: u32) -> (text: String)
    requires
        nanos < 1_000_000_000,
    ensures
        text@ == spec_duration_debug(secs, nanos),
{
    format!("{:?}", std::time::Duration::new(secs, nanos))
}

/// Whether `head` is the start of `whole`, and shorter than it.
pub open spec fn spec_proper_prefix(head: Seq<char>, whole: Seq<char>) -> bool {
    head.len() < whole.len() && head == whole.subrange(0, head.len() as int)
}

/// `std::path::Path::parent`: the path without its last component, if it
/// has one to drop. Trusted, not proved. Where the last component ends goes
/// by the platform's rules for paths, so the claim is only what holds on
/// every platform: the parent is the start of the path, and shorter than it.
#[verifier::external_body]
pub(crate) fn path_parent(path: &str) -> (parent: Option<String>)
    ensures
        parent matches Some(p) ==> spec_proper_prefix(p@, path@),
{
    std::path::Path::new(path).parent().map(|p| p.to_string_lossy().into_owned())
}

/// The UTF-8 bytes of a text.
pub open spec fn spec_utf8(text: Seq<char>) -> Seq<u8> {
    vstd::utf8::encode_utf8(text)
}

/// A copy of the UTF-8 bytes of `text`.
pub fn utf8(text: &str) -> (bytes: Vec<u8>)
    ensures
        bytes@ == spec_utf8(text@),
{
    crate::bytes::copy_bytes(text.as_bytes())
}

} // verus!
