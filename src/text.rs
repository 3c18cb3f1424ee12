//! Text over bytes: UTF-8 decoding, form encoding and comparison of strings.

use std::collections::HashMap;
use vstd::prelude::*;
use vstd::utf8::{decode_utf8, encode_utf8, valid_utf8};

verus! {

/// Relies on `<str as PartialEq>::eq`: two strings are equal exactly when they
/// hold the same characters.
#[verifier::external_body]
pub(crate) fn str_eq(a: &str, b: &str) -> (r: bool)
    ensures
        r == (a@ == b@),
{
    a == b
}

/// Relies on `std::str::from_utf8`: the bytes are accepted exactly when they
/// are valid UTF-8, and then read as the characters they encode.
#[verifier::external_body]
pub(crate) fn utf8_text(b: &[u8]) -> (r: Option<&str>)
    ensures
        r is Some <==> valid_utf8(b@),
        r matches Some(s) ==> s@ == decode_utf8(b@),
{
    std::str::from_utf8(b).ok()
}

/// A byte that form encoding writes as itself: an ASCII letter or digit, or
/// one of `*`, `-`, `.` and `_`.
pub open spec fn form_keeps(b: u8) -> bool {
    b == 0x2a || b == 0x2d || b == 0x2e || (0x30 <= b <= 0x39) || (0x41 <= b <= 0x5a) || b == 0x5f
        || (0x61 <= b <= 0x7a)
}

/// The upper-case hexadecimal digit of a value below 16.
pub open spec fn hex_upper(n: u8) -> char {
    seq!['0', '1', '2', '3', '4', '5', '6', '7', '8', '9', 'A', 'B', 'C', 'D', 'E', 'F'][n as int]
}

/// How form encoding writes one byte: kept as is, a space as `+`, any other
/// byte as `%` and two upper-case hexadecimal digits.
pub open spec fn form_byte(b: u8) -> Seq<char> {
    if form_keeps(b) {
        seq![b as char]
    } else if b == 0x20 {
        seq!['+']
    } else {
        seq!['%', hex_upper(b / 16), hex_upper(b % 16)]
    }
}

/// The `application/x-www-form-urlencoded` form of a byte sequence.
pub open spec fn form_bytes(bytes: Seq<u8>) -> Seq<char>
    decreases bytes.len(),
{
    if bytes.len() == 0 {
        Seq::empty()
    } else {
        form_bytes(bytes.drop_last()) + form_byte(bytes.last())
    }
}

/// The form-encoded form of a text: its UTF-8 bytes, encoded.
pub open spec fn form_encoded(s: Seq<char>) -> Seq<char> {
    form_bytes(encode_utf8(s))
}

/// Relies on `url::form_urlencoded::byte_serialize` on the UTF-8 bytes of `s`:
/// the byte serializer of the `application/x-www-form-urlencoded` format.
#[verifier::external_body]
pub(crate) fn form_encode(s: &str) -> (r: String)
    ensures
        r@ == form_encoded(s@),
{
    url::form_urlencoded::byte_serialize(s.as_bytes()).collect::<String>()
}

/// A decimal digit.
pub open spec fn digit(n: nat) -> char {
    seq!['0', '1', '2', '3', '4', '5', '6', '7', '8', '9'][(n % 10) as int]
}

/// The decimal form of a natural number, without leading zeros.
pub open spec fn decimal(n: nat) -> Seq<char>
    decreases n,
{
    if n < 10 {
        seq![digit(n)]
    } else {
        decimal(n / 10) + seq![digit(n)]
    }
}

/// Relies on `<usize as ToString>::to_string`: the decimal form of the number.
#[verifier::external_body]
pub(crate) fn usize_text(n: usize) -> (r: String)
    ensures
        r@ == decimal(n as nat),
{
    n.to_string()
}

/// `m` holds exactly the pairs of `pairs`.
pub open spec fn holds_exactly<'a>(m: Map<&'a str, &'a str>, pairs: Seq<(&'a str, &'a str)>) -> bool {
    &&& forall|k: &str| #[trigger] m.contains_key(k) <==> exists|i: int| 0 <= i < pairs.len() && (#[trigger] pairs[i]).0 == k
    &&& forall|i: int| 0 <= i < pairs.len() ==> m[(#[trigger] pairs[i]).0] == pairs[i].1
}

/// Relies on collecting pairs into a `std::collections::HashMap`: with no two
/// names alike, the map holds exactly the given pairs.
#[verifier::external_body]
pub(crate) fn map_of<'a>(pairs: Vec<(&'a str, &'a str)>) -> (r: HashMap<&'a str, &'a str>)
    requires
        forall|i: int, j: int|
            0 <= i < j < pairs.len() ==> (#[trigger] pairs@[i]).0@ != (#[trigger] pairs@[j]).0@,
    ensures
        holds_exactly(r@, pairs@),
{
    pairs.into_iter().collect()
}

} // verus!
