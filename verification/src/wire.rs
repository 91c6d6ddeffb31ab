//! The wire format of coupon messages.
//!
//! A message is the concatenation of its fields. An unsigned integer is written as a varint:
//! seven bits to a byte, least significant group first, with the high bit set on every byte but
//! the last. Text and byte strings are written as a varint length followed by their bytes.

use vstd::prelude::*;

verus! {

/// The varint that `postcard` writes for `n`.
pub open spec fn varint(n: nat) -> Seq<u8>
    decreases n,
{
    if n < 128 {
        seq![n as u8]
    } else {
        seq![(n % 128 + 128) as u8] + varint(n / 128)
    }
}

/// The number at the front of `s`, and what stands behind it; `None` if no byte of `s` ends a
/// varint.
pub open spec fn read_varint(s: Seq<u8>) -> Option<(nat, Seq<u8>)>
    decreases s.len(),
{
    if s.len() == 0 {
        None
    } else if s[0] < 128 {
        Some((s[0] as nat, s.drop_first()))
    } else {
        match read_varint(s.drop_first()) {
            Some((high, rest)) => Some(((s[0] - 128 + 128 * high) as nat, rest)),
            None => None,
        }
    }
}

/// The length at the front of `s`: a varint that takes no more bytes than a `usize` can need and
/// whose value fits in a `usize`.
pub open spec fn read_len(s: Seq<u8>) -> Option<(nat, Seq<u8>)> {
    match read_varint(s) {
        Some((n, rest)) => if n <= usize::MAX && s.len() - rest.len() <= (usize::BITS + 6) / 7 {
            Some((n, rest))
        } else {
            None
        },
        None => None,
    }
}

/// A byte string as a field.
pub open spec fn bytes_field(b: Seq<u8>) -> Seq<u8> {
    varint(b.len()) + b
}

/// A text as a field.
pub open spec fn text_field(t: Seq<char>) -> Seq<u8> {
    bytes_field(vstd::utf8::encode_utf8(t))
}

/// The byte string field at the front of `s`, and what stands behind it.
pub open spec fn take_bytes(s: Seq<u8>) -> Option<(Seq<u8>, Seq<u8>)> {
    match read_len(s) {
        Some((n, rest)) => if n <= rest.len() {
            Some((rest.take(n as int), rest.skip(n as int)))
        } else {
            None
        },
        None => None,
    }
}

/// The text field at the front of `s`, and what stands behind it.
pub open spec fn take_text(s: Seq<u8>) -> Option<(Seq<char>, Seq<u8>)> {
    match take_bytes(s) {
        Some((b, rest)) => if vstd::utf8::valid_utf8(b) {
            Some((vstd::utf8::decode_utf8(b), rest))
        } else {
            None
        },
        None => None,
    }
}

/// `postcard`'s own error, carried through unread.
#[verifier::external_type_specification]
#[verifier::external_body]
pub struct ExWireError(postcard::Error);

/// `postcard::to_stdvec` on a `u64`: it never fails, and writes the varint of the number.
#[verifier::external_body]
pub(crate) fn encode_u64(value: u64) -> (r: Result<Vec<u8>, postcard::Error>)
    ensures
        r is Ok,
        r->Ok_0@ == varint(value as nat),
{
    postcard::to_stdvec(&value)
}

/// `postcard::to_stdvec` on a `str`: it never fails, and writes the length in bytes as a varint,
/// then the UTF-8 bytes.
#[verifier::external_body]
pub(crate) fn encode_text(text: &str) -> (r: Result<Vec<u8>, postcard::Error>)
    ensures
        r is Ok,
        r->Ok_0@ == text_field(text@),
{
    postcard::to_stdvec(text)
}

/// `postcard::to_stdvec` on a byte slice: it never fails, and writes the length as a varint, then
/// the bytes.
#[verifier::external_body]
pub(crate) fn encode_bytes(bytes: &[u8]) -> (r: Result<Vec<u8>, postcard::Error>)
    ensures
        r is Ok,
        r->Ok_0@ == bytes_field(bytes@),
{
    postcard::to_stdvec(bytes)
}

/// `postcard::take_from_bytes` on a `String`: it reads a length and that many bytes, which must
/// be there and be UTF-8, and hands back what follows them.
#[verifier::external_body]
pub(crate) fn decode_text(bytes: &[u8]) -> (r: Result<(String, &[u8]), postcard::Error>)
    ensures
        r is Ok <==> take_text(bytes@) is Some,
        r matches Ok(p) ==> take_text(bytes@) == Some((p.0@, p.1@)),
{
    postcard::take_from_bytes(bytes)
}

/// `postcard::take_from_bytes` on a `Vec<u8>`: it reads a length and that many bytes, which must
/// be there, and hands back what follows them.
#[verifier::external_body]
pub(crate) fn decode_bytes(bytes: &[u8]) -> (r: Result<(Vec<u8>, &[u8]), postcard::Error>)
    ensures
        r is Ok <==> take_bytes(bytes@) is Some,
        r matches Ok(p) ==> take_bytes(bytes@) == Some((p.0@, p.1@)),
{
    postcard::take_from_bytes(bytes)
}

/// Reading a varint gives back the number that was written, whatever follows it.
pub proof fn law_varint_round_trip(n: nat, rest: Seq<u8>)
    ensures
        read_varint(varint(n) + rest) == Some((n, rest)),
    decreases n,
{
    let s = varint(n) + rest;
    if n < 128 {
        assert(s.drop_first() =~= rest);
    } else {
        assert(s.drop_first() =~= varint(n / 128) + rest);
        law_varint_round_trip(n / 128, rest);
    }
}

proof fn lemma_varint_len(n: nat, k: nat)
    requires
        n < vstd::arithmetic::power::pow(128, k),
        k > 0,
    ensures
        varint(n).len() <= k,
    decreases k,
{
    reveal(vstd::arithmetic::power::pow);
    if n >= 128 {
        if k == 1 {
            assert(vstd::arithmetic::power::pow(128, 0) == 1);
        } else {
            let p = vstd::arithmetic::power::pow(128, (k - 1) as nat);
            assert(n < 128 * p);
            assert(n / 128 < p);
            lemma_varint_len(n / 128, (k - 1) as nat);
        }
    }
}

proof fn lemma_length_fits(n: nat)
    requires
        n <= usize::MAX,
    ensures
        varint(n).len() <= (usize::BITS + 6) / 7,
{
    reveal(vstd::arithmetic::power::pow);
    reveal_with_fuel(vstd::arithmetic::power::pow, 11);
    if usize::BITS == 32 {
        assert(vstd::arithmetic::power::pow(128, 5) == 0x8_0000_0000);
        lemma_varint_len(n, 5);
    } else {
        assert(vstd::arithmetic::power::pow(128, 10) == 0x40_0000_0000_0000_0000);
        lemma_varint_len(n, 10);
    }
}

/// Reading a byte string field gives back the bytes that were written, whatever follows them.
pub proof fn law_bytes_round_trip(b: Seq<u8>, rest: Seq<u8>)
    requires
        b.len() <= usize::MAX,
    ensures
        take_bytes(bytes_field(b) + rest) == Some((b, rest)),
{
    let s = bytes_field(b) + rest;
    assert(s =~= varint(b.len()) + (b + rest));
    law_varint_round_trip(b.len(), b + rest);
    lemma_length_fits(b.len());
    assert((b + rest).take(b.len() as int) =~= b);
    assert((b + rest).skip(b.len() as int) =~= rest);
}

/// Reading a text field gives back the text that was written, whatever follows it.
pub proof fn law_text_round_trip(t: Seq<char>, rest: Seq<u8>)
    requires
        vstd::utf8::encode_utf8(t).len() <= usize::MAX,
    ensures
        take_text(text_field(t) + rest) == Some((t, rest)),
{
    law_bytes_round_trip(vstd::utf8::encode_utf8(t), rest);
    vstd::utf8::encode_utf8_valid_utf8(t);
    vstd::utf8::encode_utf8_decode_utf8(t);
}

} // verus!
