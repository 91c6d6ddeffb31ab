//! What is written on the wire, and in hexadecimal.

use crate::messages::FirstMessage;
use vstd::prelude::*;

verus! {

/// A number below 128 is one byte, itself. A larger one is its lowest seven bits, with the high
/// bit set, and then the rest of it.
pub proof fn law_varint_is_seven_bits_to_a_byte(n: nat)
    ensures
        n < 128 ==> crate::wire::varint(n) == seq![n as u8],
        n >= 128 ==> crate::wire::varint(n)[0] == n % 128 + 128 && crate::wire::varint(
            n,
        ).drop_first() == crate::wire::varint(n / 128),
{
    if n >= 128 {
        assert(crate::wire::varint(n).drop_first() =~= crate::wire::varint(n / 128));
    }
}

/// A byte string is written as its length and then its bytes, a text as its UTF-8 bytes are.
pub proof fn law_fields_are_length_and_bytes(b: Seq<u8>, t: Seq<char>)
    ensures
        crate::wire::read_varint(crate::wire::bytes_field(b)) == Some((b.len(), b)),
        crate::wire::bytes_field(b).len() == crate::wire::varint(b.len()).len() + b.len(),
        crate::wire::text_field(t) == crate::wire::bytes_field(vstd::utf8::encode_utf8(t)),
{
    crate::wire::law_varint_round_trip(b.len(), b);
}

/// What is read as a byte string is a length and that many bytes; nothing is lost of what follows.
/// There is none only if the length cannot be read, is too large, or the bytes are not there.
pub proof fn law_bytes_are_read_by_their_length(s: Seq<u8>)
    ensures
        crate::wire::take_bytes(s) matches Some((b, rest)) ==> crate::wire::read_varint(s) == Some(
            (b.len(), b + rest),
        ) && b.len() <= usize::MAX,
        crate::wire::take_bytes(s) is None ==> match crate::wire::read_varint(s) {
            None => true,
            Some((n, rest)) => n > usize::MAX || s.len() - rest.len() > (usize::BITS + 6) / 7 || n
                > rest.len(),
        },
        crate::wire::take_text(s) matches Some((t, rest)) ==> crate::wire::take_bytes(s) == Some(
            (vstd::utf8::encode_utf8(t), rest),
        ),
        crate::wire::take_text(s) is None ==> match crate::wire::take_bytes(s) {
            None => true,
            Some((b, _)) => !vstd::utf8::valid_utf8(b),
        },
{
    if let Some((b, rest)) = crate::wire::take_bytes(s) {
        let (n, all) = crate::wire::read_varint(s)->0;
        assert(all =~= b + rest);
        if vstd::utf8::valid_utf8(b) {
            vstd::utf8::decode_utf8_encode_utf8(b);
        }
    }
}

/// A varint is read from its first byte below 128 back: that byte is the number, and each byte
/// before it is seven bits below what follows.
pub proof fn law_varint_is_read_bit_by_bit(s: Seq<u8>)
    ensures
        s.len() == 0 ==> crate::wire::read_varint(s) is None,
        s.len() > 0 && s[0] < 128 ==> crate::wire::read_varint(s) == Some(
            (s[0] as nat, s.drop_first()),
        ),
        s.len() > 0 && s[0] >= 128 ==> match crate::wire::read_varint(s.drop_first()) {
            None => crate::wire::read_varint(s) is None,
            Some((n, rest)) => crate::wire::read_varint(s) == Some(
                ((s[0] - 128 + 128 * n) as nat, rest),
            ),
        },
{
}

/// A message of fields is read field by field, whatever follows it, and reading it fails exactly
/// if a field cannot be read.
pub proof fn law_messages_are_their_fields(s: Seq<u8>)
    ensures
        match crate::wire::take_text(s) {
            None => crate::messages::read_text(s) is None && crate::messages::read_ticket(
                s,
            ) is None,
            Some((text, rest)) => crate::messages::read_text(s) == Some(text)
                && match crate::wire::take_bytes(rest) {
                None => crate::messages::read_ticket(s) is None,
                Some((data, _)) => crate::messages::read_ticket(s) == Some((text, data)),
            },
        },
        match crate::wire::take_bytes(s) {
            None => crate::messages::read_bytes(s) is None && crate::messages::read_pair(
                s,
            ) is None,
            Some((first, rest)) => crate::messages::read_bytes(s) == Some(first)
                && match crate::wire::take_bytes(rest) {
                None => crate::messages::read_pair(s) is None,
                Some((second, _)) => crate::messages::read_pair(s) == Some((first, second)),
            },
        },
{
}

/// A ticket is written as its kind and then its data, a pair as the one and then the other, and
/// nothing stands behind them.
pub proof fn law_tickets_are_kind_and_data(
    kind: Seq<char>,
    data: Seq<u8>,
    first: Seq<u8>,
    second: Seq<u8>,
)
    requires
        vstd::utf8::encode_utf8(kind).len() <= usize::MAX,
        first.len() <= usize::MAX,
    ensures
        crate::wire::take_text(crate::messages::ticket_bytes(kind, data)) == Some(
            (kind, crate::wire::bytes_field(data)),
        ),
        crate::wire::take_bytes(crate::messages::pair_bytes(first, second)) == Some(
            (first, crate::wire::bytes_field(second)),
        ),
{
    crate::wire::law_text_round_trip(kind, crate::wire::bytes_field(data));
    crate::wire::law_bytes_round_trip(first, crate::wire::bytes_field(second));
}

/// A request is written as what it asks and its fields.
pub proof fn law_requests_say_what_they_ask(message: FirstMessage)
    ensures
        match message {
            FirstMessage::Create(request) => crate::wire::read_varint(message.bytes()) == Some(
                (0nat, crate::wire::bytes_field(request.pake_message@)),
            ),
            FirstMessage::Redeem(request) => crate::wire::read_varint(message.bytes()) == Some(
                (
                    1nat,
                    crate::wire::text_field(request.header@) + crate::wire::bytes_field(
                        request.pake_message@,
                    ),
                ),
            ),
        },
{
    match message {
        FirstMessage::Create(request) => {
            crate::wire::law_varint_round_trip(
                0,
                crate::wire::bytes_field(request.pake_message@),
            );
        },
        FirstMessage::Redeem(request) => {
            let rest = crate::wire::text_field(request.header@) + crate::wire::bytes_field(
                request.pake_message@,
            );
            assert(message.bytes() =~= crate::wire::varint(1) + rest);
            crate::wire::law_varint_round_trip(1, rest);
        },
    }
}

/// The hexadecimal digits are the usual ones.
pub proof fn law_hex_digits_are_the_usual_ones(n: int)
    requires
        0 <= n < 16,
    ensures
        crate::crypto::hex_digit(n) == "0123456789abcdef"@[n],
{
    reveal_strlit("0123456789abcdef");
    if n < 10 {
        assert(n == 0 || n == 1 || n == 2 || n == 3 || n == 4 || n == 5 || n == 6 || n == 7 || n
            == 8 || n == 9);
    } else {
        assert(n == 10 || n == 11 || n == 12 || n == 13 || n == 14 || n == 15);
    }
}

/// Each byte is two digits, the high one first; and different bytes are different text.
pub proof fn law_hex_is_read_back(a: Seq<u8>, b: Seq<u8>)
    ensures
        crate::crypto::hex_text(a).len() == 2 * a.len(),
        forall|i: int|
            0 <= i < a.len() ==> crate::crypto::hex_text(a)[2 * i] == crate::crypto::hex_digit(
                (#[trigger] a[i]) as int / 16,
            ) && crate::crypto::hex_text(a)[2 * i + 1] == crate::crypto::hex_digit(
                a[i] as int % 16,
            ),
        crate::crypto::hex_text(a) == crate::crypto::hex_text(b) ==> a == b,
{
    let (s, t) = (crate::crypto::hex_text(a), crate::crypto::hex_text(b));
    if s == t {
        assert(s.len() == 2 * a.len() && t.len() == 2 * b.len());
        assert forall|i: int| 0 <= i < a.len() implies a[i] == b[i] by {
            assert(s[2 * i] == t[2 * i] && s[2 * i + 1] == t[2 * i + 1]);
            lemma_hex_digit_injective(a[i] as int / 16, b[i] as int / 16);
            lemma_hex_digit_injective(a[i] as int % 16, b[i] as int % 16);
        }
        assert(a =~= b);
    }
}

proof fn lemma_hex_digit_injective(m: int, n: int)
    requires
        0 <= m < 16,
        0 <= n < 16,
        crate::crypto::hex_digit(m) == crate::crypto::hex_digit(n),
    ensures
        m == n,
{
}

} // verus!
