//! The messages that pass between a client and the coupon machine, and their bytes.

use crate::wire::{decode_bytes, decode_text, encode_bytes, encode_text, encode_u64};
use vstd::prelude::*;

verus! {

/// The version of the protocol that this library speaks.
pub const CURRENT_PROTO: u64 = 0;

/// The first thing that a client sends: its realm, its protocol version and its request.
#[derive(Clone, Debug)]
pub struct Hello {
    pub realm: String,
    pub proto: u64,
    pub message: Vec<u8>,
}

/// The request inside a `Hello`.
#[derive(Clone, Debug)]
pub enum FirstMessage {
    Create(CouponCreateRequest),
    Redeem(CouponRedeemStartRequest),
}

/// Asks for a new coupon.
#[derive(Clone, Debug)]
pub struct CouponCreateRequest {
    pub pake_message: Vec<u8>,
}

/// Names the header of a new coupon.
#[derive(Clone, Debug)]
pub struct CouponCreateResponse {
    pub header: String,
}

/// Tells the provider that someone redeems its coupon.
#[derive(Clone, Debug)]
pub struct CouponRedeemStartedNotice {
    pub pake_message: Vec<u8>,
}

/// Carries the provider's sealed ticket.
#[derive(Clone, Debug)]
pub struct CouponRedeemStartedResponse {
    pub data_message: Vec<u8>,
}

/// Brings the requester's sealed node id to the provider.
#[derive(Clone, Debug)]
pub struct CouponRedeemFinishedNotice {
    pub data_message: Vec<u8>,
}

/// Asks to redeem the coupon with a given header.
#[derive(Clone, Debug)]
pub struct CouponRedeemStartRequest {
    pub header: String,
    pub pake_message: Vec<u8>,
}

/// Brings the provider's message and sealed ticket to the requester.
#[derive(Clone, Debug)]
pub struct CouponRedeemStartResponse {
    pub pake_message: Vec<u8>,
    pub data_message: Vec<u8>,
}

/// Carries the requester's sealed node id.
#[derive(Clone, Debug)]
pub struct CouponRedeemFinishRequest {
    pub data_message: Vec<u8>,
}

/// A ticket of some kind, as bytes.
#[derive(Clone, Debug)]
pub struct CompactTicket {
    pub kind: String,
    pub data: Vec<u8>,
}

/// The bytes of a `Hello`.
pub open spec fn hello_bytes(realm: Seq<char>, proto: u64, message: Seq<u8>) -> Seq<u8> {
    crate::wire::text_field(realm) + crate::wire::varint(proto as nat) + crate::wire::bytes_field(
        message,
    )
}

/// The bytes of a request to create a coupon.
pub open spec fn create_bytes(pake_message: Seq<u8>) -> Seq<u8> {
    crate::wire::varint(0) + crate::wire::bytes_field(pake_message)
}

/// The bytes of a request to redeem a coupon.
pub open spec fn redeem_bytes(header: Seq<char>, pake_message: Seq<u8>) -> Seq<u8> {
    crate::wire::varint(1) + crate::wire::text_field(header) + crate::wire::bytes_field(
        pake_message,
    )
}

/// The bytes of a message with two byte strings.
pub open spec fn pair_bytes(pake_message: Seq<u8>, data_message: Seq<u8>) -> Seq<u8> {
    crate::wire::bytes_field(pake_message) + crate::wire::bytes_field(data_message)
}

/// The bytes of a ticket.
pub open spec fn ticket_bytes(kind: Seq<char>, data: Seq<u8>) -> Seq<u8> {
    crate::wire::text_field(kind) + crate::wire::bytes_field(data)
}

/// The only text field of a message.
pub open spec fn read_text(bytes: Seq<u8>) -> Option<Seq<char>> {
    match crate::wire::take_text(bytes) {
        Some((text, _)) => Some(text),
        None => None,
    }
}

/// The only byte string field of a message.
pub open spec fn read_bytes(bytes: Seq<u8>) -> Option<Seq<u8>> {
    match crate::wire::take_bytes(bytes) {
        Some((field, _)) => Some(field),
        None => None,
    }
}

/// The two byte string fields of a message.
pub open spec fn read_pair(bytes: Seq<u8>) -> Option<(Seq<u8>, Seq<u8>)> {
    match crate::wire::take_bytes(bytes) {
        Some((first, rest)) => match read_bytes(rest) {
            Some(second) => Some((first, second)),
            None => None,
        },
        None => None,
    }
}

/// The kind and the data of a ticket.
pub open spec fn read_ticket(bytes: Seq<u8>) -> Option<(Seq<char>, Seq<u8>)> {
    match crate::wire::take_text(bytes) {
        Some((kind, rest)) => match read_bytes(rest) {
            Some(data) => Some((kind, data)),
            None => None,
        },
        None => None,
    }
}

impl Hello {
    /// The bytes of the message.
    pub fn to_bytes(&self) -> (r: Vec<u8>)
        ensures
            r@ == hello_bytes(self.realm@, self.proto, self.message@),
    {
        let mut r = encode_text(self.realm.as_str()).unwrap();
        r.append(&mut encode_u64(self.proto).unwrap());
        r.append(&mut encode_bytes(self.message.as_slice()).unwrap());
        r
    }
}

impl FirstMessage {
    /// The bytes of the message as the contracts speak of them.
    pub open spec fn bytes(&self) -> Seq<u8> {
        match self {
            FirstMessage::Create(request) => create_bytes(request.pake_message@),
            FirstMessage::Redeem(request) => redeem_bytes(
                request.header@,
                request.pake_message@,
            ),
        }
    }

    /// The bytes of the message.
    pub fn to_bytes(&self) -> (r: Vec<u8>)
        ensures
            r@ == self.bytes(),
    {
        match self {
            FirstMessage::Create(request) => {
                let mut r = encode_u64(0).unwrap();
                r.append(&mut encode_bytes(request.pake_message.as_slice()).unwrap());
                r
            },
            FirstMessage::Redeem(request) => {
                let mut r = encode_u64(1).unwrap();
                r.append(&mut encode_text(request.header.as_str()).unwrap());
                r.append(&mut encode_bytes(request.pake_message.as_slice()).unwrap());
                r
            },
        }
    }
}

impl CouponCreateResponse {
    /// Reads the message; what follows it is left alone.
    pub fn from_bytes(bytes: &[u8]) -> (r: Result<Self, postcard::Error>)
        ensures
            r is Ok <==> read_text(bytes@) is Some,
            r matches Ok(m) ==> read_text(bytes@) == Some(m.header@),
    {
        match decode_text(bytes) {
            Ok((header, _)) => Ok(CouponCreateResponse { header }),
            Err(e) => Err(e),
        }
    }
}

impl CouponRedeemStartedNotice {
    /// Reads the message; what follows it is left alone.
    pub fn from_bytes(bytes: &[u8]) -> (r: Result<Self, postcard::Error>)
        ensures
            r is Ok <==> read_bytes(bytes@) is Some,
            r matches Ok(m) ==> read_bytes(bytes@) == Some(m.pake_message@),
    {
        match decode_bytes(bytes) {
            Ok((pake_message, _)) => Ok(CouponRedeemStartedNotice { pake_message }),
            Err(e) => Err(e),
        }
    }
}

impl CouponRedeemFinishedNotice {
    /// Reads the message; what follows it is left alone.
    pub fn from_bytes(bytes: &[u8]) -> (r: Result<Self, postcard::Error>)
        ensures
            r is Ok <==> read_bytes(bytes@) is Some,
            r matches Ok(m) ==> read_bytes(bytes@) == Some(m.data_message@),
    {
        match decode_bytes(bytes) {
            Ok((data_message, _)) => Ok(CouponRedeemFinishedNotice { data_message }),
            Err(e) => Err(e),
        }
    }
}

impl CouponRedeemStartResponse {
    /// Reads the message; what follows it is left alone.
    pub fn from_bytes(bytes: &[u8]) -> (r: Result<Self, postcard::Error>)
        ensures
            r is Ok <==> read_pair(bytes@) is Some,
            r matches Ok(m) ==> read_pair(bytes@) == Some((m.pake_message@, m.data_message@)),
    {
        match decode_bytes(bytes) {
            Ok((pake_message, rest)) => match decode_bytes(rest) {
                Ok((data_message, _)) => Ok(
                    CouponRedeemStartResponse { pake_message, data_message },
                ),
                Err(e) => Err(e),
            },
            Err(e) => Err(e),
        }
    }
}

impl CouponRedeemStartedResponse {
    /// The bytes of the message.
    pub fn to_bytes(&self) -> (r: Vec<u8>)
        ensures
            r@ == crate::wire::bytes_field(self.data_message@),
    {
        encode_bytes(self.data_message.as_slice()).unwrap()
    }
}

impl CouponRedeemFinishRequest {
    /// The bytes of the message.
    pub fn to_bytes(&self) -> (r: Vec<u8>)
        ensures
            r@ == crate::wire::bytes_field(self.data_message@),
    {
        encode_bytes(self.data_message.as_slice()).unwrap()
    }
}

impl CompactTicket {
    /// The bytes of the ticket.
    pub fn to_bytes(&self) -> (r: Vec<u8>)
        ensures
            r@ == ticket_bytes(self.kind@, self.data@),
    {
        let mut r = encode_text(self.kind.as_str()).unwrap();
        r.append(&mut encode_bytes(self.data.as_slice()).unwrap());
        r
    }

    /// Reads a ticket; what follows it is left alone.
    pub fn from_bytes(bytes: &[u8]) -> (r: Result<Self, postcard::Error>)
        ensures
            r is Ok <==> read_ticket(bytes@) is Some,
            r matches Ok(t) ==> read_ticket(bytes@) == Some((t.kind@, t.data@)),
    {
        match decode_text(bytes) {
            Ok((kind, rest)) => match decode_bytes(rest) {
                Ok((data, _)) => Ok(CompactTicket { kind, data }),
                Err(e) => Err(e),
            },
            Err(e) => Err(e),
        }
    }
}

/// A message of one text field reads back as it was written.
pub proof fn law_read_text(text: Seq<char>)
    requires
        vstd::utf8::encode_utf8(text).len() <= usize::MAX,
    ensures
        read_text(crate::wire::text_field(text)) == Some(text),
{
    let field = crate::wire::text_field(text);
    assert(field + seq![] =~= field);
    crate::wire::law_text_round_trip(text, seq![]);
}

/// A message of one byte string field reads back as it was written.
pub proof fn law_read_bytes(bytes: Seq<u8>)
    requires
        bytes.len() <= usize::MAX,
    ensures
        read_bytes(crate::wire::bytes_field(bytes)) == Some(bytes),
{
    let field = crate::wire::bytes_field(bytes);
    assert(field + seq![] =~= field);
    crate::wire::law_bytes_round_trip(bytes, seq![]);
}

/// A message of two byte string fields reads back as it was written.
pub proof fn law_read_pair(first: Seq<u8>, second: Seq<u8>)
    requires
        first.len() <= usize::MAX,
        second.len() <= usize::MAX,
    ensures
        read_pair(pair_bytes(first, second)) == Some((first, second)),
{
    crate::wire::law_bytes_round_trip(first, crate::wire::bytes_field(second));
    law_read_bytes(second);
}

/// A ticket reads back as it was written.
pub proof fn law_read_ticket(kind: Seq<char>, data: Seq<u8>)
    requires
        vstd::utf8::encode_utf8(kind).len() <= usize::MAX,
        data.len() <= usize::MAX,
    ensures
        read_ticket(ticket_bytes(kind, data)) == Some((kind, data)),
{
    crate::wire::law_text_round_trip(kind, crate::wire::bytes_field(data));
    law_read_bytes(data);
}

/// A reader of a `Hello` finds the realm, the protocol version and the request, in that order,
/// and nothing behind them.
pub proof fn law_hello_reads_back(realm: Seq<char>, proto: u64, message: Seq<u8>)
    requires
        vstd::utf8::encode_utf8(realm).len() <= usize::MAX,
        message.len() <= usize::MAX,
    ensures
        crate::wire::take_text(hello_bytes(realm, proto, message)) matches Some((first, rest))
            && first == realm && (crate::wire::read_varint(rest) matches Some((second, tail))
            && second == proto && crate::wire::take_bytes(tail) == Some(
            (message, Seq::<u8>::empty()),
        )),
{
    let tail = crate::wire::bytes_field(message);
    let rest = crate::wire::varint(proto as nat) + tail;
    assert(hello_bytes(realm, proto, message) =~= crate::wire::text_field(realm) + rest);
    crate::wire::law_text_round_trip(realm, rest);
    crate::wire::law_varint_round_trip(proto as nat, tail);
    assert(tail + Seq::<u8>::empty() =~= tail);
    crate::wire::law_bytes_round_trip(message, Seq::empty());
}

/// A reader of a request finds which request it is, then its fields, and nothing behind them: a
/// request to create is never taken for one to redeem.
pub proof fn law_request_reads_back(header: Seq<char>, pake_message: Seq<u8>)
    requires
        vstd::utf8::encode_utf8(header).len() <= usize::MAX,
        pake_message.len() <= usize::MAX,
    ensures
        crate::wire::read_varint(create_bytes(pake_message)) matches Some((which, rest)) && which
            == 0 && crate::wire::take_bytes(rest) == Some((pake_message, Seq::<u8>::empty())),
        crate::wire::read_varint(redeem_bytes(header, pake_message)) matches Some((which, rest))
            && which == 1 && (crate::wire::take_text(rest) matches Some((first, tail)) && first
            == header && crate::wire::take_bytes(tail) == Some((pake_message, Seq::<u8>::empty()))),
{
    let tail = crate::wire::bytes_field(pake_message);
    let rest = crate::wire::text_field(header) + tail;
    crate::wire::law_varint_round_trip(0, tail);
    assert(redeem_bytes(header, pake_message) =~= crate::wire::varint(1) + rest);
    crate::wire::law_varint_round_trip(1, rest);
    crate::wire::law_text_round_trip(header, tail);
    assert(tail + Seq::<u8>::empty() =~= tail);
    crate::wire::law_bytes_round_trip(pake_message, Seq::empty());
}

} // verus!
