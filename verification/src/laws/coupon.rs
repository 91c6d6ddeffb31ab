//! What the exchange of a coupon is for.

use crate::coupon::{
    CouponError, Failure, Incoming, ProvideAction, ProvideEvent, ProvideState, ProviderDoes,
    ProviderHears, Providing, ReceiveAction, ReceiveEvent, ReceiveState, Receiving, RequesterDoes,
    RequesterHears, ServerMessage,
};
use crate::crypto::PakeStart;
use vstd::prelude::*;

verus! {

/// The key that a shared secret gives for a label.
pub open spec fn key_for(secret: Seq<u8>, label: Seq<char>) -> Seq<u8> {
    crate::crypto::hkdf_blake3(secret, vstd::utf8::encode_utf8(label), 32)
}

/// The nonce of every sealed message.
pub open spec fn only_nonce() -> Seq<u8> {
    vstd::utf8::encode_utf8("niko oneshot"@)
}

/// The two sides seal under different labels, which both know.
pub proof fn law_keys_are_labelled(secret: Seq<u8>, label: Seq<char>)
    ensures
        crate::coupon::labelled_key(secret, label) == key_for(secret, label),
        crate::coupon::provider_key(secret) == key_for(secret, "provider key"@),
        crate::coupon::requester_key(secret) == key_for(secret, "requester key"@),
        crate::coupon::nonce() == only_nonce(),
        "provider key"@ != "requester key"@,
{
    reveal_strlit("provider key");
    reveal_strlit("requester key");
    assert("provider key"@.len() != "requester key"@.len());
}

/// A provider and a requester who begin for the same realm and coupon machine, the requester with
/// the header and the password that it read out of the coupon, take part in one exchange; and what
/// each sends first says its realm, the version and what it asks: for a coupon, or to redeem the
/// one with that header, each with its own message.
pub proof fn law_both_sides_begin_one_exchange(
    realm: Seq<char>,
    url: Seq<char>,
    header: Seq<char>,
    password: Seq<char>,
    a: PakeStart,
    asked: Seq<u8>,
    b: PakeStart,
    redeemed: Seq<u8>,
)
    requires
        crate::coupon::provider_begins(realm, url, password, a, asked),
        crate::coupon::requester_begins(realm, url, header, password, b, redeemed),
    ensures
        a.side_a && !b.side_a,
        a.password == vstd::utf8::encode_utf8(password) && b.password == a.password,
        a.id_a == vstd::utf8::encode_utf8(realm) && b.id_a == a.id_a,
        a.id_b == vstd::utf8::encode_utf8(url) && b.id_b == a.id_b,
        from_side(0x41, a.message) && from_side(0x42, b.message),
        crate::crypto::pake_secret(a, b.message) matches Some(secret)
            && crate::crypto::pake_secret(b, a.message) == Some(secret) && (!header.contains('-')
            ==> crate::coupon::one_exchange(header, password, a, b, secret)),
        asked == crate::wire::text_field(realm) + seq![0u8] + crate::wire::bytes_field(
            seq![0u8] + crate::wire::bytes_field(a.message),
        ),
        redeemed == crate::wire::text_field(realm) + seq![0u8] + crate::wire::bytes_field(
            seq![1u8] + crate::wire::text_field(header) + crate::wire::bytes_field(b.message),
        ),
{
    if !header.contains('-') {
        crate::coupon::law_coupon_reads_back(header, password);
    }
    assert(crate::wire::varint(0) =~= seq![0u8]);
    assert(crate::wire::varint(1) =~= seq![1u8]);
}

/// What the user is told of an exchange that failed.
pub proof fn law_failed_exchange_is_told_in_words(reason: Seq<char>)
    ensures
        crate::coupon::coupon_words(Failure::Closed) == Some("Unexpected connection close"@),
        crate::coupon::coupon_words(Failure::Server(reason)) == Some(
            "Server returned error: "@ + reason,
        ),
        crate::coupon::coupon_words(Failure::BadTicketKind) == Some("Bad ticket kind"@),
        crate::coupon::coupon_words(Failure::InvalidCoupon) == Some("Invalid coupon!"@),
        crate::coupon::coupon_words(Failure::OutOfOrder) == Some("Unexpected event"@),
        crate::coupon::coupon_words(Failure::Malformed) is None,
        crate::coupon::coupon_words(Failure::Pake) is None,
        crate::coupon::coupon_words(Failure::Cipher) is None,
{
}

/// Whatever header the coupon machine gives, the provider shows the coupon made of it and the
/// password, and waits with what it was started with. An answer without a header ends the
/// exchange.
pub proof fn law_provider_shows_the_coupon(
    start: PakeStart,
    password: Seq<char>,
    bytes: Seq<u8>,
)
    ensures
        match crate::messages::read_text(bytes) {
            Some(header) => provide_step(
                Providing::AwaitCreated { start, password },
                bytes,
            ) == (
                Providing::AwaitRedeem { start },
                ProviderDoes::ShowCoupon(header + seq!['-'] + password),
            ),
            None => provide_step(Providing::AwaitCreated { start, password }, bytes) == (
                Providing::Ended,
                ProviderDoes::Fail(Failure::Malformed),
            ),
        },
{
    reveal_strlit("-");
    assert("-"@ =~= seq!['-']);
}

/// A step of the provider on bytes that came.
pub open spec fn provide_step(state: Providing, bytes: Seq<u8>) -> (Providing, ProviderDoes) {
    crate::coupon::provide_next(state, ProviderHears::Message(Incoming::Data(bytes)))
}

/// A step of the requester on bytes that came.
pub open spec fn receive_step(state: Receiving, bytes: Seq<u8>) -> (Receiving, RequesterDoes) {
    crate::coupon::receive_next(state, RequesterHears::Message(Incoming::Data(bytes)))
}

/// Whether these are the bytes of a message from the side that this byte marks.
pub open spec fn from_side(side: u8, message: Seq<u8>) -> bool {
    message.len() == 33 && message[0] == side && crate::crypto::pake_point(message)
}

/// Each side makes a secret of every message of the other side, and of nothing else: the key that
/// the password, the identities and the two messages give, the provider's message first.
pub proof fn law_secret_is_the_key_of_both_messages(start: PakeStart, message: Seq<u8>)
    ensures
        crate::crypto::pake_secret(start, message) is Some <==> from_side(
            if start.side_a {
                0x42u8
            } else {
                0x41u8
            },
            message,
        ),
        crate::crypto::pake_secret(start, message) matches Some(secret) ==> secret
            == if start.side_a {
            crate::crypto::pake_key(
                start.password,
                start.id_a,
                start.id_b,
                start.message,
                message,
            )
        } else {
            crate::crypto::pake_key(
                start.password,
                start.id_a,
                start.id_b,
                message,
                start.message,
            )
        },
{
}

/// Whoever redeems the coupon with a message of the other side, the provider goes on to the
/// ticket with the secret that the message gives. Anything else ends the exchange.
pub proof fn law_provider_goes_on_with_the_secret(start: PakeStart, bytes: Seq<u8>)
    ensures
        match crate::messages::read_bytes(bytes) {
            None => provide_step(Providing::AwaitRedeem { start }, bytes) == (
                Providing::Ended,
                ProviderDoes::Fail(Failure::Malformed),
            ),
            Some(message) => match crate::crypto::pake_secret(start, message) {
                Some(secret) => provide_step(Providing::AwaitRedeem { start }, bytes) == (
                    Providing::AwaitTicket { secret },
                    ProviderDoes::GetTicket,
                ),
                None => provide_step(Providing::AwaitRedeem { start }, bytes) == (
                    Providing::Ended,
                    ProviderDoes::Fail(Failure::Pake),
                ),
            },
        },
{
}

/// Every ticket that is not too long for the cipher is sent, whatever its kind and its length: it
/// is sealed under the provider's key, and the provider goes on waiting with the same secret. What
/// is sent reads back as what was sealed, if it can be that long at all. Only a ticket that is too
/// long ends the exchange.
pub proof fn law_provider_sends_the_ticket(secret: Seq<u8>, kind: Seq<char>, data: Seq<u8>)
    ensures
        ({
            let plain = crate::messages::ticket_bytes(kind, data);
            let sealed = crate::crypto::aead_seal(
                key_for(secret, "provider key"@),
                only_nonce(),
                plain,
            );
            let step = crate::coupon::provide_next(
                Providing::AwaitTicket { secret },
                ProviderHears::Ticket { kind, data },
            );
            &&& plain.len() / 64 < u32::MAX ==> step.0 == (Providing::AwaitFinish { secret })
            &&& plain.len() / 64 < u32::MAX ==> (step.1 matches ProviderDoes::Send(sent) && sent
                == crate::wire::bytes_field(sealed) && (sealed.len() <= usize::MAX
                ==> crate::messages::read_bytes(sent) == Some(sealed)))
            &&& plain.len() / 64 >= u32::MAX ==> step == (
                Providing::Ended,
                ProviderDoes::Fail(Failure::Cipher),
            )
        }),
{
    let sealed = crate::crypto::aead_seal(
        key_for(secret, "provider key"@),
        only_nonce(),
        crate::messages::ticket_bytes(kind, data),
    );
    if sealed.len() <= usize::MAX {
        crate::messages::law_read_bytes(sealed);
    }
}

/// A message reads as the id of a node exactly if it begins with the 32 bytes of a key, and those
/// are the id.
pub proof fn law_node_id_is_the_first_bytes(bytes: Seq<u8>)
    ensures
        crate::crypto::read_node_id(bytes) == if bytes.len() >= 32 && crate::crypto::node_key(
            bytes.take(32),
        ) {
            Some(bytes.take(32))
        } else {
            None
        },
{
}

/// The provider ends with the id of the node that redeemed the coupon, if the message opens under
/// the requester's key to the id of a node; and in no other way.
pub proof fn law_provider_learns_the_redeemer(secret: Seq<u8>, bytes: Seq<u8>)
    ensures
        match crate::messages::read_bytes(bytes) {
            None => provide_step(Providing::AwaitFinish { secret }, bytes) == (
                Providing::Ended,
                ProviderDoes::Fail(Failure::Malformed),
            ),
            Some(sealed) => match crate::crypto::aead_open(
                key_for(secret, "requester key"@),
                only_nonce(),
                sealed,
            ) {
                None => provide_step(Providing::AwaitFinish { secret }, bytes) == (
                    Providing::Ended,
                    ProviderDoes::Fail(Failure::Cipher),
                ),
                Some(plain) => provide_step(Providing::AwaitFinish { secret }, bytes) == (
                    Providing::Ended,
                    if plain.len() >= 32 && crate::crypto::node_key(plain.take(32)) {
                        ProviderDoes::Done(plain.take(32))
                    } else {
                        ProviderDoes::Fail(Failure::Malformed)
                    },
                ),
            },
        },
{
}

/// The requester is handed the data of every ticket of the kind that it wants, whatever its
/// length, if the message of the provider opens under the provider's key; it goes on with the
/// secret and its own id. A ticket of another kind, and anything that is not a ticket, ends the
/// exchange.
pub proof fn law_requester_takes_the_ticket(
    start: PakeStart,
    kind: Seq<char>,
    node_id: Seq<u8>,
    bytes: Seq<u8>,
)
    ensures
        ({
            let step = receive_step(Receiving::AwaitReply { start, kind, node_id }, bytes);
            let fails = |why: Failure| (Receiving::Ended, RequesterDoes::Fail(why));
            match crate::messages::read_pair(bytes) {
                None => step == fails(Failure::Malformed),
                Some((message, sealed)) => match crate::crypto::pake_secret(start, message) {
                    None => step == fails(Failure::Pake),
                    Some(secret) => match crate::crypto::aead_open(
                        key_for(secret, "provider key"@),
                        only_nonce(),
                        sealed,
                    ) {
                        None => step == fails(Failure::Cipher),
                        Some(plain) => match crate::messages::read_ticket(plain) {
                            None => step == fails(Failure::Malformed),
                            Some((has, data)) => if has == kind {
                                step == (
                                    Receiving::AwaitParsed { secret, node_id },
                                    RequesterDoes::ParseTicket(data),
                                )
                            } else {
                                step == fails(Failure::BadTicketKind)
                            },
                        },
                    },
                },
            }
        }),
{
}

/// Once the ticket is read, the requester sends its id, sealed under its own key, and is done.
pub proof fn law_requester_sends_its_id(secret: Seq<u8>, node_id: Seq<u8>)
    ensures
        ({
            let sealed = crate::crypto::aead_seal(
                key_for(secret, "requester key"@),
                only_nonce(),
                node_id,
            );
            let step = crate::coupon::receive_next(
                Receiving::AwaitParsed { secret, node_id },
                RequesterHears::Parsed,
            );
            &&& step.0 is Ended
            &&& step.1 matches RequesterDoes::Finish(sent) && sent == crate::wire::bytes_field(
                sealed,
            ) && (sealed.len() <= usize::MAX ==> crate::messages::read_bytes(sent) == Some(sealed))
        }),
{
    let sealed = crate::crypto::aead_seal(
        key_for(secret, "requester key"@),
        only_nonce(),
        node_id,
    );
    if sealed.len() <= usize::MAX {
        crate::messages::law_read_bytes(sealed);
    }
}

/// Neither side fails without a reason: it fails as closed only if the connection was closed, as
/// refused only with the words of the coupon machine, and as out of order only on an event that
/// the state does not wait for.
pub proof fn law_exchange_fails_for_a_reason(
    state: Providing,
    event: ProviderHears,
    other: Receiving,
    heard: RequesterHears,
)
    ensures
        crate::coupon::provide_next(state, event).1 matches ProviderDoes::Fail(why) ==> match why {
            Failure::Closed => event == ProviderHears::Message(Incoming::Closed),
            Failure::Server(text) => event == ProviderHears::Message(Incoming::Text(text)),
            Failure::OutOfOrder => match state {
                Providing::AwaitTicket { .. } => !(event is Ticket),
                Providing::Ended => true,
                _ => !(event is Message),
            },
            Failure::Malformed => event is Message,
            Failure::Pake => event is Message && state is AwaitRedeem,
            Failure::Cipher => state is AwaitTicket || state is AwaitFinish,
            _ => false,
        },
        crate::coupon::receive_next(other, heard).1 matches RequesterDoes::Fail(why) ==> match why {
            Failure::Closed => heard == RequesterHears::Message(Incoming::Closed),
            Failure::Server(text) => heard == RequesterHears::Message(Incoming::Text(text)),
            Failure::OutOfOrder => match other {
                Receiving::AwaitReply { .. } => !(heard is Message),
                Receiving::AwaitParsed { .. } => !(heard is Parsed),
                Receiving::Ended => true,
            },
            Failure::InvalidCoupon => false,
            _ => heard is Message && other is AwaitReply,
        },
{
}

/// Whenever a side waits for a message, a closed connection ends the exchange, and so does text,
/// which is the reason. An event that the state does not wait for ends it too, and so does every
/// event once it has ended.
pub proof fn law_other_events_end_the_exchange(
    state: Providing,
    event: ProviderHears,
    other: Receiving,
    heard: RequesterHears,
    text: Seq<char>,
)
    ensures
        state is AwaitCreated || state is AwaitRedeem || state is AwaitFinish ==> {
            &&& crate::coupon::provide_next(state, ProviderHears::Message(Incoming::Closed)) == (
                Providing::Ended,
                ProviderDoes::Fail(Failure::Closed),
            )
            &&& crate::coupon::provide_next(state, ProviderHears::Message(Incoming::Text(text)))
                == (Providing::Ended, ProviderDoes::Fail(Failure::Server(text)))
        },
        state is Ended || (state is AwaitTicket) != (event is Ticket)
            ==> crate::coupon::provide_next(state, event) == (
            Providing::Ended,
            ProviderDoes::Fail(Failure::OutOfOrder),
        ),
        other is AwaitReply ==> {
            &&& crate::coupon::receive_next(other, RequesterHears::Message(Incoming::Closed)) == (
                Receiving::Ended,
                RequesterDoes::Fail(Failure::Closed),
            )
            &&& crate::coupon::receive_next(other, RequesterHears::Message(Incoming::Text(text)))
                == (Receiving::Ended, RequesterDoes::Fail(Failure::Server(text)))
        },
        other is Ended || (other is AwaitParsed) != (heard is Parsed)
            ==> crate::coupon::receive_next(other, heard) == (
            Receiving::Ended,
            RequesterDoes::Fail(Failure::OutOfOrder),
        ),
{
}

/// Whether the key stream, which has one block less than a message may have, ends before a message
/// of this length does.
pub open spec fn ends_early(len: int) -> bool {
    64 * 4294967294 < len < 64 * 4294967295
}

/// Every step can be taken but where the key stream would end before the message that is sealed or
/// opened in it: no other message is too long, and none is too short.
pub proof fn law_only_overlong_messages_cannot_be_taken(
    state: Providing,
    event: ProviderHears,
    other: Receiving,
    heard: RequesterHears,
)
    ensures
        !crate::coupon::provide_fits(state, event) <==> match event {
            ProviderHears::Ticket { kind, data } => state is AwaitTicket && ends_early(
                crate::messages::ticket_bytes(kind, data).len() as int,
            ),
            ProviderHears::Message(Incoming::Data(bytes)) => state is AwaitFinish && (
            crate::messages::read_bytes(bytes) matches Some(sealed) && ends_early(
                sealed.len() - 16,
            )),
            _ => false,
        },
        !crate::coupon::receive_fits(other, heard) <==> other is AwaitReply && (
        heard matches RequesterHears::Message(Incoming::Data(bytes)) && (
        crate::messages::read_pair(bytes) matches Some((message, sealed)) && ends_early(
            sealed.len() - 16,
        ))),
{
}

/// A coupon is read as what stands before its first hyphen and what stands behind it, and a text
/// without a hyphen is no coupon.
pub proof fn law_coupon_is_cut_at_its_first_hyphen(coupon: Seq<char>)
    ensures
        match crate::coupon::read_coupon(coupon) {
            Some((header, password)) => coupon == header + seq!['-'] + password && !header.contains(
                '-',
            ),
            None => !coupon.contains('-'),
        },
{
    crate::laws::text::law_cut_is_at_the_first(coupon, '-');
}

/// A password is the words that were picked with a hyphen between each two, each of them a word of
/// the list.
pub proof fn law_password_is_words_with_hyphens(
    a: Seq<Seq<char>>,
    b: Seq<Seq<char>>,
    word: Seq<char>,
    words: Seq<Seq<char>>,
)
    requires
        a.len() > 0,
        b.len() > 0,
    ensures
        crate::coupon::password_text(a + b) == crate::coupon::password_text(a) + seq!['-']
            + crate::coupon::password_text(b),
        crate::coupon::password_text(seq![word]) == word,
        crate::coupon::password_text(Seq::empty()) == Seq::<char>::empty(),
        crate::coupon::picked_from(a, words) <==> forall|i: int|
            0 <= i < a.len() ==> words.contains(#[trigger] a[i]),
{
    reveal_strlit("-");
    assert("-"@ =~= seq!['-']);
    crate::laws::text::law_joined_of_two(a, b, word, "-"@);
}

/// What is read out of an opened message as a ticket of a kind is the data of a ticket of that
/// kind.
pub proof fn law_ticket_is_of_its_kind(plain: Seq<u8>, kind: Seq<char>)
    ensures
        crate::coupon::ticket_of_kind(plain, kind) == match crate::messages::read_ticket(plain) {
            None => Err::<Seq<u8>, Failure>(Failure::Malformed),
            Some((has, data)) => if has == kind {
                Ok::<Seq<u8>, Failure>(data)
            } else {
                Err::<Seq<u8>, Failure>(Failure::BadTicketKind)
            },
        },
{
}

/// The contracts speak of what came from the coupon machine, of the errors and of the two sides as
/// they are: nothing is left out but which error an outside crate gave.
pub proof fn law_exchange_is_seen_as_it_is(
    message: Option<ServerMessage>,
    error: CouponError,
    state: ProvideState,
    event: ProvideEvent,
    action: ProvideAction,
    other: ReceiveState,
    heard: ReceiveEvent,
    does: ReceiveAction,
)
    ensures
        match message {
            None => crate::coupon::incoming(message) is Closed,
            Some(ServerMessage::Text(text)) => crate::coupon::incoming(message) == Incoming::Text(
                text@,
            ),
            Some(ServerMessage::Data(bytes)) => crate::coupon::incoming(message) == Incoming::Data(
                bytes@,
            ),
        },
        crate::coupon::payload(crate::coupon::incoming(message)) == match message {
            None => Err::<Seq<u8>, Failure>(Failure::Closed),
            Some(ServerMessage::Text(text)) => Err::<Seq<u8>, Failure>(Failure::Server(text@)),
            Some(ServerMessage::Data(bytes)) => Ok::<Seq<u8>, Failure>(bytes@),
        },
        match error {
            CouponError::Closed => error@ is Closed,
            CouponError::Server(text) => error@ == Failure::Server(text@),
            CouponError::Malformed(_) => error@ is Malformed,
            CouponError::Pake(_) => error@ is Pake,
            CouponError::Cipher(_) => error@ is Cipher,
            CouponError::BadTicketKind => error@ is BadTicketKind,
            CouponError::InvalidCoupon => error@ is InvalidCoupon,
            CouponError::OutOfOrder => error@ is OutOfOrder,
        },
        match state {
            ProvideState::AwaitCreated { pake, password } => state@ == (Providing::AwaitCreated {
                start: crate::crypto::pake_start(pake),
                password: password@,
            }),
            ProvideState::AwaitRedeem { pake } => state@ == (Providing::AwaitRedeem {
                start: crate::crypto::pake_start(pake),
            }),
            ProvideState::AwaitTicket { secret } => state@ == (Providing::AwaitTicket {
                secret: secret@,
            }),
            ProvideState::AwaitFinish { secret } => state@ == (Providing::AwaitFinish {
                secret: secret@,
            }),
            ProvideState::Ended => state@ is Ended,
        },
        match event {
            ProvideEvent::Message(m) => event@ == ProviderHears::Message(
                crate::coupon::incoming(m),
            ),
            ProvideEvent::Ticket(ticket) => event@ == (ProviderHears::Ticket {
                kind: ticket.kind@,
                data: ticket.data@,
            }),
        },
        match action {
            ProvideAction::ShowCoupon(coupon) => action@ == ProviderDoes::ShowCoupon(coupon@),
            ProvideAction::GetTicket => action@ is GetTicket,
            ProvideAction::Send(bytes) => action@ == ProviderDoes::Send(bytes@),
            ProvideAction::Done(node_id) => action@ == ProviderDoes::Done(node_id@),
            ProvideAction::Fail(e) => action@ == ProviderDoes::Fail(e@),
        },
        match other {
            ReceiveState::AwaitReply { pake, kind, node_id } => other@ == (Receiving::AwaitReply {
                start: crate::crypto::pake_start(pake),
                kind: kind@,
                node_id: crate::crypto::node_bytes(node_id),
            }),
            ReceiveState::AwaitParsed { secret, node_id } => other@ == (Receiving::AwaitParsed {
                secret: secret@,
                node_id: crate::crypto::node_bytes(node_id),
            }),
            ReceiveState::Ended => other@ is Ended,
        },
        match heard {
            ReceiveEvent::Message(m) => heard@ == RequesterHears::Message(
                crate::coupon::incoming(m),
            ),
            ReceiveEvent::Parsed => heard@ is Parsed,
        },
        match does {
            ReceiveAction::ParseTicket(data) => does@ == RequesterDoes::ParseTicket(data@),
            ReceiveAction::Finish(bytes) => does@ == RequesterDoes::Finish(bytes@),
            ReceiveAction::Fail(e) => does@ == RequesterDoes::Fail(e@),
        },
{
}

} // verus!
