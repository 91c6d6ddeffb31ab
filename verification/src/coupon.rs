//! Handing a ticket to a peer who knows a coupon.
//!
//! The provider asks the coupon machine for a header and shows the coupon, which is the header
//! and a password. The requester types the coupon in. Both derive a shared secret from the
//! password by way of the coupon machine; the provider sends its ticket and the requester its
//! node id, each sealed under a key of its own.
//!
//! Each side is a state machine: it takes what happened and says what to do next. The connection
//! itself is the caller's.

use crate::crypto::{
    aead_decrypt, aead_encrypt, choose_word, decode_node_id, encode_node_id, hkdf_expand,
    pake_finish, pake_start_a, pake_start_b, Pake,
};
use crate::messages::{
    CompactTicket, CouponCreateRequest, CouponCreateResponse, CouponRedeemFinishRequest,
    CouponRedeemFinishedNotice, CouponRedeemStartRequest, CouponRedeemStartResponse,
    CouponRedeemStartedNotice, CouponRedeemStartedResponse, FirstMessage, Hello, CURRENT_PROTO,
};
use crate::text::{join, split_once};
use vstd::prelude::*;
use vstd::string::StringExecFns;

verus! {

/// Where the coupon machine is, whose coupons these are, and how many words a password has.
pub struct CouponMachineConfig {
    pub url: String,
    pub realm: String,
    pub password_length: usize,
}

/// The coupon machine that coupons are had from, and how they are made.
pub fn coupon_machine() -> (r: CouponMachineConfig)
    ensures
        r.url@ == "wss://couponmachine.skye.vg"@,
        r.realm@ == "halfcopy"@,
        r.password_length == 3,
{
    CouponMachineConfig {
        url: "wss://couponmachine.skye.vg".to_owned(),
        realm: "halfcopy".to_owned(),
        password_length: 3,
    }
}

/// What came from the coupon machine.
pub enum ServerMessage {
    Text(String),
    Data(Vec<u8>),
}

/// Why an exchange ended without success.
#[derive(Debug)]
pub enum CouponError {
    /// The connection was closed.
    Closed,
    /// The coupon machine refused, in these words.
    Server(String),
    /// A message was not what it should be.
    Malformed(postcard::Error),
    /// The other side's message does not fit the exchange.
    Pake(spake2::Error),
    /// A message could not be sealed or opened.
    Cipher(chacha20poly1305::aead::Error),
    /// The ticket is not of the kind that was asked for.
    BadTicketKind,
    /// The coupon has no password.
    InvalidCoupon,
    /// The event does not belong to the state.
    OutOfOrder,
}

/// An error as the contracts speak of it.
pub enum Failure {
    Closed,
    Server(Seq<char>),
    Malformed,
    Pake,
    Cipher,
    BadTicketKind,
    InvalidCoupon,
    OutOfOrder,
}

impl View for CouponError {
    type V = Failure;

    open spec fn view(&self) -> Failure {
        match self {
            CouponError::Closed => Failure::Closed,
            CouponError::Server(text) => Failure::Server(text@),
            CouponError::Malformed(_) => Failure::Malformed,
            CouponError::Pake(_) => Failure::Pake,
            CouponError::Cipher(_) => Failure::Cipher,
            CouponError::BadTicketKind => Failure::BadTicketKind,
            CouponError::InvalidCoupon => Failure::InvalidCoupon,
            CouponError::OutOfOrder => Failure::OutOfOrder,
        }
    }
}

/// What the user is told of a failure; `None` for one that an outside error has words for.
pub open spec fn coupon_words(why: Failure) -> Option<Seq<char>> {
    match why {
        Failure::Closed => Some("Unexpected connection close"@),
        Failure::Server(reason) => Some("Server returned error: "@ + reason),
        Failure::BadTicketKind => Some("Bad ticket kind"@),
        Failure::InvalidCoupon => Some("Invalid coupon!"@),
        Failure::OutOfOrder => Some("Unexpected event"@),
        Failure::Malformed | Failure::Pake | Failure::Cipher => None,
    }
}

impl CouponError {
    /// What to tell the user; `None` for an error that has words of its own.
    pub fn describe(&self) -> (r: Option<String>)
        ensures
            r is Some <==> coupon_words(self@) is Some,
            r matches Some(text) ==> coupon_words(self@) == Some(text@),
    {
        match self {
            CouponError::Closed => Some("Unexpected connection close".to_owned()),
            CouponError::Server(reason) => Some(
                "Server returned error: ".to_owned().concat(reason.as_str()),
            ),
            CouponError::Malformed(_) => None,
            CouponError::Pake(_) => None,
            CouponError::Cipher(_) => None,
            CouponError::BadTicketKind => Some("Bad ticket kind".to_owned()),
            CouponError::InvalidCoupon => Some("Invalid coupon!".to_owned()),
            CouponError::OutOfOrder => Some("Unexpected event".to_owned()),
        }
    }
}

/// What the connection brought, as the contracts speak of it.
pub enum Incoming {
    Closed,
    Text(Seq<char>),
    Data(Seq<u8>),
}

/// What the connection brought: `None` if it was closed.
pub open spec fn incoming(message: Option<ServerMessage>) -> Incoming {
    match message {
        None => Incoming::Closed,
        Some(ServerMessage::Text(text)) => Incoming::Text(text@),
        Some(ServerMessage::Data(bytes)) => Incoming::Data(bytes@),
    }
}

/// The bytes that the connection brought, or the failure that it means.
pub open spec fn payload(message: Incoming) -> Result<Seq<u8>, Failure> {
    match message {
        Incoming::Closed => Err(Failure::Closed),
        Incoming::Text(text) => Err(Failure::Server(text)),
        Incoming::Data(bytes) => Ok(bytes),
    }
}

/// Takes the bytes of a message. A closed connection is an error, and so is text, in which the
/// coupon machine says why it refused.
pub fn expect_data(message: Option<ServerMessage>) -> (r: Result<Vec<u8>, CouponError>)
    ensures
        match r {
            Ok(bytes) => payload(incoming(message)) == Ok::<Seq<u8>, Failure>(bytes@),
            Err(e) => payload(incoming(message)) == Err::<Seq<u8>, Failure>(e@),
        },
{
    match message {
        None => Err(CouponError::Closed),
        Some(ServerMessage::Text(text)) => Err(CouponError::Server(text)),
        Some(ServerMessage::Data(bytes)) => Ok(bytes),
    }
}

/// The nonce under which every message is sealed: a key seals only one.
pub open spec fn nonce() -> Seq<u8> {
    vstd::utf8::encode_utf8("niko oneshot"@)
}

/// The key of the label.
pub open spec fn labelled_key(secret: Seq<u8>, label: Seq<char>) -> Seq<u8> {
    crate::crypto::hkdf_blake3(secret, vstd::utf8::encode_utf8(label), 32)
}

/// The key under which the provider seals its ticket.
pub open spec fn provider_key(secret: Seq<u8>) -> Seq<u8> {
    labelled_key(secret, "provider key"@)
}

/// The key under which the requester seals its node id.
pub open spec fn requester_key(secret: Seq<u8>) -> Seq<u8> {
    labelled_key(secret, "requester key"@)
}

/// Derives the key of a label from the shared secret.
pub fn derive_key(secret: &[u8], label: &str) -> (r: Vec<u8>)
    ensures
        r@ == labelled_key(secret@, label@),
        r@.len() == 32,
{
    hkdf_expand(secret, label.as_bytes(), 32).unwrap()
}

/// Whether `plain`, sealed under a key, opens again, and is longer by the tag while it is sealed.
pub open spec fn opens_again(key: Seq<u8>, plain: Seq<u8>) -> bool {
    &&& crate::crypto::aead_open(key, nonce(), crate::crypto::aead_seal(key, nonce(), plain))
        == Some(plain)
    &&& crate::crypto::aead_seal(key, nonce(), plain).len() == plain.len() + crate::crypto::TAG_LEN
}

/// Whether the key stream ends before a message of this length does.
fn overruns(len: usize) -> (r: bool)
    ensures
        r == crate::crypto::aead_overruns(len as int),
{
    len / 64 == 4294967294 && len % 64 != 0
}

/// Whether the key stream ends before a message does that has this length when it is sealed.
fn sealed_overruns(len: usize) -> (r: bool)
    ensures
        r == crate::crypto::aead_overruns(len - crate::crypto::TAG_LEN),
{
    len >= crate::crypto::TAG_LEN && overruns(len - crate::crypto::TAG_LEN)
}

/// Seals a message under the key of a label. Fails exactly if the message is too long.
pub fn seal(secret: &[u8], label: &str, plain: &[u8]) -> (r: Result<
    Vec<u8>,
    chacha20poly1305::aead::Error,
>)
    requires
        !crate::crypto::aead_overruns(plain@.len() as int),
    ensures
        r is Ok <==> crate::crypto::aead_fits(plain@.len()),
        r matches Ok(sealed) ==> sealed@ == crate::crypto::aead_seal(
            labelled_key(secret@, label@),
            nonce(),
            plain@,
        ),
        r matches Ok(sealed) ==> crate::crypto::aead_open(
            labelled_key(secret@, label@),
            nonce(),
            sealed@,
        ) == Some(plain@),
        r matches Ok(sealed) ==> sealed@.len() == plain@.len() + crate::crypto::TAG_LEN,
{
    let key = derive_key(secret, label);
    let nonce = "niko oneshot";
    proof {
        reveal_strlit("niko oneshot");
        vstd::utf8::is_ascii_chars_encode_utf8("niko oneshot"@);
    }
    aead_encrypt(key.as_slice(), nonce.as_bytes(), plain)
}

/// Opens a message that was sealed under the key of a label.
pub fn unseal(secret: &[u8], label: &str, sealed: &[u8]) -> (r: Result<
    Vec<u8>,
    chacha20poly1305::aead::Error,
>)
    requires
        !crate::crypto::aead_overruns(sealed@.len() - crate::crypto::TAG_LEN),
    ensures
        r is Ok <==> crate::crypto::aead_open(
            labelled_key(secret@, label@),
            nonce(),
            sealed@,
        ) is Some,
        r matches Ok(plain) ==> crate::crypto::aead_open(
            labelled_key(secret@, label@),
            nonce(),
            sealed@,
        ) == Some(plain@),
        r matches Ok(plain) ==> sealed@ == crate::crypto::aead_seal(
            labelled_key(secret@, label@),
            nonce(),
            plain@,
        ),
{
    let key = derive_key(secret, label);
    let nonce = "niko oneshot";
    proof {
        reveal_strlit("niko oneshot");
        vstd::utf8::is_ascii_chars_encode_utf8("niko oneshot"@);
    }
    aead_decrypt(key.as_slice(), nonce.as_bytes(), sealed)
}

/// Whether every picked word is one of `words`.
pub open spec fn picked_from(picked: Seq<Seq<char>>, words: Seq<Seq<char>>) -> bool {
    forall|i: int| 0 <= i < picked.len() ==> words.contains(#[trigger] picked[i])
}

/// Picks `count` words at random.
pub fn pick_words(words: &[String], count: usize) -> (r: Vec<String>)
    requires
        words@.len() > 0 || count == 0,
    ensures
        r@.len() == count,
        picked_from(crate::text::texts(r@), crate::text::texts(words@)),
{
    let mut r: Vec<String> = Vec::new();
    while r.len() < count
        invariant
            words@.len() > 0 || count == 0,
            r@.len() <= count,
            picked_from(crate::text::texts(r@), crate::text::texts(words@)),
        decreases count - r.len(),
    {
        let word = choose_word(words).unwrap();
        proof {
            let at = choose|at: int| 0 <= at < words@.len() && words@[at] == *word;
            assert(crate::text::texts(words@)[at] == word@);
        }
        let ghost before = crate::text::texts(r@);
        r.push(word.clone());
        assert(crate::text::texts(r@) =~= before.push(word@));
    }
    r
}

/// The password made of the picked words.
pub open spec fn password_text(picked: Seq<Seq<char>>) -> Seq<char> {
    crate::text::joined(picked, "-"@)
}

/// Makes a password of the picked words.
pub fn password_of(picked: &[String]) -> (r: String)
    ensures
        r@ == password_text(crate::text::texts(picked@)),
{
    join(picked, "-")
}

/// The coupon with this header and password.
pub open spec fn coupon_text(header: Seq<char>, password: Seq<char>) -> Seq<char> {
    header + "-"@ + password
}

/// Makes the coupon that the provider shows.
pub fn coupon_of(header: &str, password: &str) -> (r: String)
    ensures
        r@ == coupon_text(header@, password@),
{
    header.to_owned().concat("-").concat(password)
}

/// The header and the password of a coupon.
pub open spec fn read_coupon(coupon: Seq<char>) -> Option<(Seq<char>, Seq<char>)> {
    crate::text::cut(coupon, '-')
}

/// Where the provider's side of an exchange stands.
pub enum ProvideState {
    /// The request is out, and the header is awaited.
    AwaitCreated { pake: Pake, password: String },
    /// The coupon is shown, and someone to redeem it is awaited.
    AwaitRedeem { pake: Pake },
    /// The secret is shared, and the ticket is awaited.
    AwaitTicket { secret: Vec<u8> },
    /// The ticket is out, and the requester's node id is awaited.
    AwaitFinish { secret: Vec<u8> },
    /// The exchange is over.
    Ended,
}

/// What happens to the provider.
pub enum ProvideEvent {
    /// The next message from the coupon machine, or `None` if it closed the connection.
    Message(Option<ServerMessage>),
    /// The ticket to hand over.
    Ticket(CompactTicket),
}

/// What the provider does next.
pub enum ProvideAction {
    /// Show the coupon, then wait for a message.
    ShowCoupon(String),
    /// Make the ticket.
    GetTicket,
    /// Send these bytes, then wait for a message.
    Send(Vec<u8>),
    /// Stop: the coupon was redeemed by this node.
    Done([u8; 32]),
    /// Stop.
    Fail(CouponError),
}

/// A provider's state as the contracts speak of it.
pub enum Providing {
    AwaitCreated { start: crate::crypto::PakeStart, password: Seq<char> },
    AwaitRedeem { start: crate::crypto::PakeStart },
    AwaitTicket { secret: Seq<u8> },
    AwaitFinish { secret: Seq<u8> },
    Ended,
}

/// An event for the provider as the contracts speak of it.
pub enum ProviderHears {
    Message(Incoming),
    Ticket { kind: Seq<char>, data: Seq<u8> },
}

/// An action of the provider as the contracts speak of it.
pub enum ProviderDoes {
    ShowCoupon(Seq<char>),
    GetTicket,
    Send(Seq<u8>),
    Done(Seq<u8>),
    Fail(Failure),
}

impl View for ProvideState {
    type V = Providing;

    open spec fn view(&self) -> Providing {
        match self {
            ProvideState::AwaitCreated { pake, password } => Providing::AwaitCreated {
                start: crate::crypto::pake_start(*pake),
                password: password@,
            },
            ProvideState::AwaitRedeem { pake } => Providing::AwaitRedeem {
                start: crate::crypto::pake_start(*pake),
            },
            ProvideState::AwaitTicket { secret } => Providing::AwaitTicket { secret: secret@ },
            ProvideState::AwaitFinish { secret } => Providing::AwaitFinish { secret: secret@ },
            ProvideState::Ended => Providing::Ended,
        }
    }
}

impl View for ProvideEvent {
    type V = ProviderHears;

    open spec fn view(&self) -> ProviderHears {
        match self {
            ProvideEvent::Message(message) => ProviderHears::Message(incoming(*message)),
            ProvideEvent::Ticket(ticket) => ProviderHears::Ticket {
                kind: ticket.kind@,
                data: ticket.data@,
            },
        }
    }
}

impl View for ProvideAction {
    type V = ProviderDoes;

    open spec fn view(&self) -> ProviderDoes {
        match self {
            ProvideAction::ShowCoupon(coupon) => ProviderDoes::ShowCoupon(coupon@),
            ProvideAction::GetTicket => ProviderDoes::GetTicket,
            ProvideAction::Send(bytes) => ProviderDoes::Send(bytes@),
            ProvideAction::Done(node_id) => ProviderDoes::Done(node_id@),
            ProvideAction::Fail(e) => ProviderDoes::Fail(e@),
        }
    }
}

/// The end of an exchange that failed.
pub open spec fn provide_fails(why: Failure) -> (Providing, ProviderDoes) {
    (Providing::Ended, ProviderDoes::Fail(why))
}

/// What the provider makes of the answer to its request.
pub open spec fn on_created(
    start: crate::crypto::PakeStart,
    password: Seq<char>,
    bytes: Seq<u8>,
) -> (Providing, ProviderDoes) {
    match crate::messages::read_text(bytes) {
        None => provide_fails(Failure::Malformed),
        Some(header) => (
            Providing::AwaitRedeem { start },
            ProviderDoes::ShowCoupon(coupon_text(header, password)),
        ),
    }
}

/// What the provider makes of the notice that someone redeems its coupon.
pub open spec fn on_redeem(start: crate::crypto::PakeStart, bytes: Seq<u8>) -> (
    Providing,
    ProviderDoes,
) {
    match crate::messages::read_bytes(bytes) {
        None => provide_fails(Failure::Malformed),
        Some(pake_message) => match crate::crypto::pake_secret(start, pake_message) {
            None => provide_fails(Failure::Pake),
            Some(secret) => (Providing::AwaitTicket { secret }, ProviderDoes::GetTicket),
        },
    }
}

/// The provider's ticket as it is sent.
pub open spec fn sealed_ticket(secret: Seq<u8>, kind: Seq<char>, data: Seq<u8>) -> Seq<u8> {
    crate::crypto::aead_seal(
        provider_key(secret),
        nonce(),
        crate::messages::ticket_bytes(kind, data),
    )
}

/// What the provider makes of its ticket.
pub open spec fn on_ticket(secret: Seq<u8>, kind: Seq<char>, data: Seq<u8>) -> (
    Providing,
    ProviderDoes,
) {
    if crate::crypto::aead_fits(crate::messages::ticket_bytes(kind, data).len()) {
        (
            Providing::AwaitFinish { secret },
            ProviderDoes::Send(crate::wire::bytes_field(sealed_ticket(secret, kind, data))),
        )
    } else {
        provide_fails(Failure::Cipher)
    }
}

/// What the provider makes of the notice that its coupon was redeemed.
pub open spec fn on_finish(secret: Seq<u8>, bytes: Seq<u8>) -> (Providing, ProviderDoes) {
    match crate::messages::read_bytes(bytes) {
        None => provide_fails(Failure::Malformed),
        Some(sealed) => match crate::crypto::aead_open(requester_key(secret), nonce(), sealed) {
            None => provide_fails(Failure::Cipher),
            Some(plain) => match crate::crypto::read_node_id(plain) {
                None => provide_fails(Failure::Malformed),
                Some(node_id) => (Providing::Ended, ProviderDoes::Done(node_id)),
            },
        },
    }
}

/// What the provider makes of an event.
pub open spec fn provide_next(state: Providing, event: ProviderHears) -> (
    Providing,
    ProviderDoes,
) {
    match (state, event) {
        (Providing::AwaitTicket { secret }, ProviderHears::Ticket { kind, data }) => on_ticket(
            secret,
            kind,
            data,
        ),
        (Providing::AwaitCreated { start, password }, ProviderHears::Message(message)) => match payload(
            message,
        ) {
            Ok(bytes) => on_created(start, password, bytes),
            Err(why) => provide_fails(why),
        },
        (Providing::AwaitRedeem { start }, ProviderHears::Message(message)) => match payload(
            message,
        ) {
            Ok(bytes) => on_redeem(start, bytes),
            Err(why) => provide_fails(why),
        },
        (Providing::AwaitFinish { secret }, ProviderHears::Message(message)) => match payload(
            message,
        ) {
            Ok(bytes) => on_finish(secret, bytes),
            Err(why) => provide_fails(why),
        },
        _ => provide_fails(Failure::OutOfOrder),
    }
}

/// Whether the key stream lasts for what the provider seals or opens in a step.
pub open spec fn provide_fits(state: Providing, event: ProviderHears) -> bool {
    match (state, event) {
        (Providing::AwaitTicket { .. }, ProviderHears::Ticket { kind, data }) =>
            !crate::crypto::aead_overruns(
            crate::messages::ticket_bytes(kind, data).len() as int,
        ),
        (Providing::AwaitFinish { .. }, ProviderHears::Message(Incoming::Data(bytes))) => match crate::messages::read_bytes(
            bytes,
        ) {
            Some(sealed) => !crate::crypto::aead_overruns(sealed.len() - crate::crypto::TAG_LEN),
            None => true,
        },
        _ => true,
    }
}

/// Whether the provider can take a step: `provide_coupon` asks for this.
pub fn can_provide(state: &ProvideState, event: &ProvideEvent) -> (r: bool)
    ensures
        r == provide_fits(state@, event@),
{
    match (state, event) {
        (ProvideState::AwaitTicket { .. }, ProvideEvent::Ticket(ticket)) => !overruns(
            ticket.to_bytes().len(),
        ),
        (
            ProvideState::AwaitFinish { .. },
            ProvideEvent::Message(Some(ServerMessage::Data(bytes))),
        ) => match CouponRedeemFinishedNotice::from_bytes(bytes.as_slice()) {
            Ok(notice) => !sealed_overruns(notice.data_message.len()),
            Err(_) => true,
        },
        _ => true,
    }
}

/// Whether a provider begins like this for a realm and a coupon machine: it is the first side of
/// the exchange, with this password, and what it sends first is the request for a coupon, with its
/// message.
pub open spec fn provider_begins(
    realm: Seq<char>,
    url: Seq<char>,
    password: Seq<char>,
    start: crate::crypto::PakeStart,
    sent: Seq<u8>,
) -> bool {
    &&& start.side_a
    &&& start.password == vstd::utf8::encode_utf8(password)
    &&& start.id_a == vstd::utf8::encode_utf8(realm)
    &&& start.id_b == vstd::utf8::encode_utf8(url)
    &&& crate::crypto::pake_message(crate::crypto::PAKE_SIDE_A, start.message)
    &&& sent == crate::messages::hello_bytes(
        realm,
        CURRENT_PROTO,
        crate::messages::create_bytes(start.message),
    )
}

/// Starts the provider's side: picks a password and makes the request for a coupon, which is to
/// be sent first.
pub fn provide_start(config: &CouponMachineConfig, words: &[String]) -> (r: (
    ProvideState,
    Vec<u8>,
))
    requires
        words@.len() > 0 || config.password_length == 0,
    ensures
        r.0@ matches Providing::AwaitCreated { start, password } && {
            &&& exists|picked: Seq<Seq<char>>|
                #![trigger password_text(picked)]
                {
                    &&& picked.len() == config.password_length
                    &&& picked_from(picked, crate::text::texts(words@))
                    &&& password == password_text(picked)
                }
            &&& provider_begins(config.realm@, config.url@, password, start, r.1@)
        },
{
    let picked = pick_words(words, config.password_length);
    let password = password_of(picked.as_slice());
    assert(crate::text::texts(picked@).len() == config.password_length);
    let (pake, pake_message) = pake_start_a(
        password.as_str(),
        config.realm.as_str(),
        config.url.as_str(),
    );
    let message = FirstMessage::Create(CouponCreateRequest { pake_message }).to_bytes();
    let hello = Hello { realm: config.realm.clone(), proto: CURRENT_PROTO, message };
    (ProvideState::AwaitCreated { pake, password }, hello.to_bytes())
}

fn provide_created(pake: Pake, password: String, bytes: &[u8]) -> (r: (ProvideState, ProvideAction))
    ensures
        (r.0@, r.1@) == on_created(crate::crypto::pake_start(pake), password@, bytes@),
{
    match CouponCreateResponse::from_bytes(bytes) {
        Err(e) => (ProvideState::Ended, ProvideAction::Fail(CouponError::Malformed(e))),
        Ok(response) => {
            let coupon = coupon_of(response.header.as_str(), password.as_str());
            (ProvideState::AwaitRedeem { pake }, ProvideAction::ShowCoupon(coupon))
        },
    }
}

fn provide_redeem(pake: Pake, bytes: &[u8]) -> (r: (ProvideState, ProvideAction))
    ensures
        (r.0@, r.1@) == on_redeem(crate::crypto::pake_start(pake), bytes@),
{
    match CouponRedeemStartedNotice::from_bytes(bytes) {
        Err(e) => (ProvideState::Ended, ProvideAction::Fail(CouponError::Malformed(e))),
        Ok(notice) => match pake_finish(pake, notice.pake_message.as_slice()) {
            Err(e) => (ProvideState::Ended, ProvideAction::Fail(CouponError::Pake(e))),
            Ok(secret) => (ProvideState::AwaitTicket { secret }, ProvideAction::GetTicket),
        },
    }
}

fn provide_ticket(secret: Vec<u8>, ticket: &CompactTicket) -> (r: (ProvideState, ProvideAction))
    requires
        !crate::crypto::aead_overruns(
            crate::messages::ticket_bytes(ticket.kind@, ticket.data@).len() as int,
        ),
    ensures
        (r.0@, r.1@) == on_ticket(secret@, ticket.kind@, ticket.data@),
        r.1 is Send ==> opens_again(
            provider_key(secret@),
            crate::messages::ticket_bytes(ticket.kind@, ticket.data@),
        ),
{
    let plain = ticket.to_bytes();
    match seal(secret.as_slice(), "provider key", plain.as_slice()) {
        Err(e) => (ProvideState::Ended, ProvideAction::Fail(CouponError::Cipher(e))),
        Ok(data_message) => {
            let response = CouponRedeemStartedResponse { data_message };
            (ProvideState::AwaitFinish { secret }, ProvideAction::Send(response.to_bytes()))
        },
    }
}

fn provide_finish(secret: Vec<u8>, bytes: &[u8]) -> (r: (ProvideState, ProvideAction))
    requires
        crate::messages::read_bytes(bytes@) matches Some(sealed) ==> !crate::crypto::aead_overruns(
            sealed.len() - crate::crypto::TAG_LEN,
        ),
    ensures
        (r.0@, r.1@) == on_finish(secret@, bytes@),
{
    match CouponRedeemFinishedNotice::from_bytes(bytes) {
        Err(e) => (ProvideState::Ended, ProvideAction::Fail(CouponError::Malformed(e))),
        Ok(notice) => match unseal(
            secret.as_slice(),
            "requester key",
            notice.data_message.as_slice(),
        ) {
            Err(e) => (ProvideState::Ended, ProvideAction::Fail(CouponError::Cipher(e))),
            Ok(plain) => match decode_node_id(plain.as_slice()) {
                Err(e) => (ProvideState::Ended, ProvideAction::Fail(CouponError::Malformed(e))),
                Ok(node_id) => (ProvideState::Ended, ProvideAction::Done(node_id)),
            },
        },
    }
}

/// Takes the provider's side one step further.
pub fn provide_coupon(state: ProvideState, event: ProvideEvent) -> (r: (
    ProvideState,
    ProvideAction,
))
    requires
        provide_fits(state@, event@),
    ensures
        (r.0@, r.1@) == provide_next(state@, event@),
        state@ matches Providing::AwaitTicket { secret } ==> event@ matches ProviderHears::Ticket {
            kind,
            data,
        } ==> r.1 is Send ==> opens_again(
            provider_key(secret),
            crate::messages::ticket_bytes(kind, data),
        ),
{
    match (state, event) {
        (ProvideState::AwaitTicket { secret }, ProvideEvent::Ticket(ticket)) => provide_ticket(
            secret,
            &ticket,
        ),
        (ProvideState::AwaitCreated { pake, password }, ProvideEvent::Message(message)) => match expect_data(
            message,
        ) {
            Ok(bytes) => provide_created(pake, password, bytes.as_slice()),
            Err(e) => (ProvideState::Ended, ProvideAction::Fail(e)),
        },
        (ProvideState::AwaitRedeem { pake }, ProvideEvent::Message(message)) => match expect_data(
            message,
        ) {
            Ok(bytes) => provide_redeem(pake, bytes.as_slice()),
            Err(e) => (ProvideState::Ended, ProvideAction::Fail(e)),
        },
        (ProvideState::AwaitFinish { secret }, ProvideEvent::Message(message)) => match expect_data(
            message,
        ) {
            Ok(bytes) => provide_finish(secret, bytes.as_slice()),
            Err(e) => (ProvideState::Ended, ProvideAction::Fail(e)),
        },
        _ => (ProvideState::Ended, ProvideAction::Fail(CouponError::OutOfOrder)),
    }
}

/// Where the requester's side of an exchange stands.
pub enum ReceiveState {
    /// The request is out, and the provider's ticket is awaited.
    AwaitReply { pake: Pake, kind: String, node_id: iroh_base::NodeId },
    /// The ticket's bytes are being read.
    AwaitParsed { secret: Vec<u8>, node_id: iroh_base::NodeId },
    /// The exchange is over.
    Ended,
}

/// What happens to the requester.
pub enum ReceiveEvent {
    /// The next message from the coupon machine, or `None` if it closed the connection.
    Message(Option<ServerMessage>),
    /// The ticket's bytes were read.
    Parsed,
}

/// What the requester does next.
pub enum ReceiveAction {
    /// Read a ticket from these bytes.
    ParseTicket(Vec<u8>),
    /// Send these bytes and close the connection: the ticket is received.
    Finish(Vec<u8>),
    /// Stop.
    Fail(CouponError),
}

/// A requester's state as the contracts speak of it.
pub enum Receiving {
    AwaitReply { start: crate::crypto::PakeStart, kind: Seq<char>, node_id: Seq<u8> },
    AwaitParsed { secret: Seq<u8>, node_id: Seq<u8> },
    Ended,
}

/// An event for the requester as the contracts speak of it.
pub enum RequesterHears {
    Message(Incoming),
    Parsed,
}

/// An action of the requester as the contracts speak of it.
pub enum RequesterDoes {
    ParseTicket(Seq<u8>),
    Finish(Seq<u8>),
    Fail(Failure),
}

impl View for ReceiveState {
    type V = Receiving;

    open spec fn view(&self) -> Receiving {
        match self {
            ReceiveState::AwaitReply { pake, kind, node_id } => Receiving::AwaitReply {
                start: crate::crypto::pake_start(*pake),
                kind: kind@,
                node_id: crate::crypto::node_bytes(*node_id),
            },
            ReceiveState::AwaitParsed { secret, node_id } => Receiving::AwaitParsed {
                secret: secret@,
                node_id: crate::crypto::node_bytes(*node_id),
            },
            ReceiveState::Ended => Receiving::Ended,
        }
    }
}

impl View for ReceiveEvent {
    type V = RequesterHears;

    open spec fn view(&self) -> RequesterHears {
        match self {
            ReceiveEvent::Message(message) => RequesterHears::Message(incoming(*message)),
            ReceiveEvent::Parsed => RequesterHears::Parsed,
        }
    }
}

impl View for ReceiveAction {
    type V = RequesterDoes;

    open spec fn view(&self) -> RequesterDoes {
        match self {
            ReceiveAction::ParseTicket(data) => RequesterDoes::ParseTicket(data@),
            ReceiveAction::Finish(bytes) => RequesterDoes::Finish(bytes@),
            ReceiveAction::Fail(e) => RequesterDoes::Fail(e@),
        }
    }
}

/// The end of an exchange that failed.
pub open spec fn receive_fails(why: Failure) -> (Receiving, RequesterDoes) {
    (Receiving::Ended, RequesterDoes::Fail(why))
}

/// The data of the ticket that `plain` holds, if it is of this kind.
pub open spec fn ticket_of_kind(plain: Seq<u8>, kind: Seq<char>) -> Result<Seq<u8>, Failure> {
    match crate::messages::read_ticket(plain) {
        None => Err(Failure::Malformed),
        Some((found, data)) => if found == kind {
            Ok(data)
        } else {
            Err(Failure::BadTicketKind)
        },
    }
}

/// Reads a ticket of a given kind out of an opened message.
pub fn open_ticket(plain: &[u8], kind: &String) -> (r: Result<Vec<u8>, CouponError>)
    ensures
        match r {
            Ok(data) => ticket_of_kind(plain@, kind@) == Ok::<Seq<u8>, Failure>(data@),
            Err(e) => ticket_of_kind(plain@, kind@) == Err::<Seq<u8>, Failure>(e@),
        },
{
    match CompactTicket::from_bytes(plain) {
        Err(e) => Err(CouponError::Malformed(e)),
        Ok(ticket) => if ticket.kind == *kind {
            Ok(ticket.data)
        } else {
            Err(CouponError::BadTicketKind)
        },
    }
}

/// What the requester makes of the answer to its request.
pub open spec fn on_reply(
    start: crate::crypto::PakeStart,
    kind: Seq<char>,
    node_id: Seq<u8>,
    bytes: Seq<u8>,
) -> (Receiving, RequesterDoes) {
    match crate::messages::read_pair(bytes) {
        None => receive_fails(Failure::Malformed),
        Some((pake_message, sealed)) => match crate::crypto::pake_secret(start, pake_message) {
            None => receive_fails(Failure::Pake),
            Some(secret) => match crate::crypto::aead_open(provider_key(secret), nonce(), sealed) {
                None => receive_fails(Failure::Cipher),
                Some(plain) => match ticket_of_kind(plain, kind) {
                    Err(why) => receive_fails(why),
                    Ok(data) => (
                        Receiving::AwaitParsed { secret, node_id },
                        RequesterDoes::ParseTicket(data),
                    ),
                },
            },
        },
    }
}

/// The requester's node id as it is sent.
pub open spec fn sealed_node_id(secret: Seq<u8>, node_id: Seq<u8>) -> Seq<u8> {
    crate::crypto::aead_seal(requester_key(secret), nonce(), node_id)
}

/// What the requester makes of an event.
pub open spec fn receive_next(state: Receiving, event: RequesterHears) -> (
    Receiving,
    RequesterDoes,
) {
    match (state, event) {
        (Receiving::AwaitReply { start, kind, node_id }, RequesterHears::Message(message)) => match payload(
            message,
        ) {
            Ok(bytes) => on_reply(start, kind, node_id, bytes),
            Err(why) => receive_fails(why),
        },
        (Receiving::AwaitParsed { secret, node_id }, RequesterHears::Parsed) => (
            Receiving::Ended,
            RequesterDoes::Finish(crate::wire::bytes_field(sealed_node_id(secret, node_id))),
        ),
        _ => receive_fails(Failure::OutOfOrder),
    }
}

/// Whether the key stream lasts for what the requester opens in a step.
pub open spec fn receive_fits(state: Receiving, event: RequesterHears) -> bool {
    match (state, event) {
        (Receiving::AwaitReply { .. }, RequesterHears::Message(Incoming::Data(bytes))) => match crate::messages::read_pair(
            bytes,
        ) {
            Some((_, sealed)) => !crate::crypto::aead_overruns(
                sealed.len() - crate::crypto::TAG_LEN,
            ),
            None => true,
        },
        _ => true,
    }
}

/// Whether the requester can take a step: `receive_coupon` asks for this.
pub fn can_receive(state: &ReceiveState, event: &ReceiveEvent) -> (r: bool)
    ensures
        r == receive_fits(state@, event@),
{
    match (state, event) {
        (
            ReceiveState::AwaitReply { .. },
            ReceiveEvent::Message(Some(ServerMessage::Data(bytes))),
        ) => match CouponRedeemStartResponse::from_bytes(bytes.as_slice()) {
            Ok(response) => !sealed_overruns(response.data_message.len()),
            Err(_) => true,
        },
        _ => true,
    }
}

/// Whether a requester begins like this for a realm and a coupon machine: it is the other side of
/// the exchange, with this password, and what it sends first is the request to redeem the coupon
/// with this header, with its message.
pub open spec fn requester_begins(
    realm: Seq<char>,
    url: Seq<char>,
    header: Seq<char>,
    password: Seq<char>,
    start: crate::crypto::PakeStart,
    sent: Seq<u8>,
) -> bool {
    &&& !start.side_a
    &&& start.password == vstd::utf8::encode_utf8(password)
    &&& start.id_a == vstd::utf8::encode_utf8(realm)
    &&& start.id_b == vstd::utf8::encode_utf8(url)
    &&& crate::crypto::pake_message(crate::crypto::PAKE_SIDE_B, start.message)
    &&& sent == crate::messages::hello_bytes(
        realm,
        CURRENT_PROTO,
        crate::messages::redeem_bytes(header, start.message),
    )
}

/// Starts the requester's side: takes the coupon apart and makes the request to redeem it, which
/// is to be sent first. `kind` is the kind of ticket that is wanted, and `node_id` is the id of
/// this node.
pub fn receive_start(
    config: &CouponMachineConfig,
    coupon: &str,
    kind: String,
    node_id: iroh_base::NodeId,
) -> (r: Result<(ReceiveState, Vec<u8>), CouponError>)
    ensures
        match read_coupon(coupon@) {
            None => r matches Err(e) && e@ == Failure::InvalidCoupon,
            Some((header, password)) => r matches Ok(p) && p.0@ matches Receiving::AwaitReply {
                start,
                kind: wanted,
                node_id: id,
            } && {
                &&& wanted == kind@
                &&& id == crate::crypto::node_bytes(node_id)
                &&& requester_begins(config.realm@, config.url@, header, password, start, p.1@)
            },
        },
{
    match split_once(coupon, '-') {
        None => Err(CouponError::InvalidCoupon),
        Some((header, password)) => {
            let (pake, pake_message) = pake_start_b(
                password.as_str(),
                config.realm.as_str(),
                config.url.as_str(),
            );
            let request = CouponRedeemStartRequest { header, pake_message };
            let message = FirstMessage::Redeem(request).to_bytes();
            let hello = Hello { realm: config.realm.clone(), proto: CURRENT_PROTO, message };
            Ok((ReceiveState::AwaitReply { pake, kind, node_id }, hello.to_bytes()))
        },
    }
}

fn receive_reply(pake: Pake, kind: &String, node_id: iroh_base::NodeId, bytes: &[u8]) -> (r: (
    ReceiveState,
    ReceiveAction,
))
    requires
        crate::messages::read_pair(bytes@) matches Some((_, sealed))
            ==> !crate::crypto::aead_overruns(sealed.len() - crate::crypto::TAG_LEN),
    ensures
        (r.0@, r.1@) == on_reply(
            crate::crypto::pake_start(pake),
            kind@,
            crate::crypto::node_bytes(node_id),
            bytes@,
        ),
{
    match CouponRedeemStartResponse::from_bytes(bytes) {
        Err(e) => (ReceiveState::Ended, ReceiveAction::Fail(CouponError::Malformed(e))),
        Ok(response) => match pake_finish(pake, response.pake_message.as_slice()) {
            Err(e) => (ReceiveState::Ended, ReceiveAction::Fail(CouponError::Pake(e))),
            Ok(secret) => match unseal(
                secret.as_slice(),
                "provider key",
                response.data_message.as_slice(),
            ) {
                Err(e) => (ReceiveState::Ended, ReceiveAction::Fail(CouponError::Cipher(e))),
                Ok(plain) => match open_ticket(plain.as_slice(), kind) {
                    Err(e) => (ReceiveState::Ended, ReceiveAction::Fail(e)),
                    Ok(data) => (
                        ReceiveState::AwaitParsed { secret, node_id },
                        ReceiveAction::ParseTicket(data),
                    ),
                },
            },
        },
    }
}

fn receive_finish(secret: &[u8], node_id: iroh_base::NodeId) -> (r: Vec<u8>)
    ensures
        r@ == crate::wire::bytes_field(
            sealed_node_id(secret@, crate::crypto::node_bytes(node_id)),
        ),
        opens_again(requester_key(secret@), crate::crypto::node_bytes(node_id)),
        crate::crypto::node_bytes(node_id).len() == 32,
        crate::crypto::node_key(crate::crypto::node_bytes(node_id)),
{
    let plain = encode_node_id(&node_id).unwrap();
    let data_message = seal(secret, "requester key", plain.as_slice()).unwrap();
    CouponRedeemFinishRequest { data_message }.to_bytes()
}

/// Takes the requester's side one step further.
pub fn receive_coupon(state: ReceiveState, event: ReceiveEvent) -> (r: (
    ReceiveState,
    ReceiveAction,
))
    requires
        receive_fits(state@, event@),
    ensures
        (r.0@, r.1@) == receive_next(state@, event@),
        state@ matches Receiving::AwaitParsed { secret, node_id } ==> event@ is Parsed
            ==> opens_again(requester_key(secret), node_id) && node_id.len() == 32
            && crate::crypto::node_key(node_id),
{
    match (state, event) {
        (ReceiveState::AwaitReply { pake, kind, node_id }, ReceiveEvent::Message(message)) => match expect_data(
            message,
        ) {
            Ok(bytes) => receive_reply(pake, &kind, node_id, bytes.as_slice()),
            Err(e) => (ReceiveState::Ended, ReceiveAction::Fail(e)),
        },
        (ReceiveState::AwaitParsed { secret, node_id }, ReceiveEvent::Parsed) => (
            ReceiveState::Ended,
            ReceiveAction::Finish(receive_finish(secret.as_slice(), node_id)),
        ),
        _ => (ReceiveState::Ended, ReceiveAction::Fail(CouponError::OutOfOrder)),
    }
}

/// A coupon gives back the header and the password that it was made of, if the header has no
/// hyphen.
pub proof fn law_coupon_reads_back(header: Seq<char>, password: Seq<char>)
    requires
        !header.contains('-'),
    ensures
        read_coupon(coupon_text(header, password)) == Some((header, password)),
{
    reveal_strlit("-");
    assert("-"@ =~= seq!['-']);
    crate::text::law_cut_of_join(header, password, '-');
}

/// Two sides that were started with the same password and the same identities, and that got each
/// other's messages, share a secret.
pub proof fn law_secret_is_shared(
    a: crate::crypto::PakeStart,
    b: crate::crypto::PakeStart,
)
    requires
        a.side_a,
        !b.side_a,
        a.password == b.password,
        a.id_a == b.id_a,
        a.id_b == b.id_b,
        crate::crypto::pake_message(crate::crypto::PAKE_SIDE_A, a.message),
        crate::crypto::pake_message(crate::crypto::PAKE_SIDE_B, b.message),
    ensures
        crate::crypto::pake_secret(a, b.message) is Some,
        crate::crypto::pake_secret(a, b.message) == crate::crypto::pake_secret(b, a.message),
{
}

/// Whether the two sides take part in one exchange: the provider was started with a password and
/// was told a header without a hyphen; the requester was started with the coupon that the provider
/// then showed, for the same realm and coupon machine; and `secret` is what the provider makes of
/// the requester's message.
pub open spec fn one_exchange(
    header: Seq<char>,
    password: Seq<char>,
    a: crate::crypto::PakeStart,
    b: crate::crypto::PakeStart,
    secret: Seq<u8>,
) -> bool {
    &&& !header.contains('-')
    &&& a.side_a
    &&& a.password == vstd::utf8::encode_utf8(password)
    &&& crate::crypto::pake_message(crate::crypto::PAKE_SIDE_A, a.message)
    &&& !b.side_a
    &&& read_coupon(coupon_text(header, password)) matches Some((_, typed)) && b.password
        == vstd::utf8::encode_utf8(typed)
    &&& b.id_a == a.id_a
    &&& b.id_b == a.id_b
    &&& crate::crypto::pake_message(crate::crypto::PAKE_SIDE_B, b.message)
    &&& crate::crypto::pake_secret(a, b.message) == Some(secret)
}

/// The requester gets the provider's ticket. Let the two take part in one exchange, let the coupon
/// machine tell the provider the header (`created`) and the requester's message (`notice`), let
/// the ticket not be too long for the cipher, and let the coupon machine pass on what is sealed in
/// what the provider sends (`sent`) behind the provider's message (`reply`). Then the provider
/// sends its ticket, and the requester is handed the very data of it. That what the provider seals
/// opens again is what `provide_coupon` ensures.
pub proof fn law_requester_gets_the_ticket(
    header: Seq<char>,
    password: Seq<char>,
    a: crate::crypto::PakeStart,
    b: crate::crypto::PakeStart,
    secret: Seq<u8>,
    ticket: CompactTicket,
    node_id: Seq<u8>,
    created: Seq<u8>,
    notice: Seq<u8>,
    sent: Vec<u8>,
    sealed: Seq<u8>,
    reply: Seq<u8>,
)
    requires
        one_exchange(header, password, a, b, secret),
        crate::messages::read_text(created) == Some(header),
        crate::messages::read_bytes(notice) == Some(b.message),
        crate::messages::ticket_bytes(ticket.kind@, ticket.data@).len() / 64 < u32::MAX,
        sent@ == crate::wire::bytes_field(
            crate::crypto::aead_seal(
                provider_key(secret),
                nonce(),
                crate::messages::ticket_bytes(ticket.kind@, ticket.data@),
            ),
        ),
        opens_again(
            provider_key(secret),
            crate::messages::ticket_bytes(ticket.kind@, ticket.data@),
        ),
        crate::messages::read_bytes(sent@) == Some(sealed),
        crate::messages::read_pair(reply) == Some((a.message, sealed)),
    ensures
        provide_next(
            Providing::AwaitCreated { start: a, password },
            ProviderHears::Message(Incoming::Data(created)),
        ) == (
            Providing::AwaitRedeem { start: a },
            ProviderDoes::ShowCoupon(coupon_text(header, password)),
        ),
        read_coupon(coupon_text(header, password)) == Some((header, password)),
        provide_next(
            Providing::AwaitRedeem { start: a },
            ProviderHears::Message(Incoming::Data(notice)),
        ) == (Providing::AwaitTicket { secret }, ProviderDoes::GetTicket),
        provide_next(
            Providing::AwaitTicket { secret },
            ProviderHears::Ticket { kind: ticket.kind@, data: ticket.data@ },
        ) == (Providing::AwaitFinish { secret }, ProviderDoes::Send(sent@)),
        receive_next(
            Receiving::AwaitReply { start: b, kind: ticket.kind@, node_id },
            RequesterHears::Message(Incoming::Data(reply)),
        ) == (Receiving::AwaitParsed { secret, node_id }, RequesterDoes::ParseTicket(ticket.data@)),
{
    law_coupon_reads_back(header, password);
    law_secret_is_shared(a, b);
    let inner = sealed_ticket(secret, ticket.kind@, ticket.data@);
    assert(sent@ == crate::wire::bytes_field(inner));
    assert(inner.len() <= sent@.len() <= usize::MAX) by {
        assert(sent@.len() == sent.len());
    }
    crate::messages::law_read_bytes(inner);
    let plain = crate::messages::ticket_bytes(ticket.kind@, ticket.data@);
    assert(plain.len() <= usize::MAX);
    crate::messages::law_read_ticket(ticket.kind@, ticket.data@);
}

/// The provider gets the requester's node id. Let the two take part in one exchange, let the
/// requester have been handed the ticket and have read it, and let the coupon machine pass on what
/// it sends then. Then the provider ends with the very id of the requester, which is a node's key.
/// That what the requester seals opens again, and that it is a key, is what `receive_coupon`
/// ensures.
pub proof fn law_provider_gets_the_node_id(
    header: Seq<char>,
    password: Seq<char>,
    a: crate::crypto::PakeStart,
    b: crate::crypto::PakeStart,
    secret: Seq<u8>,
    kind: Seq<char>,
    node_id: Seq<u8>,
    reply: Seq<u8>,
    sealed: Seq<u8>,
    sent: Vec<u8>,
)
    requires
        one_exchange(header, password, a, b, secret),
        crate::messages::read_pair(reply) == Some((a.message, sealed)),
        node_id.len() == 32,
        crate::crypto::node_key(node_id),
        receive_next(
            Receiving::AwaitReply { start: b, kind, node_id },
            RequesterHears::Message(Incoming::Data(reply)),
        ).1 is ParseTicket,
        receive_next(
            receive_next(
                Receiving::AwaitReply { start: b, kind, node_id },
                RequesterHears::Message(Incoming::Data(reply)),
            ).0,
            RequesterHears::Parsed,
        ).1 == RequesterDoes::Finish(sent@),
        opens_again(requester_key(secret), node_id),
    ensures
        provide_next(
            Providing::AwaitFinish { secret },
            ProviderHears::Message(Incoming::Data(sent@)),
        ) == (Providing::Ended, ProviderDoes::Done(node_id)),
{
    law_coupon_reads_back(header, password);
    law_secret_is_shared(a, b);
    assert(sent@ == crate::wire::bytes_field(sealed_node_id(secret, node_id)));
    crate::messages::law_read_bytes(sealed_node_id(secret, node_id));
    assert(node_id.take(32) =~= node_id);
}

/// The requester is handed a ticket's data only if the provider's message opens under the shared
/// secret to a ticket of the kind that is wanted, with that data.
pub proof fn law_ticket_was_opened(state: Receiving, event: RequesterHears, data: Seq<u8>)
    requires
        receive_next(state, event).1 == RequesterDoes::ParseTicket(data),
    ensures
        state matches Receiving::AwaitReply { start, kind, node_id } && event
            matches RequesterHears::Message(Incoming::Data(bytes))
            && crate::messages::read_pair(bytes) matches Some((pake_message, sealed))
            && crate::crypto::pake_secret(start, pake_message) matches Some(secret)
            && crate::crypto::aead_open(provider_key(secret), nonce(), sealed) matches Some(plain)
            && crate::messages::read_ticket(plain) == Some((kind, data)),
{
}

/// The provider names a node only if that node's message opens under the shared secret to its id.
pub proof fn law_node_was_opened(state: Providing, event: ProviderHears, node_id: Seq<u8>)
    requires
        provide_next(state, event).1 == ProviderDoes::Done(node_id),
    ensures
        state matches Providing::AwaitFinish { secret } && event
            matches ProviderHears::Message(Incoming::Data(bytes))
            && crate::messages::read_bytes(bytes) matches Some(sealed)
            && crate::crypto::aead_open(requester_key(secret), nonce(), sealed) matches Some(plain)
            && crate::crypto::read_node_id(plain) == Some(node_id),
{
}

/// Whenever a provider waits for a message, text from the coupon machine ends the exchange with
/// that text as the reason, and so does a closed connection.
pub proof fn law_provider_is_refused(state: Providing, text: Seq<char>)
    requires
        state is AwaitCreated || state is AwaitRedeem || state is AwaitFinish,
    ensures
        provide_next(state, ProviderHears::Message(Incoming::Text(text))) == provide_fails(
            Failure::Server(text),
        ),
        provide_next(state, ProviderHears::Message(Incoming::Closed)) == provide_fails(
            Failure::Closed,
        ),
{
}

/// Whenever a requester waits for a message, text from the coupon machine ends the exchange with
/// that text as the reason, and so does a closed connection.
pub proof fn law_requester_is_refused(state: Receiving, text: Seq<char>)
    requires
        state is AwaitReply,
    ensures
        receive_next(state, RequesterHears::Message(Incoming::Text(text))) == receive_fails(
            Failure::Server(text),
        ),
        receive_next(state, RequesterHears::Message(Incoming::Closed)) == receive_fails(
            Failure::Closed,
        ),
{
}

/// A provider's exchange that has ended, or that ends in this step, stays ended; it ends exactly
/// if the step is the last or fails.
pub proof fn law_provider_ends(state: Providing, event: ProviderHears)
    ensures
        provide_next(state, event).0 is Ended <==> (provide_next(state, event).1 is Done
            || provide_next(state, event).1 is Fail),
        state is Ended ==> provide_next(state, event) == provide_fails(Failure::OutOfOrder),
{
}

/// A requester's exchange that has ended, or that ends in this step, stays ended; it ends exactly
/// if the step is the last or fails.
pub proof fn law_requester_ends(state: Receiving, event: RequesterHears)
    ensures
        receive_next(state, event).0 is Ended <==> (receive_next(state, event).1 is Finish
            || receive_next(state, event).1 is Fail),
        state is Ended ==> receive_next(state, event) == receive_fails(Failure::OutOfOrder),
{
}

/// If no word has a hyphen, the pieces of a password are the words that were picked.
pub proof fn law_password_is_its_words(picked: Seq<Seq<char>>, words: Seq<Seq<char>>)
    requires
        picked.len() > 0,
        picked_from(picked, words),
        forall|i: int| 0 <= i < words.len() ==> !(#[trigger] words[i]).contains('-'),
    ensures
        crate::text::pieces(password_text(picked), '-') == picked,
{
    reveal_strlit("-");
    assert("-"@ =~= seq!['-']);
    assert forall|i: int| 0 <= i < picked.len() implies !(#[trigger] picked[i]).contains('-') by {
        let at = choose|at: int| 0 <= at < words.len() && words[at] == picked[i];
        assert(!words[at].contains('-'));
    }
    crate::text::law_pieces_of_join(picked, '-');
}

} // verus!
