use halfcopy::coupon::{
    can_provide, can_receive, coupon_machine, coupon_of, derive_key, expect_data, open_ticket, password_of, pick_words,
    provide_coupon, provide_start, receive_coupon, receive_start, seal, unseal, CouponError,
    CouponMachineConfig, ProvideAction, ProvideEvent, ProvideState, ReceiveAction, ReceiveEvent,
    ReceiveState, ServerMessage,
};
use halfcopy::messages::CompactTicket;
use hkdf::hmac::SimpleHmac;
use hkdf::Hkdf;

fn words() -> Vec<String> {
    vec!["apple".to_string(), "pear".to_string(), "plum".to_string()]
}

fn node() -> iroh_base::NodeId {
    iroh_base::SecretKey::from_bytes(&[7; 32]).public()
}

fn node_id() -> [u8; 32] {
    *node().as_bytes()
}

fn data(bytes: Vec<u8>) -> Option<ServerMessage> {
    Some(ServerMessage::Data(bytes))
}

fn text(words: &str) -> Option<ServerMessage> {
    Some(ServerMessage::Text(words.to_string()))
}

fn framed(bytes: &[u8]) -> Vec<u8> {
    postcard::to_stdvec(&bytes.to_vec()).unwrap()
}

/// The realm, the version and the request inside a first message.
fn hello(bytes: &[u8]) -> (String, u64, Vec<u8>) {
    postcard::from_bytes(bytes).unwrap()
}

/// The message in a request to create a coupon.
fn create_request(bytes: &[u8]) -> Vec<u8> {
    let request: Result<Vec<u8>, (String, Vec<u8>)> =
        postcard::from_bytes(&hello(bytes).2).unwrap();
    request.unwrap()
}

/// The header and the message in a request to redeem a coupon.
fn redeem_request(bytes: &[u8]) -> (String, Vec<u8>) {
    let request: Result<Vec<u8>, (String, Vec<u8>)> =
        postcard::from_bytes(&hello(bytes).2).unwrap();
    request.unwrap_err()
}

fn provide(state: ProvideState, message: Option<ServerMessage>) -> (ProvideState, ProvideAction) {
    provide_coupon(state, ProvideEvent::Message(message))
}

fn receive(state: ReceiveState, message: Option<ServerMessage>) -> (ReceiveState, ReceiveAction) {
    receive_coupon(state, ReceiveEvent::Message(message))
}

/// A provider whose coupon is shown: its state, its message and the coupon.
fn shown(config: &CouponMachineConfig, header: &str) -> (ProvideState, Vec<u8>, String) {
    let (state, first) = provide_start(config, &words());
    let pake = create_request(&first);
    let (state, action) = provide(state, data(postcard::to_stdvec(header).unwrap()));
    match action {
        ProvideAction::ShowCoupon(coupon) => (state, pake, coupon),
        _ => panic!(),
    }
}

/// A provider and a requester with this coupon, up to where the provider has sent its ticket: both
/// states and what the coupon machine sends to the requester.
fn redeeming(coupon: Option<&str>, kind: &str) -> (ProvideState, ReceiveState, Vec<u8>) {
    let config = coupon_machine();
    let (provider, provider_pake, shown) = shown(&config, "17");
    let coupon = coupon.unwrap_or(&shown);
    let (requester, first) =
        receive_start(&config, coupon, kind.to_string(), node()).ok().unwrap();
    let (_, requester_pake) = redeem_request(&first);
    let (provider, action) = provide(provider, data(framed(&requester_pake)));
    assert!(matches!(action, ProvideAction::GetTicket));
    let ticket = CompactTicket { kind: "blob".to_string(), data: vec![1, 2, 3] };
    let (provider, action) = provide_coupon(provider, ProvideEvent::Ticket(ticket));
    let ProvideAction::Send(sent) = action else { panic!() };
    let sealed: Vec<u8> = postcard::from_bytes(&sent).unwrap();
    (provider, requester, postcard::to_stdvec(&(provider_pake, sealed)).unwrap())
}

fn failed(action: ProvideAction) -> CouponError {
    match action {
        ProvideAction::Fail(e) => e,
        _ => panic!(),
    }
}

fn refused(action: ReceiveAction) -> CouponError {
    match action {
        ReceiveAction::Fail(e) => e,
        _ => panic!(),
    }
}

#[test]
fn the_coupon_machine_is_known() {
    let config = coupon_machine();
    assert_eq!(config.url, "wss://couponmachine.skye.vg");
    assert_eq!(config.realm, "halfcopy");
    assert_eq!(config.password_length, 3);
}

#[test]
fn a_coupon_delivers_the_ticket_and_the_node_id() {
    let (provider, requester, reply) = redeeming(None, "blob");
    let (requester, action) = receive(requester, data(reply));
    match action {
        ReceiveAction::ParseTicket(bytes) => assert_eq!(bytes, vec![1, 2, 3]),
        _ => panic!(),
    }
    let (requester, action) = receive_coupon(requester, ReceiveEvent::Parsed);
    let ReceiveAction::Finish(sent) = action else { panic!() };
    assert!(matches!(requester, ReceiveState::Ended));
    let (provider, action) = provide(provider, data(sent));
    assert!(matches!(provider, ProvideState::Ended));
    match action {
        ProvideAction::Done(id) => assert_eq!(id, node_id()),
        _ => panic!(),
    }
}

#[test]
fn the_first_message_of_a_provider_asks_for_a_coupon() {
    let config = coupon_machine();
    let (_, first) = provide_start(&config, &words());
    let (realm, proto, _) = hello(&first);
    assert_eq!((realm.as_str(), proto), ("halfcopy", 0));
    let pake = create_request(&first);
    assert_eq!(pake.len(), 33);
    assert_eq!(pake[0], 0x41);
}

#[test]
fn the_first_message_of_a_requester_names_the_header() {
    let config = coupon_machine();
    let (_, first) =
        receive_start(&config, "17-a-b", "blob".to_string(), node()).ok().unwrap();
    let (realm, proto, _) = hello(&first);
    assert_eq!((realm.as_str(), proto), ("halfcopy", 0));
    let (header, pake) = redeem_request(&first);
    assert_eq!(header, "17");
    assert_eq!(pake.len(), 33);
    assert_eq!(pake[0], 0x42);
}

#[test]
fn two_exchanges_differ() {
    let config = coupon_machine();
    let (_, one) = provide_start(&config, &words());
    let (_, two) = provide_start(&config, &words());
    assert_ne!(one, two);
}

#[test]
fn the_coupon_is_the_header_and_a_password_of_words() {
    let (_, _, coupon) = shown(&coupon_machine(), "17");
    let parts: Vec<&str> = coupon.split('-').collect();
    assert_eq!(parts.len(), 4);
    assert_eq!(parts[0], "17");
    for part in &parts[1..] {
        assert!(words().contains(&part.to_string()));
    }
    assert_eq!(coupon_of("17", "a-b-c"), "17-a-b-c");
}

#[test]
fn words_are_picked_from_the_list() {
    let picked = pick_words(&words(), 20);
    assert_eq!(picked.len(), 20);
    assert!(picked.iter().all(|word| words().contains(word)));
    assert!(pick_words(&[], 0).is_empty());
    assert_eq!(password_of(&["a".to_string(), "b".to_string()]), "a-b");
    assert_eq!(password_of(&[]), "");
}

#[test]
fn a_header_with_a_hyphen_is_read_as_part_of_the_password() {
    let config = coupon_machine();
    let (_, _, coupon) = shown(&config, "a-b");
    let (_, first) = receive_start(&config, &coupon, "blob".to_string(), node()).ok().unwrap();
    assert_eq!(redeem_request(&first).0, "a");
}

#[test]
fn a_coupon_without_a_hyphen_is_invalid() {
    let r = receive_start(&coupon_machine(), "17", "blob".to_string(), node());
    assert!(matches!(r, Err(CouponError::InvalidCoupon)));
}

#[test]
fn a_wrong_password_opens_nothing() {
    let (_, requester, reply) = redeeming(Some("17-wrong"), "blob");
    assert!(matches!(refused(receive(requester, data(reply)).1), CouponError::Cipher(_)));
}

#[test]
fn a_ticket_of_another_kind_is_refused() {
    let (_, requester, reply) = redeeming(None, "doc");
    assert!(matches!(refused(receive(requester, data(reply)).1), CouponError::BadTicketKind));
}

#[test]
fn open_ticket_checks_the_kind() {
    let bytes = postcard::to_stdvec(&("blob", vec![4u8, 5])).unwrap();
    assert_eq!(open_ticket(&bytes, &"blob".to_string()).ok().unwrap(), vec![4, 5]);
    let r = open_ticket(&bytes, &"blo".to_string());
    assert!(matches!(r, Err(CouponError::BadTicketKind)));
    assert!(matches!(open_ticket(&[], &"blob".to_string()), Err(CouponError::Malformed(_))));
}

#[test]
fn a_closed_connection_ends_the_exchange() {
    let (state, _) = provide_start(&coupon_machine(), &words());
    let (state, action) = provide(state, None);
    assert!(matches!(state, ProvideState::Ended));
    assert!(matches!(failed(action), CouponError::Closed));
    let (requester, _) =
        receive_start(&coupon_machine(), "17-a", "blob".to_string(), node()).ok().unwrap();
    assert!(matches!(refused(receive(requester, None).1), CouponError::Closed));
    assert!(matches!(expect_data(None), Err(CouponError::Closed)));
}

#[test]
fn text_from_the_coupon_machine_is_a_refusal() {
    let (state, _) = provide_start(&coupon_machine(), &words());
    let e = failed(provide(state, text("busy")).1);
    assert_eq!(e.describe().unwrap(), "Server returned error: busy");
    let (state, _, _) = shown(&coupon_machine(), "17");
    let e = failed(provide(state, text("gone")).1);
    assert_eq!(e.describe().unwrap(), "Server returned error: gone");
    let (provider, requester, _) = redeeming(None, "blob");
    assert!(matches!(failed(provide(provider, text("no")).1), CouponError::Server(_)));
    assert!(matches!(refused(receive(requester, text("no")).1), CouponError::Server(_)));
}

#[test]
fn errors_are_described() {
    assert_eq!(CouponError::Closed.describe().unwrap(), "Unexpected connection close");
    assert_eq!(CouponError::BadTicketKind.describe().unwrap(), "Bad ticket kind");
    assert_eq!(CouponError::InvalidCoupon.describe().unwrap(), "Invalid coupon!");
    assert_eq!(CouponError::OutOfOrder.describe().unwrap(), "Unexpected event");
    let (state, _) = provide_start(&coupon_machine(), &words());
    assert!(failed(provide(state, data(vec![])).1).describe().is_none());
}

#[test]
fn malformed_messages_end_the_exchange() {
    let (state, _) = provide_start(&coupon_machine(), &words());
    assert!(matches!(failed(provide(state, data(vec![9])).1), CouponError::Malformed(_)));
    let (state, _, _) = shown(&coupon_machine(), "17");
    assert!(matches!(failed(provide(state, data(vec![9])).1), CouponError::Malformed(_)));
    let (provider, requester, _) = redeeming(None, "blob");
    assert!(matches!(failed(provide(provider, data(vec![9])).1), CouponError::Malformed(_)));
    assert!(matches!(refused(receive(requester, data(vec![9])).1), CouponError::Malformed(_)));
}

#[test]
fn messages_of_the_wrong_side_or_length_do_not_fit() {
    let (state, own, _) = shown(&coupon_machine(), "17");
    assert!(matches!(failed(provide(state, data(framed(&own))).1), CouponError::Pake(_)));
    let (state, _, _) = shown(&coupon_machine(), "17");
    assert!(matches!(failed(provide(state, data(framed(&[0x42; 5]))).1), CouponError::Pake(_)));
    let (state, own, _) = shown(&coupon_machine(), "17");
    let mut forged = own.clone();
    forged[0] = 0x42;
    forged.push(0);
    assert!(matches!(failed(provide(state, data(framed(&forged))).1), CouponError::Pake(_)));
}

#[test]
fn what_was_not_sealed_is_not_opened() {
    let (provider, _, _) = redeeming(None, "blob");
    assert!(matches!(
        failed(provide(provider, data(framed(&[0; 48]))).1),
        CouponError::Cipher(_)
    ));
}

#[test]
fn events_out_of_order_end_the_exchange() {
    let (state, _) = provide_start(&coupon_machine(), &words());
    let ticket = CompactTicket { kind: "blob".to_string(), data: vec![] };
    let (state, action) = provide_coupon(state, ProvideEvent::Ticket(ticket));
    assert!(matches!(failed(action), CouponError::OutOfOrder));
    assert!(matches!(failed(provide(state, data(vec![])).1), CouponError::OutOfOrder));
    let (requester, _) =
        receive_start(&coupon_machine(), "17-a", "blob".to_string(), node()).ok().unwrap();
    let (requester, action) = receive_coupon(requester, ReceiveEvent::Parsed);
    assert!(matches!(refused(action), CouponError::OutOfOrder));
    assert!(matches!(refused(receive(requester, None).1), CouponError::OutOfOrder));
}

/// A provider that waits for the node id, with the secret that it shares.
fn finishing() -> (ProvideState, Vec<u8>) {
    let secret = vec![5; 32];
    (ProvideState::AwaitFinish { secret: secret.clone() }, secret)
}

#[test]
fn a_node_id_must_be_a_key() {
    let bad = (0..=255u8)
        .map(|first| {
            let mut bytes = [0u8; 32];
            bytes[0] = first;
            bytes
        })
        .find(|bytes| iroh_base::PublicKey::from_bytes(bytes).is_err())
        .unwrap();
    let (state, secret) = finishing();
    let sealed = seal(&secret, "requester key", &bad).unwrap();
    assert!(matches!(
        failed(provide(state, data(framed(&sealed))).1),
        CouponError::Malformed(_)
    ));
    let (state, secret) = finishing();
    let sealed = seal(&secret, "requester key", &node_id()[..31]).unwrap();
    assert!(matches!(
        failed(provide(state, data(framed(&sealed))).1),
        CouponError::Malformed(_)
    ));
    let (state, secret) = finishing();
    let mut longer = node_id().to_vec();
    longer.push(1);
    let sealed = seal(&secret, "requester key", &longer).unwrap();
    match provide(state, data(framed(&sealed))).1 {
        ProvideAction::Done(id) => assert_eq!(id, node_id()),
        _ => panic!(),
    }
}

#[test]
fn keys_are_derived_by_hkdf_with_blake3() {
    let hkdf = Hkdf::<blake3::Hasher, SimpleHmac<_>>::new(None, b"secret");
    let mut expected = [0u8; 32];
    hkdf.expand(b"provider key", &mut expected).unwrap();
    assert_eq!(derive_key(b"secret", "provider key"), expected.to_vec());
    assert_ne!(derive_key(b"secret", "requester key"), expected.to_vec());
    assert_ne!(derive_key(b"other", "provider key"), expected.to_vec());
}

#[test]
fn sealed_messages_open_under_their_label_only() {
    let sealed = seal(b"secret", "provider key", b"hello").unwrap();
    assert_eq!(sealed.len(), 5 + 16);
    assert_ne!(&sealed[..5], b"hello");
    assert_eq!(unseal(b"secret", "provider key", &sealed).unwrap(), b"hello".to_vec());
    assert!(unseal(b"secret", "requester key", &sealed).is_err());
    assert!(unseal(b"other", "provider key", &sealed).is_err());
    let mut changed = sealed.clone();
    changed[0] ^= 1;
    assert!(unseal(b"secret", "provider key", &changed).is_err());
    assert!(unseal(b"secret", "provider key", &sealed[..10]).is_err());
}

#[test]
fn a_password_of_no_words_is_empty() {
    let config =
        CouponMachineConfig { url: "u".to_string(), realm: "r".to_string(), password_length: 0 };
    let (state, _) = provide_start(&config, &[]);
    match provide(state, data(vec![1, b'9'])).1 {
        ProvideAction::ShowCoupon(coupon) => assert_eq!(coupon, "9-"),
        _ => panic!(),
    }
}

#[test]
fn messages_of_ordinary_length_can_be_taken() {
    let (provider, requester, reply) = redeeming(None, "blob");
    let event = ReceiveEvent::Message(data(reply));
    assert!(can_receive(&requester, &event));
    assert!(can_receive(&requester, &ReceiveEvent::Message(data(vec![9]))));
    assert!(can_provide(&provider, &ProvideEvent::Message(data(framed(&[0; 48])))));
    assert!(can_provide(&provider, &ProvideEvent::Message(None)));
    let ticket = CompactTicket { kind: "blob".to_string(), data: vec![0; 1000] };
    let state = ProvideState::AwaitTicket { secret: vec![1; 32] };
    assert!(can_provide(&state, &ProvideEvent::Ticket(ticket)));
}
