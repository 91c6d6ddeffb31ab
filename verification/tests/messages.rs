use halfcopy::messages::{
    CompactTicket, CouponCreateRequest, CouponCreateResponse, CouponRedeemFinishRequest,
    CouponRedeemFinishedNotice, CouponRedeemStartRequest, CouponRedeemStartResponse,
    CouponRedeemStartedNotice, CouponRedeemStartedResponse, FirstMessage, Hello, CURRENT_PROTO,
};

#[test]
fn hello_has_its_fields_in_order() {
    let hello = Hello { realm: "half".to_string(), proto: 300, message: vec![1, 2, 3] };
    assert_eq!(hello.to_bytes(), vec![4, b'h', b'a', b'l', b'f', 0xac, 0x02, 3, 1, 2, 3]);
}

#[test]
fn hello_is_what_serde_makes_of_it() {
    let hello = Hello {
        realm: "h\u{e9}llo \u{1f980}".to_string(),
        proto: u64::MAX,
        message: vec![7; 300],
    };
    let fields = (hello.realm.clone(), hello.proto, hello.message.clone());
    assert_eq!(hello.to_bytes(), postcard::to_stdvec(&fields).unwrap());
    let back: (String, u64, Vec<u8>) = postcard::from_bytes(&hello.to_bytes()).unwrap();
    assert_eq!(back, fields);
}

#[test]
fn current_version_is_zero() {
    assert_eq!(CURRENT_PROTO, 0);
    let hello = Hello { realm: String::new(), proto: CURRENT_PROTO, message: vec![] };
    assert_eq!(hello.to_bytes(), vec![0, 0, 0]);
}

#[test]
fn requests_are_told_apart_by_their_first_byte() {
    let create = FirstMessage::Create(CouponCreateRequest { pake_message: vec![9, 8] });
    assert_eq!(create.to_bytes(), vec![0, 2, 9, 8]);
    let redeem = FirstMessage::Redeem(CouponRedeemStartRequest {
        header: "7".to_string(),
        pake_message: vec![9, 8],
    });
    assert_eq!(redeem.to_bytes(), vec![1, 1, b'7', 2, 9, 8]);
}

#[test]
fn requests_are_what_serde_makes_of_them() {
    let create: Result<Vec<u8>, (String, Vec<u8>)> = Ok(vec![1; 33]);
    let ours = FirstMessage::Create(CouponCreateRequest { pake_message: vec![1; 33] });
    assert_eq!(ours.to_bytes(), postcard::to_stdvec(&create).unwrap());
    let redeem: Result<Vec<u8>, (String, Vec<u8>)> = Err(("42".to_string(), vec![2; 200]));
    let ours = FirstMessage::Redeem(CouponRedeemStartRequest {
        header: "42".to_string(),
        pake_message: vec![2; 200],
    });
    assert_eq!(ours.to_bytes(), postcard::to_stdvec(&redeem).unwrap());
}

#[test]
fn answers_are_read() {
    let bytes = postcard::to_stdvec("17").unwrap();
    assert_eq!(CouponCreateResponse::from_bytes(&bytes).unwrap().header, "17");
    let bytes = postcard::to_stdvec(&vec![5u8, 6, 7]).unwrap();
    let notice = CouponRedeemStartedNotice::from_bytes(&bytes).unwrap();
    assert_eq!(notice.pake_message, vec![5, 6, 7]);
    let notice = CouponRedeemFinishedNotice::from_bytes(&bytes).unwrap();
    assert_eq!(notice.data_message, vec![5, 6, 7]);
    let bytes = postcard::to_stdvec(&(vec![5u8, 6], vec![7u8; 130])).unwrap();
    let response = CouponRedeemStartResponse::from_bytes(&bytes).unwrap();
    assert_eq!(response.pake_message, vec![5, 6]);
    assert_eq!(response.data_message, vec![7; 130]);
}

#[test]
fn bytes_behind_an_answer_are_passed_over() {
    let bytes = vec![2, b'1', b'7', 0xff, 0xff];
    assert_eq!(CouponCreateResponse::from_bytes(&bytes).unwrap().header, "17");
}

#[test]
fn answers_that_are_cut_short_are_refused() {
    assert!(CouponCreateResponse::from_bytes(&[]).is_err());
    assert!(CouponCreateResponse::from_bytes(&[3, b'1', b'7']).is_err());
    assert!(CouponRedeemStartedNotice::from_bytes(&[2, 1]).is_err());
    assert!(CouponRedeemFinishedNotice::from_bytes(&[0x80]).is_err());
    assert!(CouponRedeemStartResponse::from_bytes(&[1, 5]).is_err());
    assert!(CompactTicket::from_bytes(&[1, b'k', 4, 0]).is_err());
}

#[test]
fn text_that_is_not_text_is_refused() {
    assert!(CouponCreateResponse::from_bytes(&[1, 0xff]).is_err());
    assert!(CompactTicket::from_bytes(&[1, 0xff, 0]).is_err());
}

#[test]
fn lengths_that_are_too_long_are_refused() {
    let mut bytes = vec![0xff; 9];
    bytes.push(0x02);
    assert!(CouponRedeemStartedNotice::from_bytes(&bytes).is_err());
    let bytes = vec![0xff; 20];
    assert!(CouponRedeemStartedNotice::from_bytes(&bytes).is_err());
}

#[test]
fn a_length_may_be_written_with_more_bytes_than_it_needs() {
    let notice = CouponRedeemStartedNotice::from_bytes(&[0x81, 0x00, 9]).unwrap();
    assert_eq!(notice.pake_message, vec![9]);
}

#[test]
fn sealed_messages_are_framed() {
    let response = CouponRedeemStartedResponse { data_message: vec![1, 2] };
    assert_eq!(response.to_bytes(), vec![2, 1, 2]);
    let request = CouponRedeemFinishRequest { data_message: vec![0; 128] };
    let mut expected = vec![0x80, 0x01];
    expected.extend(vec![0; 128]);
    assert_eq!(request.to_bytes(), expected);
}

#[test]
fn tickets_read_back() {
    let ticket = CompactTicket { kind: "blob".to_string(), data: vec![3; 500] };
    let bytes = ticket.to_bytes();
    assert_eq!(bytes, postcard::to_stdvec(&("blob", vec![3u8; 500])).unwrap());
    let back = CompactTicket::from_bytes(&bytes).unwrap();
    assert_eq!(back.kind, "blob");
    assert_eq!(back.data, vec![3; 500]);
}
