//! The cryptography that a coupon rests on, by way of outside crates: SPAKE2 turns the password
//! into a shared secret, HKDF turns the secret into keys, and ChaCha20-Poly1305 seals messages.
//! Random choices and hexadecimal text stand here too.

use chacha20poly1305::aead::Aead;
use chacha20poly1305::{ChaCha20Poly1305, Key, KeyInit, Nonce};
use rand::seq::SliceRandom;
use rand::Rng;
use spake2::{Ed25519Group, Identity, Password, Spake2};
use vstd::prelude::*;

verus! {

/// The number of bytes in a SPAKE2 message: one for the side that sent it, the rest for a point.
pub const PAKE_MESSAGE_LEN: usize = 33;

/// The first byte of a message of side A.
pub const PAKE_SIDE_A: u8 = 0x41;

/// The first byte of a message of side B.
pub const PAKE_SIDE_B: u8 = 0x42;

/// The number of bytes by which sealing lengthens a message.
pub const TAG_LEN: usize = 16;

/// One side of a SPAKE2 exchange that waits for the other side's message.
#[verifier::external_body]
pub struct Pake {
    inner: Spake2<Ed25519Group>,
}

/// What one side of a SPAKE2 exchange was started with, and the message that it sent.
pub struct PakeStart {
    pub side_a: bool,
    pub password: Seq<u8>,
    pub id_a: Seq<u8>,
    pub id_b: Seq<u8>,
    pub message: Seq<u8>,
}

/// What a waiting side holds.
pub uninterp spec fn pake_start(pake: Pake) -> PakeStart;

/// Whether the bytes of a SPAKE2 message behind its first one are the encoding of a point.
pub uninterp spec fn pake_point(message: Seq<u8>) -> bool;

/// The key that `Spake2::finish` computes. A side's own message determines its secret scalar, so
/// the key depends on nothing but the password, the identities and the two messages; and it is
/// the same key for both sides.
pub uninterp spec fn pake_key(
    password: Seq<u8>,
    id_a: Seq<u8>,
    id_b: Seq<u8>,
    message_a: Seq<u8>,
    message_b: Seq<u8>,
) -> Seq<u8>;

/// Whether `message` has the form of one that the side marked by `side` sends.
pub open spec fn pake_message(side: u8, message: Seq<u8>) -> bool {
    &&& message.len() == PAKE_MESSAGE_LEN
    &&& message[0] == side
    &&& pake_point(message)
}

/// The first byte of the messages of the side that `start` waits for.
pub open spec fn other_side(start: PakeStart) -> u8 {
    if start.side_a {
        PAKE_SIDE_B
    } else {
        PAKE_SIDE_A
    }
}

/// What a side makes of the other side's message: a shared secret, or nothing if the message is
/// not one of the other side.
pub open spec fn pake_secret(start: PakeStart, inbound: Seq<u8>) -> Option<Seq<u8>> {
    if !pake_message(other_side(start), inbound) {
        None
    } else if start.side_a {
        Some(pake_key(start.password, start.id_a, start.id_b, start.message, inbound))
    } else {
        Some(pake_key(start.password, start.id_a, start.id_b, inbound, start.message))
    }
}

/// `spake2`'s own error, carried through unread.
#[verifier::external_type_specification]
#[verifier::external_body]
pub struct ExPakeError(spake2::Error);

/// `Spake2::<Ed25519Group>::start_a`. The message is random; of every outcome it holds that the
/// message has the form of one of side A, and that the waiting side holds the arguments and the
/// message.
#[verifier::external_body]
pub(crate) fn pake_start_a(password: &str, id_a: &str, id_b: &str) -> (r: (Pake, Vec<u8>))
    ensures
        r.1@.len() == PAKE_MESSAGE_LEN,
        r.1@[0] == PAKE_SIDE_A,
        pake_point(r.1@),
        pake_start(r.0) == (PakeStart {
            side_a: true,
            password: vstd::utf8::encode_utf8(password@),
            id_a: vstd::utf8::encode_utf8(id_a@),
            id_b: vstd::utf8::encode_utf8(id_b@),
            message: r.1@,
        }),
{
    let (inner, message) = Spake2::<Ed25519Group>::start_a(
        &Password::new(password),
        &Identity::new(id_a.as_bytes()),
        &Identity::new(id_b.as_bytes()),
    );
    (Pake { inner }, message)
}

/// `Spake2::<Ed25519Group>::start_b`. The message is random; of every outcome it holds that the
/// message has the form of one of side B, and that the waiting side holds the arguments and the
/// message.
#[verifier::external_body]
pub(crate) fn pake_start_b(password: &str, id_a: &str, id_b: &str) -> (r: (Pake, Vec<u8>))
    ensures
        r.1@.len() == PAKE_MESSAGE_LEN,
        r.1@[0] == PAKE_SIDE_B,
        pake_point(r.1@),
        pake_start(r.0) == (PakeStart {
            side_a: false,
            password: vstd::utf8::encode_utf8(password@),
            id_a: vstd::utf8::encode_utf8(id_a@),
            id_b: vstd::utf8::encode_utf8(id_b@),
            message: r.1@,
        }),
{
    let (inner, message) = Spake2::<Ed25519Group>::start_b(
        &Password::new(password),
        &Identity::new(id_a.as_bytes()),
        &Identity::new(id_b.as_bytes()),
    );
    (Pake { inner }, message)
}

/// `Spake2::finish`: it fails exactly on what is not a message of the other side, and otherwise
/// returns the key of the two messages.
#[verifier::external_body]
pub(crate) fn pake_finish(pake: Pake, inbound: &[u8]) -> (r: Result<Vec<u8>, spake2::Error>)
    ensures
        r is Ok <==> (inbound@.len() == PAKE_MESSAGE_LEN && inbound@[0] == other_side(
            pake_start(pake),
        ) && pake_point(inbound@)),
        r matches Ok(key) ==> pake_start(pake).side_a ==> key@ == pake_key(
            pake_start(pake).password,
            pake_start(pake).id_a,
            pake_start(pake).id_b,
            pake_start(pake).message,
            inbound@,
        ),
        r matches Ok(key) ==> !pake_start(pake).side_a ==> key@ == pake_key(
            pake_start(pake).password,
            pake_start(pake).id_a,
            pake_start(pake).id_b,
            inbound@,
            pake_start(pake).message,
        ),
        r matches Ok(key) ==> key@.len() == 32,
{
    pake.inner.finish(inbound)
}

/// What `Hkdf::expand` writes for `info` after an extraction from `secret` without salt, with
/// BLAKE3 as the hash, into a buffer of `len` bytes.
pub uninterp spec fn hkdf_blake3(secret: Seq<u8>, info: Seq<u8>, len: nat) -> Seq<u8>;

/// `hkdf`'s own error, carried through unread.
#[verifier::external_type_specification]
#[verifier::external_body]
pub struct ExHkdfError(hkdf::InvalidLength);

/// `Hkdf::new` without salt, then `Hkdf::expand`: it fails exactly if more than 255 hashes of 32
/// bytes are asked for, and otherwise fills the whole buffer.
#[verifier::external_body]
pub(crate) fn hkdf_expand(secret: &[u8], info: &[u8], len: usize) -> (r: Result<
    Vec<u8>,
    hkdf::InvalidLength,
>)
    ensures
        r is Ok <==> len <= 255 * 32,
        r matches Ok(k) ==> k@ == hkdf_blake3(secret@, info@, len as nat) && k@.len() == len,
{
    let hkdf = hkdf::Hkdf::<blake3::Hasher, hkdf::hmac::SimpleHmac<_>>::new(None, secret);
    let mut okm = vec![0u8; len];
    hkdf.expand(info, &mut okm)?;
    Ok(okm)
}

/// The ciphertext and tag that ChaCha20-Poly1305 makes of `plain`, without associated data.
pub uninterp spec fn aead_seal(key: Seq<u8>, nonce: Seq<u8>, plain: Seq<u8>) -> Seq<u8>;

/// The message that ChaCha20-Poly1305 finds in `sealed`, if its tag is right.
pub uninterp spec fn aead_open(key: Seq<u8>, nonce: Seq<u8>, sealed: Seq<u8>) -> Option<Seq<u8>>;

/// Whether a message is short enough for one key and nonce.
pub open spec fn aead_fits(len: nat) -> bool {
    len / 64 < u32::MAX
}

/// Whether a message of this length is taken for short enough although the key stream ends before
/// the message does: it needs one block more than there is. `chacha20poly1305` panics on it.
pub open spec fn aead_overruns(len: int) -> bool {
    len / 64 == u32::MAX - 1 && len % 64 != 0
}

/// `aead`'s own error, carried through unread.
#[verifier::external_type_specification]
#[verifier::external_body]
pub struct ExAeadError(chacha20poly1305::aead::Error);

/// `ChaCha20Poly1305::encrypt`: it fails exactly on a message that is too long; what it returns
/// is longer than the message by the tag, and decrypts to the message.
#[verifier::external_body]
pub(crate) fn aead_encrypt(key: &[u8], nonce: &[u8], plain: &[u8]) -> (r: Result<
    Vec<u8>,
    chacha20poly1305::aead::Error,
>)
    requires
        key@.len() == 32,
        nonce@.len() == 12,
        !aead_overruns(plain@.len() as int),
    ensures
        r is Ok <==> aead_fits(plain@.len()),
        r matches Ok(sealed) ==> sealed@ == aead_seal(key@, nonce@, plain@),
        r matches Ok(sealed) ==> sealed@.len() == plain@.len() + TAG_LEN,
        r matches Ok(sealed) ==> aead_open(key@, nonce@, sealed@) == Some(plain@),
{
    ChaCha20Poly1305::new(Key::from_slice(key)).encrypt(Nonce::from_slice(nonce), plain)
}

/// `ChaCha20Poly1305::decrypt`: it returns the message if the tag is right and fails otherwise;
/// nothing but the sealed form of a message decrypts to that message.
#[verifier::external_body]
pub(crate) fn aead_decrypt(key: &[u8], nonce: &[u8], sealed: &[u8]) -> (r: Result<
    Vec<u8>,
    chacha20poly1305::aead::Error,
>)
    requires
        key@.len() == 32,
        nonce@.len() == 12,
        !aead_overruns(sealed@.len() - TAG_LEN),
    ensures
        r is Ok <==> aead_open(key@, nonce@, sealed@) is Some,
        r matches Ok(plain) ==> aead_open(key@, nonce@, sealed@) == Some(plain@),
        r matches Ok(plain) ==> sealed@ == aead_seal(key@, nonce@, plain@),
{
    ChaCha20Poly1305::new(Key::from_slice(key)).decrypt(Nonce::from_slice(nonce), sealed)
}

/// Whether 32 bytes are the encoding of a point that can be a node's public key.
pub uninterp spec fn node_key(bytes: Seq<u8>) -> bool;

/// A node's id, which is its public key.
#[verifier::external_type_specification]
#[verifier::external_body]
pub struct ExNodeId(iroh_base::PublicKey);

/// The bytes of a node's id.
pub uninterp spec fn node_bytes(node_id: iroh_base::PublicKey) -> Seq<u8>;

/// `postcard::to_stdvec` on an `iroh_base::NodeId`: it never fails, and writes the 32 bytes of the
/// id, which are a public key.
#[verifier::external_body]
pub(crate) fn encode_node_id(node_id: &iroh_base::PublicKey) -> (r: Result<
    Vec<u8>,
    postcard::Error,
>)
    ensures
        r is Ok,
        r->Ok_0@ == node_bytes(*node_id),
        r->Ok_0@.len() == 32,
        node_key(r->Ok_0@),
{
    postcard::to_stdvec(node_id)
}

/// The node id that `bytes` begin with.
pub open spec fn read_node_id(bytes: Seq<u8>) -> Option<Seq<u8>> {
    if bytes.len() >= 32 && node_key(bytes.take(32)) {
        Some(bytes.take(32))
    } else {
        None
    }
}

/// `postcard::from_bytes` on an `iroh_base::NodeId`: it takes the first 32 bytes, and fails if
/// there are fewer or if they are no public key.
#[verifier::external_body]
pub(crate) fn decode_node_id(bytes: &[u8]) -> (r: Result<[u8; 32], postcard::Error>)
    ensures
        r is Ok <==> (bytes@.len() >= 32 && node_key(bytes@.take(32))),
        r matches Ok(id) ==> id@ == bytes@.take(32),
{
    let id: iroh_base::NodeId = postcard::from_bytes(bytes)?;
    Ok(*id.as_bytes())
}

/// `SliceRandom::choose` with `rand::thread_rng`: some element, or `None` if there is none.
#[verifier::external_body]
pub(crate) fn choose_word(words: &[String]) -> (r: Option<&String>)
    ensures
        r is Some <==> words@.len() > 0,
        r matches Some(word) ==> words@.contains(*word),
{
    words.choose(&mut rand::thread_rng())
}

/// `Rng::gen` with `rand::thread_rng`: any sixteen bytes.
#[verifier::external_body]
pub(crate) fn random_suffix() -> [u8; 16] {
    rand::thread_rng().gen::<[u8; 16]>()
}

/// The hexadecimal digit of a number below sixteen, in lower case.
pub open spec fn hex_digit(n: int) -> char {
    if n < 10 {
        ('0' as u32 + n) as char
    } else {
        ('a' as u32 + n - 10) as char
    }
}

/// The bytes in hexadecimal, two digits to a byte, the high one first.
pub open spec fn hex_text(data: Seq<u8>) -> Seq<char> {
    Seq::new(
        2 * data.len(),
        |i: int|
            if i % 2 == 0 {
                hex_digit(data[i / 2] as int / 16)
            } else {
                hex_digit(data[i / 2] as int % 16)
            },
    )
}

/// `hex::encode`: two lower case hexadecimal digits for each byte.
#[verifier::external_body]
pub(crate) fn hex_encode(data: &[u8]) -> (r: String)
    ensures
        r@ == hex_text(data@),
{
    hex::encode(data)
}

} // verus!
