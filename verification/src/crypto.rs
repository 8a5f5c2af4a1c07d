//! The trusted boundary: named results and thin wrappers around the
//! outside hashing, threshold-encryption and signature primitives,
//! and around the clock and UTF-8 conversions of std.
//!
//! Keys, signatures and ciphertexts cross this boundary as plain byte
//! strings; everything on the library's side of the boundary is
//! verified against the contracts stated here.
use vstd::prelude::*;

use sha2::Digest;
use threshold_crypto::serde_impl::SerdeSecret;

verus! {

/// The SHA-256 digest of a byte string, named; always 32 bytes.
pub uninterp spec fn sha256_of(bytes: Seq<u8>) -> Seq<u8>;

/// The public key belonging to a serialized secret key, named.
pub uninterp spec fn public_of(sk: Seq<u8>) -> Seq<u8>;

/// Whether a byte string deserializes to a public key, named.
pub uninterp spec fn valid_public(pk: Seq<u8>) -> bool;

/// Whether a byte string deserializes to a secret key, named.
pub uninterp spec fn valid_secret(sk: Seq<u8>) -> bool;

/// What decrypting a serialized ciphertext under a serialized secret
/// key yields, named: decryption is a function of the two alone.
pub uninterp spec fn decryption_of(ct: Seq<u8>, sk: Seq<u8>) -> Option<Seq<u8>>;

/// Whether a serialized ciphertext passes the keyless pairing check,
/// named.
pub uninterp spec fn ct_valid(ct: Seq<u8>) -> bool;

/// The signature a serialized secret key produces over a message,
/// named: signing here is deterministic.
pub uninterp spec fn sig_of(sk: Seq<u8>, msg: Seq<u8>) -> Seq<u8>;

/// Whether a signature verifies under a serialized public key, named.
pub uninterp spec fn sig_valid(pk: Seq<u8>, msg: Seq<u8>, sig: Seq<u8>) -> bool;

/// The UTF-8 encoding of a character sequence, named.
pub uninterp spec fn utf8_of(s: Seq<char>) -> Seq<u8>;

/// Relies on sha2::Sha256: one digest of the whole input, 32 bytes.
#[verifier::external_body]
pub(crate) fn sha256(bytes: &Vec<u8>) -> (r: Vec<u8>)
    ensures
        r@ == sha256_of(bytes@),
        r@.len() == 32,
{
    sha2::Sha256::digest(bytes.as_slice()).to_vec()
}

/// Relies on std::time::SystemTime: milliseconds since the epoch, or
/// zero when the clock stands before it. Nothing is assumed of the
/// value.
#[verifier::external_body]
pub(crate) fn now_millis() -> (r: u64)
{
    match std::time::SystemTime::now().duration_since(std::time::UNIX_EPOCH) {
        Ok(d) => d.as_millis() as u64,
        Err(_) => 0,
    }
}

/// Relies on threshold_crypto::SecretKey::random and public_key: a
/// fresh keypair whose halves match.
#[verifier::external_body]
fn gen_keypair_raw() -> (r: (Vec<u8>, Vec<u8>))
    ensures
        r.0@ == public_of(r.1@),
        valid_public(r.0@),
        valid_secret(r.1@),
{
    let sk = threshold_crypto::SecretKey::random();
    let pk = sk.public_key().to_bytes().to_vec();
    let skb = bincode::serialize(&SerdeSecret(&sk)).expect("secret key serialization");
    (pk, skb)
}

/// Relies on threshold_crypto::SecretKey::public_key: the public key
/// matching a serialized secret key; exactly the byte strings that
/// are no secret key are refused.
#[verifier::external_body]
pub(crate) fn public_key_bytes(sk: &Vec<u8>) -> (r: Option<Vec<u8>>)
    ensures
        r is Some ==> r.unwrap()@ == public_of(sk@),
        valid_secret(sk@) ==> r is Some,
{
    let key: threshold_crypto::SecretKey = match bincode::deserialize(sk.as_slice()) {
        Ok(k) => k,
        Err(_) => return None,
    };
    Some(key.public_key().to_bytes().to_vec())
}

/// Relies on threshold_crypto::PublicKey::encrypt: a fresh randomized
/// encryption. Whatever came back passes the keyless validity check,
/// and every secret key matching the public key decrypts it to the
/// plaintext; a byte string that is no public key is refused.
#[verifier::external_body]
pub(crate) fn encrypt_bytes(plain: &Vec<u8>, pk: &Vec<u8>) -> (r: Option<Vec<u8>>)
    ensures
        r is Some ==> ct_valid(r.unwrap()@),
        r is Some ==> forall|skb: Seq<u8>|
            public_of(skb) == pk@ ==> decryption_of(r.unwrap()@, skb) == Some(plain@),
        valid_public(pk@) ==> r is Some,
{
    let arr: [u8; 48] = match pk.as_slice().try_into() {
        Ok(a) => a,
        Err(_) => return None,
    };
    let key = match threshold_crypto::PublicKey::from_bytes(&arr) {
        Ok(k) => k,
        Err(_) => return None,
    };
    let ct = key.encrypt(plain.as_slice());
    Some(bincode::serialize(&ct).expect("ciphertext serialization"))
}

/// Relies on threshold_crypto::SecretKey::decrypt: deterministic in
/// the ciphertext and key bytes; nothing comes back when either fails
/// to deserialize or the ciphertext fails its validity check.
#[verifier::external_body]
pub(crate) fn decrypt_bytes(ct: &Vec<u8>, sk: &Vec<u8>) -> (r: Option<Vec<u8>>)
    ensures
        r is Some <==> decryption_of(ct@, sk@) is Some,
        r is Some ==> r.unwrap()@ == decryption_of(ct@, sk@).unwrap(),
{
    let key: threshold_crypto::SecretKey = match bincode::deserialize(sk.as_slice()) {
        Ok(k) => k,
        Err(_) => return None,
    };
    let c: threshold_crypto::Ciphertext = match bincode::deserialize(ct.as_slice()) {
        Ok(c) => c,
        Err(_) => return None,
    };
    key.decrypt(&c)
}

/// Relies on threshold_crypto::Ciphertext::verify: the pairing check
/// that needs no key; bytes that are no ciphertext fail it.
#[verifier::external_body]
pub(crate) fn ciphertext_check(ct: &Vec<u8>) -> (r: bool)
    ensures
        r == ct_valid(ct@),
{
    match bincode::deserialize::<threshold_crypto::Ciphertext>(ct.as_slice()) {
        Ok(c) => c.verify(),
        Err(_) => false,
    }
}

/// Relies on threshold_crypto::SecretKey::sign: deterministic, and
/// what it signs verifies under the matching public key; exactly the
/// byte strings that are no secret key are refused.
#[verifier::external_body]
pub(crate) fn sign_bytes(sk: &Vec<u8>, msg: &Vec<u8>) -> (r: Option<Vec<u8>>)
    ensures
        r is Some ==> r.unwrap()@ == sig_of(sk@, msg@),
        r is Some ==> sig_valid(public_of(sk@), msg@, r.unwrap()@),
        valid_secret(sk@) ==> r is Some,
{
    let key: threshold_crypto::SecretKey = match bincode::deserialize(sk.as_slice()) {
        Ok(k) => k,
        Err(_) => return None,
    };
    Some(key.sign(msg.as_slice()).to_bytes().to_vec())
}

/// Relies on threshold_crypto::PublicKey::verify: whether the
/// signature matches the message; malformed keys or signatures fail.
#[verifier::external_body]
pub(crate) fn verify_bytes(pk: &Vec<u8>, msg: &Vec<u8>, sig: &Vec<u8>) -> (r: bool)
    ensures
        r == sig_valid(pk@, msg@, sig@),
{
    let pk_arr: Result<[u8; 48], _> = pk.as_slice().try_into();
    let sig_arr: Result<[u8; 96], _> = sig.as_slice().try_into();
    match (pk_arr, sig_arr) {
        (Ok(p), Ok(s)) => match (
            threshold_crypto::PublicKey::from_bytes(&p),
            threshold_crypto::Signature::from_bytes(&s),
        ) {
            (Ok(key), Ok(sg)) => key.verify(&sg, msg.as_slice()),
            _ => false,
        },
        _ => false,
    }
}

/// Relies on str::as_bytes: the UTF-8 encoding of the string.
#[verifier::external_body]
pub(crate) fn string_to_bytes(s: &String) -> (r: Vec<u8>)
    ensures
        r@ == utf8_of(s@),
{
    s.as_bytes().to_vec()
}

/// Relies on String::from_utf8: the string whose UTF-8 encoding the
/// bytes are, when they are one — the unique one, since no two
/// character sequences share an encoding.
#[verifier::external_body]
pub(crate) fn string_from_utf8(b: &Vec<u8>) -> (r: Option<String>)
    ensures
        r is Some ==> utf8_of(r.unwrap()@) == b@,
        r is Some ==> forall|t: Seq<char>| utf8_of(t) == b@ ==> t == r.unwrap()@,
        (exists|t: Seq<char>| utf8_of(t) == b@) ==> r is Some,
{
    String::from_utf8(b.clone()).ok()
}

/// A fresh keypair as byte strings: the public half matches the
/// secret half, and both halves are well-formed keys.
pub fn gen_keypair() -> (r: (Vec<u8>, Vec<u8>))
    ensures
        r.0@ == public_of(r.1@),
        valid_public(r.0@),
        valid_secret(r.1@),
{
    gen_keypair_raw()
}

} // verus!
