//! The cryptographic primitives, taken from sodiumoxide: password hashing
//! (scrypt with interactive limits), XSalsa20-Poly1305 secret boxes, and
//! random salts and nonces.
use sodiumoxide::crypto::{pwhash, secretbox};
use vstd::prelude::*;

verus! {

/// The 32-byte key that interactive-cost password hashing derives from a
/// password and a salt.
pub uninterp spec fn derived_key(password: Seq<char>, salt: Seq<u8>) -> Seq<u8>;

/// The authenticated secret box of a message under a nonce and a key:
/// ciphertext with its authentication tag.
pub uninterp spec fn secretbox_of(message: Seq<u8>, nonce: Seq<u8>, key: Seq<u8>) -> Seq<u8>;

/// Relies on `sodiumoxide::crypto::pwhash::gen_salt`: a fresh salt from the
/// system's secure random source.
#[verifier::external_body]
pub(crate) fn random_salt() -> (r: [u8; 32]) {
    pwhash::gen_salt().0
}

/// Relies on `sodiumoxide::crypto::secretbox::gen_nonce`: a fresh nonce from
/// the system's secure random source.
#[verifier::external_body]
pub(crate) fn random_nonce() -> (r: [u8; 24]) {
    secretbox::gen_nonce().0
}

/// Relies on `sodiumoxide::crypto::pwhash::derive_key_interactive`: when the
/// computation completes, the key depends on the password and the salt alone;
/// it fails when the computation cannot complete (memory refused).
#[verifier::external_body]
pub(crate) fn derive_key(password: &str, salt: &[u8; 32]) -> (r: Option<[u8; 32]>)
    ensures
        r matches Some(k) ==> k@ == derived_key(password@, salt@),
{
    let mut key = [0u8; secretbox::KEYBYTES];
    match pwhash::derive_key_interactive(&mut key, password.as_bytes(), &pwhash::Salt(*salt)) {
        Ok(_) => Some(key),
        Err(()) => None,
    }
}

/// Relies on `sodiumoxide::crypto::secretbox::seal`: the box depends on the
/// message, the nonce and the key alone, and is `MACBYTES` (16) bytes longer
/// than the message.
#[verifier::external_body]
pub(crate) fn secretbox_seal(message: &[u8], nonce: &[u8; 24], key: &[u8; 32]) -> (r: Vec<u8>)
    requires
        message@.len() + 16 <= usize::MAX,
    ensures
        r@ == secretbox_of(message@, nonce@, key@),
        r@.len() == message@.len() + 16,
{
    secretbox::seal(message, &secretbox::Nonce(*nonce), &secretbox::Key(*key))
}

/// Relies on `sodiumoxide::crypto::secretbox::open`: it verifies and decrypts,
/// returning the message whose box under this nonce and key is `sealed`, and
/// fails when no message has that box.
#[verifier::external_body]
pub(crate) fn secretbox_open(sealed: &[u8], nonce: &[u8; 24], key: &[u8; 32]) -> (r: Option<Vec<u8>>)
    ensures
        r matches Some(x) ==> secretbox_of(x@, nonce@, key@) == sealed@,
        r matches Some(x) ==> forall|m: Seq<u8>|
            #[trigger] secretbox_of(m, nonce@, key@) == sealed@ ==> m == x@,
        r is None ==> forall|m: Seq<u8>| #[trigger] secretbox_of(m, nonce@, key@) != sealed@,
{
    secretbox::open(sealed, &secretbox::Nonce(*nonce), &secretbox::Key(*key)).ok()
}

} // verus!
