//! Sealing a payload under a password, and opening it again.
use crate::archive::{
    archive_body, archive_nonce, archive_salt, is_framed, join_parts, read_salt,
    split_archive, HEADER_LEN, TAG_LEN,
};
use crate::primitives::{
    derive_key, derived_key, random_nonce, random_salt, secretbox_of, secretbox_open,
    secretbox_seal,
};
use vstd::prelude::*;

verus! {

/// Why sealing or opening failed. Decryption failure is deliberately one
/// error: a wrong password and a damaged archive look the same.
#[derive(Debug, Clone, Copy, PartialEq, Eq, Structural)]
pub enum CodecError {
    KeyDerivationFailed,
    MalformedArchive,
    DecryptionFailed,
}

/// The bytes of a result, for contracts.
pub open spec fn bytes_of(r: Result<Vec<u8>, CodecError>) -> Result<Seq<u8>, CodecError> {
    match r {
        Ok(v) => Ok(v@),
        Err(e) => Err(e),
    }
}

/// `archive` is a well-framed box of `message` under `key` and the archive's
/// own nonce.
pub open spec fn seals(key: Seq<u8>, archive: Seq<u8>, message: Seq<u8>) -> bool {
    &&& is_framed(archive)
    &&& secretbox_of(message, archive_nonce(archive), key) == archive_body(archive)
}

/// `archive` seals `message` under the key that `password` and the
/// archive's own salt derive.
pub open spec fn sealed_under(password: Seq<char>, archive: Seq<u8>, message: Seq<u8>) -> bool {
    seals(derived_key(password, archive_salt(archive)), archive, message)
}

/// What sealing `data` under `password` may give: an archive that seals it,
/// header and tag longer than the data; or a failed key derivation.
pub open spec fn seal_outcome(
    password: Seq<char>,
    data: Seq<u8>,
    r: Result<Seq<u8>, CodecError>,
) -> bool {
    match r {
        Ok(a) => a.len() == HEADER_LEN + data.len() + TAG_LEN && sealed_under(password, a, data),
        Err(e) => e == CodecError::KeyDerivationFailed,
    }
}

/// What opening `archive` under `password` may give: an archive no longer
/// than its header is malformed and nothing else is; a returned message is the
/// one the archive seals; decryption fails only when the archive seals no
/// message; and when it seals one, that message comes back unless key
/// derivation fails.
pub open spec fn open_outcome(
    password: Seq<char>,
    archive: Seq<u8>,
    r: Result<Seq<u8>, CodecError>,
) -> bool {
    &&& (!is_framed(archive) <==> r == Err::<Seq<u8>, CodecError>(CodecError::MalformedArchive))
    &&& (r matches Ok(m) ==> sealed_under(password, archive, m))
    &&& (r == Err::<Seq<u8>, CodecError>(CodecError::DecryptionFailed) ==> forall|m: Seq<u8>|
        !sealed_under(password, archive, m))
    &&& forall|m: Seq<u8>|
        #![trigger sealed_under(password, archive, m)]
        sealed_under(password, archive, m) ==> r == Ok::<Seq<u8>, CodecError>(m) || r == Err::<
            Seq<u8>,
            CodecError,
        >(CodecError::KeyDerivationFailed)
}

/// Seals `data` under an already derived key, with the given salt and nonce
/// as the header.
pub fn seal_with_key(key: &[u8; 32], salt: &[u8; 32], nonce: &[u8; 24], data: &[u8]) -> (r: Vec<u8>)
    requires
        data@.len() + HEADER_LEN + TAG_LEN <= usize::MAX,
    ensures
        r@ == salt@ + nonce@ + secretbox_of(data@, nonce@, key@),
        r@.len() == HEADER_LEN + data@.len() + TAG_LEN,
        archive_salt(r@) == salt@,
        seals(key@, r@, data@),
{
    let ciphertext = secretbox_seal(data, nonce, key);
    join_parts(salt, nonce, ciphertext.as_slice())
}

/// Seals `data` under `password` with the given salt and nonce. Fails only
/// when key derivation fails.
pub fn seal_with(password: &str, data: &[u8], salt: &[u8; 32], nonce: &[u8; 24]) -> (r: Result<
    Vec<u8>,
    CodecError,
>)
    requires
        data@.len() + HEADER_LEN + TAG_LEN <= usize::MAX,
    ensures
        match r {
            Ok(a) => a@ == salt@ + nonce@ + secretbox_of(
                data@,
                nonce@,
                derived_key(password@, salt@),
            ),
            Err(e) => e == CodecError::KeyDerivationFailed,
        },
        seal_outcome(password@, data@, bytes_of(r)),
{
    match derive_key(password, salt) {
        Some(key) => Ok(seal_with_key(&key, salt, nonce, data)),
        None => Err(CodecError::KeyDerivationFailed),
    }
}

/// Seals `data` under `password` with a fresh random salt and nonce.
pub fn seal(password: &str, data: &[u8]) -> (r: Result<Vec<u8>, CodecError>)
    requires
        data@.len() + HEADER_LEN + TAG_LEN <= usize::MAX,
    ensures
        seal_outcome(password@, data@, bytes_of(r)),
        r matches Ok(a) ==> a@.len() == HEADER_LEN + data@.len() + TAG_LEN,
{
    let salt = random_salt();
    let nonce = random_nonce();
    seal_with(password, data, &salt, &nonce)
}

/// Opens `archive` under an already derived key. An archive no longer than
/// its header is malformed; otherwise the message it seals under `key` comes
/// back, and decryption fails when it seals none.
pub fn open_with_key(key: &[u8; 32], archive: &[u8]) -> (r: Result<Vec<u8>, CodecError>)
    ensures
        !is_framed(archive@) <==> r == Err::<Vec<u8>, CodecError>(CodecError::MalformedArchive),
        r matches Ok(m) ==> seals(key@, archive@, m@),
        r == Err::<Vec<u8>, CodecError>(CodecError::DecryptionFailed) <==> (is_framed(archive@)
            && forall|m: Seq<u8>| !seals(key@, archive@, m)),
        forall|m: Seq<u8>| #[trigger]
            seals(key@, archive@, m) ==> (r matches Ok(x) && x@ == m),
        r != Err::<Vec<u8>, CodecError>(CodecError::KeyDerivationFailed),
{
    match split_archive(archive) {
        None => Err(CodecError::MalformedArchive),
        Some(parts) => match secretbox_open(parts.ciphertext.as_slice(), &parts.nonce, key) {
            Some(m) => {
                assert(seals(key@, archive@, m@));
                Ok(m)
            },
            None => {
                assert forall|m: Seq<u8>| !seals(key@, archive@, m) by {
                    if seals(key@, archive@, m) {
                        assert(secretbox_of(m, parts.nonce@, key@) == parts.ciphertext@);
                    }
                }
                Err(CodecError::DecryptionFailed)
            },
        },
    }
}

/// Opens `archive` under `password`: the key is derived from the password
/// and the archive's salt.
pub fn open(password: &str, archive: &[u8]) -> (r: Result<Vec<u8>, CodecError>)
    ensures
        open_outcome(password@, archive@, bytes_of(r)),
{
    if archive.len() <= HEADER_LEN {
        return Err(CodecError::MalformedArchive);
    }
    let salt = read_salt(archive);
    match derive_key(password, &salt) {
        None => Err(CodecError::KeyDerivationFailed),
        Some(key) => open_with_key(&key, archive),
    }
}

/// Round trip: opening, under the same password, an archive that sealing
/// `data` gave returns `data`, unless key derivation fails. Empty data
/// included.
pub proof fn lemma_round_trip(
    password: Seq<char>,
    data: Seq<u8>,
    archive: Seq<u8>,
    opened: Result<Seq<u8>, CodecError>,
)
    requires
        seal_outcome(password, data, Ok(archive)),
        open_outcome(password, archive, opened),
    ensures
        opened == Ok::<Seq<u8>, CodecError>(data) || opened == Err::<Seq<u8>, CodecError>(
            CodecError::KeyDerivationFailed,
        ),
{
    assert(sealed_under(password, archive, data));
}

/// Two archives sealed from the same data under the same password open to
/// the same content, whatever salt and nonce each drew.
pub proof fn lemma_same_content(
    password: Seq<char>,
    data: Seq<u8>,
    first: Seq<u8>,
    second: Seq<u8>,
    first_opened: Result<Seq<u8>, CodecError>,
    second_opened: Result<Seq<u8>, CodecError>,
)
    requires
        seal_outcome(password, data, Ok(first)),
        seal_outcome(password, data, Ok(second)),
        open_outcome(password, first, first_opened),
        open_outcome(password, second, second_opened),
    ensures
        first_opened is Ok ==> first_opened == Ok::<Seq<u8>, CodecError>(data),
        second_opened is Ok ==> second_opened == Ok::<Seq<u8>, CodecError>(data),
{
    lemma_round_trip(password, data, first, first_opened);
    lemma_round_trip(password, data, second, second_opened);
}

} // verus!
