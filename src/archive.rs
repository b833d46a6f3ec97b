//! The sealed archive layout: salt, then nonce, then ciphertext, with no
//! other framing.
use vstd::prelude::*;

verus! {

/// Bytes of the password salt at the start of an archive.
pub const SALT_LEN: usize = 32;

/// Bytes of the nonce that follows the salt.
pub const NONCE_LEN: usize = 24;

/// Bytes of salt and nonce together: the fixed header of an archive.
pub const HEADER_LEN: usize = SALT_LEN + NONCE_LEN;

/// Bytes by which a ciphertext is longer than its plaintext (the tag).
pub const TAG_LEN: usize = 16;

/// The salt held by an archive.
pub open spec fn archive_salt(archive: Seq<u8>) -> Seq<u8> {
    archive.subrange(0, SALT_LEN as int)
}

/// The nonce held by an archive.
pub open spec fn archive_nonce(archive: Seq<u8>) -> Seq<u8> {
    archive.subrange(SALT_LEN as int, HEADER_LEN as int)
}

/// The ciphertext held by an archive: everything after the header.
pub open spec fn archive_body(archive: Seq<u8>) -> Seq<u8> {
    archive.subrange(HEADER_LEN as int, archive.len() as int)
}

/// An archive is well framed when it holds more than its header.
pub open spec fn is_framed(archive: Seq<u8>) -> bool {
    archive.len() > HEADER_LEN
}

/// The parts of a well-framed archive.
pub struct SealedParts {
    pub salt: [u8; 32],
    pub nonce: [u8; 24],
    pub ciphertext: Vec<u8>,
}

/// Lays out salt, nonce and ciphertext as one archive.
pub fn join_parts(salt: &[u8; 32], nonce: &[u8; 24], ciphertext: &[u8]) -> (r: Vec<u8>)
    ensures
        r@ == salt@ + nonce@ + ciphertext@,
        archive_salt(r@) == salt@,
        archive_nonce(r@) == nonce@,
        archive_body(r@) == ciphertext@,
{
    let mut r: Vec<u8> = Vec::new();
    r.extend_from_slice(salt.as_slice());
    r.extend_from_slice(nonce.as_slice());
    r.extend_from_slice(ciphertext);
    assert(r@ =~= salt@ + nonce@ + ciphertext@);
    assert(archive_salt(r@) =~= salt@);
    assert(archive_nonce(r@) =~= nonce@);
    assert(archive_body(r@) =~= ciphertext@);
    r
}

/// Copies the salt out of an archive that holds at least a header.
pub fn read_salt(archive: &[u8]) -> (r: [u8; 32])
    requires
        archive@.len() >= HEADER_LEN,
    ensures
        r@ == archive_salt(archive@),
{
    let mut r: [u8; 32] = [0u8; 32];
    let mut i: usize = 0;
    while i < SALT_LEN
        invariant
            i <= SALT_LEN,
            archive@.len() >= HEADER_LEN,
            r@.len() == SALT_LEN,
            forall|j: int| 0 <= j < i ==> r@[j] == archive@[j],
        decreases SALT_LEN - i,
    {
        r[i] = archive[i];
        i = i + 1;
    }
    assert(r@ =~= archive_salt(archive@));
    r
}

/// Copies the nonce out of an archive that holds at least a header.
pub fn read_nonce(archive: &[u8]) -> (r: [u8; 24])
    requires
        archive@.len() >= HEADER_LEN,
    ensures
        r@ == archive_nonce(archive@),
{
    let mut r: [u8; 24] = [0u8; 24];
    let mut i: usize = 0;
    while i < NONCE_LEN
        invariant
            i <= NONCE_LEN,
            archive@.len() >= HEADER_LEN,
            r@.len() == NONCE_LEN,
            forall|j: int| 0 <= j < i ==> r@[j] == archive@[SALT_LEN + j],
        decreases NONCE_LEN - i,
    {
        r[i] = archive[SALT_LEN + i];
        i = i + 1;
    }
    assert(r@ =~= archive_nonce(archive@));
    r
}

/// Splits an archive into salt, nonce and ciphertext. An archive no longer
/// than its header is refused, and nothing else is.
pub fn split_archive(archive: &[u8]) -> (r: Option<SealedParts>)
    ensures
        r is Some <==> is_framed(archive@),
        r matches Some(p) ==> {
            &&& p.salt@ == archive_salt(archive@)
            &&& p.nonce@ == archive_nonce(archive@)
            &&& p.ciphertext@ == archive_body(archive@)
        },
{
    if archive.len() <= HEADER_LEN {
        return None;
    }
    let salt = read_salt(archive);
    let nonce = read_nonce(archive);
    let body = vstd::slice::slice_subrange(archive, HEADER_LEN, archive.len());
    let ciphertext = vstd::slice::slice_to_vec(body);
    Some(SealedParts { salt, nonce, ciphertext })
}

} // verus!
