use bitwarden_backup::archive::{join_parts, split_archive, HEADER_LEN, TAG_LEN};
use bitwarden_backup::codec::{open, open_with_key, seal, seal_with, seal_with_key, CodecError};

const ITEMS: &[u8] = b"{\"items\":[]}";

#[test]
fn sealed_export_opens_with_right_password_only() {
    let sealed = seal("correct horse", ITEMS).unwrap();
    assert_eq!(open("correct horse", &sealed).unwrap(), ITEMS.to_vec());
    assert_eq!(open("wrong horse", &sealed), Err(CodecError::DecryptionFailed));
}

#[test]
fn round_trip_empty_payload() {
    let sealed = seal("pw", b"").unwrap();
    assert_eq!(sealed.len(), HEADER_LEN + TAG_LEN);
    assert_eq!(open("pw", &sealed).unwrap(), Vec::<u8>::new());
}

#[test]
fn round_trip_binary_payload() {
    let data: Vec<u8> = (0..=255u8).collect();
    let sealed = seal("", &data).unwrap();
    assert_eq!(open("", &sealed).unwrap(), data);
}

#[test]
fn sealed_length_is_header_plus_data_plus_tag() {
    for n in [0usize, 1, 15, 16, 17, 100] {
        let data = vec![7u8; n];
        let sealed = seal("len", &data).unwrap();
        assert_eq!(sealed.len(), 56 + n + 16);
    }
}

#[test]
fn two_seals_differ_but_open_alike() {
    let first = seal("again", ITEMS).unwrap();
    let second = seal("again", ITEMS).unwrap();
    assert_ne!(first, second);
    assert_ne!(first[..32], second[..32]);
    assert_ne!(first[32..56], second[32..56]);
    assert_eq!(open("again", &first).unwrap(), ITEMS.to_vec());
    assert_eq!(open("again", &second).unwrap(), ITEMS.to_vec());
}

#[test]
fn short_archives_are_malformed() {
    for n in [0usize, 1, 32, 55, 56] {
        let bytes = vec![0u8; n];
        assert_eq!(open("pw", &bytes), Err(CodecError::MalformedArchive));
    }
}

#[test]
fn header_with_one_byte_is_not_malformed() {
    let bytes = vec![0u8; 57];
    assert_eq!(open("pw", &bytes), Err(CodecError::DecryptionFailed));
}

#[test]
fn flipped_bits_in_ciphertext_are_refused() {
    let key = [3u8; 32];
    let salt = [1u8; 32];
    let nonce = [2u8; 24];
    let sealed = seal_with_key(&key, &salt, &nonce, ITEMS);
    assert_eq!(open_with_key(&key, &sealed).unwrap(), ITEMS.to_vec());
    for i in HEADER_LEN..sealed.len() {
        for bit in 0..8 {
            let mut tampered = sealed.clone();
            tampered[i] ^= 1 << bit;
            assert_eq!(open_with_key(&key, &tampered), Err(CodecError::DecryptionFailed));
        }
    }
}

#[test]
fn flipped_bit_refused_under_password() {
    let sealed = seal("tamper", ITEMS).unwrap();
    let mut tampered = sealed.clone();
    let last = tampered.len() - 1;
    tampered[last] ^= 0x01;
    assert_eq!(open("tamper", &tampered), Err(CodecError::DecryptionFailed));
    let mut tampered = sealed;
    tampered[HEADER_LEN] ^= 0x80;
    assert_eq!(open("tamper", &tampered), Err(CodecError::DecryptionFailed));
}

#[test]
fn seal_with_fixed_header_is_deterministic() {
    let salt = [9u8; 32];
    let nonce = [4u8; 24];
    let first = seal_with("fixed", ITEMS, &salt, &nonce).unwrap();
    let second = seal_with("fixed", ITEMS, &salt, &nonce).unwrap();
    assert_eq!(first, second);
    assert_eq!(first[..32], salt);
    assert_eq!(first[32..56], nonce);
    assert_eq!(open("fixed", &first).unwrap(), ITEMS.to_vec());
}

#[test]
fn ciphertext_differs_from_plaintext() {
    let key = [5u8; 32];
    let data = vec![0u8; 40];
    let sealed = seal_with_key(&key, &[0u8; 32], &[0u8; 24], &data);
    assert_eq!(sealed.len(), HEADER_LEN + data.len() + TAG_LEN);
    assert_ne!(sealed[HEADER_LEN..], data[..]);
    assert_ne!(sealed[HEADER_LEN + TAG_LEN..], data[..]);
}

#[test]
fn wrong_key_is_refused() {
    let sealed = seal_with_key(&[5u8; 32], &[0u8; 32], &[0u8; 24], ITEMS);
    assert_eq!(open_with_key(&[6u8; 32], &sealed), Err(CodecError::DecryptionFailed));
}

#[test]
fn open_with_key_refuses_short_archive() {
    assert_eq!(open_with_key(&[0u8; 32], &[0u8; 56]), Err(CodecError::MalformedArchive));
}

#[test]
fn join_and_split_agree() {
    let salt = [1u8; 32];
    let nonce = [2u8; 24];
    let body = [3u8, 4, 5];
    let joined = join_parts(&salt, &nonce, &body);
    assert_eq!(joined.len(), 59);
    let parts = split_archive(&joined).unwrap();
    assert_eq!(parts.salt, salt);
    assert_eq!(parts.nonce, nonce);
    assert_eq!(parts.ciphertext, body.to_vec());
    assert!(split_archive(&joined[..56]).is_none());
}
