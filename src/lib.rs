//! Password-sealed archives: a payload encrypted under a key derived from a
//! password, framed as salt, nonce and authenticated ciphertext.

pub mod archive;
pub mod codec;
pub mod primitives;
