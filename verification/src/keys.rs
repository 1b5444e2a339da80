//! Session keys: sixteen bytes from OpenSSL's private random generator,
//! written in base64.

use vstd::prelude::*;

verus! {

/// Number of random bytes behind every session key (128 bits).
pub const SESSION_KEY_BYTES: usize = 16;

/// Why a session could not be created.
#[derive(Debug, Clone, Copy, PartialEq, Eq, Structural)]
pub enum SessionError {
    /// The secure random source supplied no usable key: it reported an
    /// error, or it gave a key that names a live session already, which a
    /// sound source of 128 random bits does not do.
    EntropyFailure,
}

/// OpenSSL's error stack, carried from the random generator to the place
/// where it becomes a [`SessionError`]; nothing in it is read.
#[verifier::external_type_specification]
#[verifier::external_body]
pub struct ExErrorStack(openssl::error::ErrorStack);

/// The base64 text that `openssl::base64::encode_block` produces for `bytes`.
pub uninterp spec fn base64_block(bytes: Seq<u8>) -> Seq<char>;

/// `openssl::base64::encode_block` is a function of its input alone; its
/// result is named [`base64_block`]. It panics when the input length, or the
/// output length computed from it, does not fit a C `int`; the bound below
/// keeps clear of both.
pub assume_specification[ openssl::base64::encode_block ](src: &[u8]) -> (encoded: String)
    requires
        src@.len() <= 0x4000_0000,
    ensures
        encoded@ == base64_block(src@),
;

/// `openssl::rand::rand_priv_bytes` overwrites the buffer in place with
/// random bytes or reports OpenSSL's error stack. Nothing is claimed of the
/// bytes, nor of when it succeeds. It panics on a buffer longer than a C
/// `int` can count.
pub assume_specification[ openssl::rand::rand_priv_bytes ](buf: &mut [u8]) -> (r: Result<
    (),
    openssl::error::ErrorStack,
>)
    requires
        old(buf)@.len() <= 0x7fff_ffff,
    ensures
        final(buf)@.len() == old(buf)@.len(),
;

/// Whether `key` is the base64 text of some sixteen bytes.
pub open spec fn is_minted_key(key: Seq<char>) -> bool {
    exists|bytes: Seq<u8>| #[trigger] base64_block(bytes) == key && bytes.len() == SESSION_KEY_BYTES
}

/// The session key that stands for `bytes`.
pub fn key_from_bytes(bytes: &Vec<u8>) -> (key: String)
    requires
        bytes@.len() == SESSION_KEY_BYTES,
    ensures
        key@ == base64_block(bytes@),
        is_minted_key(key@),
{
    openssl::base64::encode_block(bytes.as_slice())
}

/// What becomes of a draw from the random source: where the source filled
/// the buffer, the key that stands for the bytes in it; where it reported an
/// error, the failure, whatever the buffer holds.
pub fn key_from_draw(drawn: Result<(), openssl::error::ErrorStack>, bytes: &Vec<u8>) -> (r: Result<
    String,
    SessionError,
>)
    requires
        bytes@.len() == SESSION_KEY_BYTES,
    ensures
        match r {
            Ok(key) => drawn is Ok && key@ == base64_block(bytes@),
            Err(error) => drawn is Err && error == SessionError::EntropyFailure,
        },
{
    match drawn {
        Ok(()) => Ok(key_from_bytes(bytes)),
        Err(_) => Err(SessionError::EntropyFailure),
    }
}

/// Draws a fresh session key from the secure random source.
///
/// Fails, without falling back to a weaker source, exactly when OpenSSL
/// reports that it could not produce the bytes.
pub fn mint_key() -> (r: Result<String, SessionError>)
    ensures
        r matches Ok(key) ==> is_minted_key(key@),
        r matches Err(e) ==> e == SessionError::EntropyFailure,
{
    let mut bytes: Vec<u8> = vec![0u8; SESSION_KEY_BYTES];
    let drawn = openssl::rand::rand_priv_bytes(bytes.as_mut_slice());
    key_from_draw(drawn, &bytes)
}

} // verus!
