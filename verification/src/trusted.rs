//! The trusted boundary of the library: every call into an outside crate,
//! and into the parts of std that vstd gives no specification, is wrapped
//! here in a function whose contract Verus believes without proof. Each
//! doc comment names the outside function relied on.

use vstd::prelude::*;
use md5::{Digest, Md5};
use std::time::Instant;
use crate::text::{chars_of_bytes, text_is_printable};
use crate::wire::bytes_are_printable_ascii;

verus! {

/// The 16-byte MD5 digest of a byte sequence. The algorithm itself is not
/// restated here; the digest is a function of the input bytes alone.
pub uninterp spec fn md5_of(input: Seq<u8>) -> Seq<u8>;

/// Relies on the `md-5` crate's `Md5::digest` (RFC 1321 MD5): the digest
/// is 16 bytes and depends on the input bytes alone.
#[verifier::external_body]
pub fn md5_digest(input: &Vec<u8>) -> (r: Vec<u8>)
    ensures
        r@ == md5_of(input@),
        r@.len() == 16,
{
    Md5::digest(input.as_slice()).to_vec()
}

/// Relies on `String::from_utf8`: printable ASCII bytes are valid UTF-8,
/// and decode to the characters with those code points, one per byte.
#[verifier::external_body]
pub fn string_of_bytes(bytes: Vec<u8>) -> (r: String)
    requires
        bytes_are_printable_ascii(bytes@),
    ensures
        r@ == chars_of_bytes(bytes@),
{
    match String::from_utf8(bytes) {
        Ok(s) => s,
        Err(_) => String::new(),
    }
}

/// Relies on `rand::random`: a uniformly random `u32` from the thread's
/// generator. Nothing is promised of the value.
#[verifier::external_body]
pub fn random_u32() -> u32 {
    rand::random()
}

/// Relies on `rand::random`: a uniformly random `u8` from the thread's
/// generator. Nothing is promised of the value.
#[verifier::external_body]
pub fn random_u8() -> u8 {
    rand::random()
}

/// Relies on `uuid::Uuid::new_v4` and the hyphenated `Display` form its
/// `to_string` yields: 36 characters, each a lowercase hexadecimal digit
/// or a hyphen — printable ASCII that holds neither `=` nor `*`.
#[verifier::external_body]
pub fn random_task_id() -> (r: String)
    ensures
        r@.len() == 36,
        text_is_printable(r@),
        !r@.contains('='),
        !r@.contains('*'),
{
    uuid::Uuid::new_v4().to_string()
}

/// Relies on `uuid::Uuid::new_v4` and `Uuid::into_bytes`: 16 bytes, of
/// which 122 bits are random. Nothing is promised of their values.
#[verifier::external_body]
pub fn random_challenge() -> (r: Vec<u8>)
    ensures
        r@.len() == 16,
{
    uuid::Uuid::new_v4().into_bytes().to_vec()
}

/// An opaque moment on the monotonic clock.
#[verifier::external_type_specification]
#[verifier::external_body]
pub struct ExInstant(Instant);

/// Relies on `std::time::Instant::now`: the moment of the call, on the
/// monotonic clock.
#[verifier::external_body]
pub fn monotonic_now() -> Instant {
    Instant::now()
}

/// Relies on `std::time::Instant::elapsed`: the whole seconds since
/// `start`, which never decreases between calls. Nothing is promised of
/// the value.
#[verifier::external_body]
pub fn seconds_since(start: &Instant) -> u64 {
    start.elapsed().as_secs()
}

/// Relies on `std::time::SystemTime::now` and
/// `SystemTime::duration_since`: the whole seconds between the Unix epoch
/// and now, or `None` when the system clock is set before the epoch.
#[verifier::external_body]
pub fn unix_time_now() -> Option<u64> {
    match std::time::SystemTime::now().duration_since(std::time::UNIX_EPOCH) {
        Ok(d) => Some(d.as_secs()),
        Err(_) => None,
    }
}

} // verus!
