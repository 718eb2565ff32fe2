//! The current time and fresh ids. Both may be unavailable: a clock set
//! before 1970, or an operating system that cannot supply random bytes.
//! Callers get `None` then and answer with an internal error.

use vstd::prelude::*;
use argon2::password_hash::rand_core::RngCore;
use crate::error::{AppError, AppResult};

verus! {

/// `SystemTime::now().duration_since(UNIX_EPOCH)`, as whole seconds and
/// the nanoseconds past them: `Ok` when the clock reads at or after the
/// Unix epoch, `Err` with how long before it otherwise. The reading depends
/// on the clock; what is stated is that the nanoseconds part is below one
/// second (`Duration::subsec_nanos`).
#[verifier::external_body]
fn system_clock() -> (r: Result<(u64, u32), (u64, u32)>)
    ensures
        match r {
            Ok((_, n)) => n < 1_000_000_000,
            Err((_, n)) => n < 1_000_000_000,
        },
{
    match std::time::SystemTime::now().duration_since(std::time::UNIX_EPOCH) {
        Ok(d) => Ok((d.as_secs(), d.subsec_nanos())),
        Err(e) => Err((e.duration().as_secs(), e.duration().subsec_nanos())),
    }
}

/// The message an operation that needs the clock fails with when the
/// clock reads before the Unix epoch or too far after it.
pub open spec fn clock_unavailable_message() -> Seq<char> {
    "system clock is outside the supported range"@
}

/// The message an operation that needs fresh randomness fails with when
/// the operating system cannot supply it.
pub open spec fn random_unavailable_message() -> Seq<char> {
    "random source unavailable"@
}

/// Whether `e` is the internal error of an unreadable clock or an
/// unavailable random source.
pub open spec fn resource_unavailable(e: AppError) -> bool {
    e matches AppError::Internal(m) && (m@ == clock_unavailable_message() || m@
        == random_unavailable_message())
}

/// Whether `r` failed for want of the clock or the random source.
pub open spec fn unavailable<T>(r: AppResult<T>) -> bool {
    r matches Err(e) && resource_unavailable(e)
}

/// The error of an unreadable clock.
pub(crate) fn clock_unavailable() -> (r: AppError)
    ensures
        r matches AppError::Internal(m) && m@ == clock_unavailable_message(),
{
    AppError::Internal("system clock is outside the supported range".to_owned())
}

/// The error of an unavailable random source.
pub(crate) fn random_unavailable() -> (r: AppError)
    ensures
        r matches AppError::Internal(m) && m@ == random_unavailable_message(),
{
    AppError::Internal("random source unavailable".to_owned())
}

/// The current time in whole seconds since the Unix epoch, when the clock
/// reads between the epoch and ten trillion seconds after it.
pub(crate) fn now_seconds() -> (r: Option<i64>)
    ensures
        r matches Some(t) ==> 0 <= t <= 10_000_000_000_000,
{
    match system_clock() {
        Ok((s, _)) => if s <= 10_000_000_000_000 {
            Some(s as i64)
        } else {
            None
        },
        Err(_) => None,
    }
}

/// The current time in microseconds since the Unix epoch, when the clock
/// reads between the epoch and nine trillion seconds after it.
pub(crate) fn now_micros() -> (r: Option<i64>)
    ensures
        r matches Some(t) ==> t >= 0,
{
    match system_clock() {
        Ok((s, n)) => if s < 9_000_000_000_000 {
            Some((s * 1_000_000 + (n / 1000) as u64) as i64)
        } else {
            None
        },
        Err(_) => None,
    }
}

/// `OsRng.try_fill_bytes` (the operating system's random source, through
/// `rand_core`) into 16 bytes; `None` when the source fails. The bytes are
/// random; nothing is stated of them.
#[verifier::external_body]
pub(crate) fn random_bytes() -> (r: Option<[u8; 16]>) {
    let mut b = [0u8; 16];
    argon2::password_hash::rand_core::OsRng.try_fill_bytes(&mut b).ok().map(|_| b)
}

/// The bits of the version-4 UUID `uuid::Builder::from_random_bytes` makes
/// from the 16 bytes `b`.
pub uninterp spec fn uuid_from_random(b: Seq<u8>) -> u128;

/// `uuid::Builder::from_random_bytes(b).into_uuid()`, as its 128 bits: the
/// bytes, big-endian, with the version set to 4 (random) and the variant
/// to RFC 4122. The result is named `uuid_from_random(b)`.
#[verifier::external_body]
fn uuid_v4(b: [u8; 16]) -> (r: u128)
    ensures
        r == uuid_from_random(b@),
        (r >> 76u128) & 0xf == 4,
        (r >> 62u128) & 0x3 == 2,
{
    uuid::Builder::from_random_bytes(b).into_uuid().as_u128()
}

/// A fresh random (version 4) UUID, as its 128 bits; `None` when the
/// random source fails.
pub(crate) fn new_id() -> (r: Option<u128>)
    ensures
        r matches Some(id) ==> (id >> 76u128) & 0xf == 4 && (id >> 62u128) & 0x3 == 2,
{
    match random_bytes() {
        Some(b) => Some(uuid_v4(b)),
        None => None,
    }
}

} // verus!
