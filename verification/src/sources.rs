//! What the service takes from outside itself: fresh identifiers and the
//! time. Nothing here is proved; each contract says what the outside
//! function's source shows of every outcome.

use vstd::prelude::*;

verus! {

/// Whether `id` carries the version and variant marks of a random
/// (version 4) UUID.
pub open spec fn is_random_uuid(id: u128) -> bool {
    id & 0xf000_c000_0000_0000_0000u128 == 0x4000_8000_0000_0000_0000u128
}

/// A fresh identifier: what `uuid::Uuid::new_v4` draws, as the number that
/// `Uuid::as_u128` packs its bytes into.
///
/// Trusted: `new_v4` takes 128 random bits and sets the version to 4 and the
/// variant to RFC 9562, which is all that is claimed. Two draws may be equal.
/// It panics only if the operating system gives no random bytes.
#[verifier::external_body]
pub(crate) fn new_id() -> (id: u128)
    ensures
        is_random_uuid(id),
{
    uuid::Uuid::new_v4().as_u128()
}

/// The current time in microseconds since the Unix epoch: what
/// `chrono::Utc::now` reads, through `DateTime::timestamp_micros`.
///
/// Trusted, with nothing claimed of the value. It panics only if the system
/// clock reads a time before the epoch.
#[verifier::external_body]
pub(crate) fn now_micros() -> (now: i64) {
    chrono::Utc::now().timestamp_micros()
}

} // verus!
