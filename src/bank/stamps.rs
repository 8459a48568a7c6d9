use vstd::prelude::*;

use time::OffsetDateTime;
use uuid::Uuid;

verus! {

/// Relies on uuid::Uuid::new_v4 and Uuid::as_u128: a random version-4 id, as
/// its 128 bits. Its version and variant bits are set, so it is never the nil
/// id 0; nothing else is promised of the value.
#[verifier::external_body]
pub(crate) fn new_id() -> (r: u128)
    ensures
        r != 0,
{
    Uuid::new_v4().as_u128()
}

/// Relies on time::OffsetDateTime::now_utc and OffsetDateTime::unix_timestamp:
/// the current time, in whole seconds since the Unix epoch. Nothing is promised
/// of the value.
#[verifier::external_body]
pub(crate) fn now() -> (r: i64) {
    OffsetDateTime::now_utc().unix_timestamp()
}

} // verus!
