use vstd::prelude::*;

verus! {

/// The lifetime actually stored for a session: the provider-reported
/// lifetime, capped by the configured ceiling.
pub open spec fn spec_effective_lifetime(secs: int, ceiling: int) -> int {
    if secs <= ceiling {
        secs
    } else {
        ceiling
    }
}

/// The expiry stored for a session issued or renewed at `now`.
pub open spec fn spec_session_expiry(now: int, secs: int, ceiling: int) -> int {
    now + spec_effective_lifetime(secs, ceiling)
}

/// Caps the provider-reported lifetime (in seconds) by the configured
/// ceiling.
pub fn effective_lifetime(secs: u64, ceiling: i64) -> (r: i64)
    requires
        0 <= ceiling,
    ensures
        r as int == spec_effective_lifetime(secs as int, ceiling as int),
        0 <= r <= ceiling,
        r <= secs,
{
    if secs <= ceiling as u64 {
        secs as i64
    } else {
        ceiling
    }
}

/// The expiry of a session issued or renewed at `now` with the
/// provider-reported lifetime `secs`, capped by `ceiling`.
pub fn session_expiry(now: i64, secs: u64, ceiling: i64) -> (r: i64)
    requires
        0 <= ceiling,
        now + ceiling <= i64::MAX,
    ensures
        r as int == spec_session_expiry(now as int, secs as int, ceiling as int),
        now <= r,
        1 <= secs && 1 <= ceiling ==> now < r,
{
    now + effective_lifetime(secs, ceiling)
}

} // verus!
