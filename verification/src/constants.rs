use vstd::prelude::*;

verus! {

/// Ceiling on the lifetime of a stored session, in seconds: a session
/// never outlives this, whatever lifetime the provider reports.
pub const ACCESS_TOKEN_EXPIRE_TIME: i64 = 3600;

/// Max-Age handed to the browser on the session cookie, in seconds. The
/// cookie's own expiry is never authoritative: only the session row's is.
pub const ACCESS_COOKIE_EXPIRE_TIME: i64 = 3600;

/// Lifetime of a stored refresh token, in seconds: seven days.
pub const REFRESH_TOKEN_EXPIRE_TIME: i64 = 7 * 86400;

} // verus!
