use vstd::prelude::*;

use crate::expiry::{session_expiry, spec_session_expiry};
use crate::profile::UserProfile;
use crate::session::extract_profile;
use crate::store::{CredentialStore, SessionModel};
use crate::store::lemma_users_unchanged;

verus! {

/// What the provider returns for a refresh-token exchange: a new access
/// token and, possibly, its lifetime in seconds.
pub struct TokenRefreshResponse {
    pub access_token: String,
    pub expires_in: Option<u64>,
}

/// What the refresh filter decides ahead of a request.
///
/// `PassThrough` forwards the request unmodified; `Renew` asks for one
/// refresh-token exchange with the provider, to be applied with
/// `apply_refresh`.
pub enum RefreshDecision {
    PassThrough,
    Renew { session_row_id: i32, user_id: i32, refresh_secret: String },
}

/// The read-only half of the refresh filter: decides whether this request
/// needs a silent renewal.
///
/// Renewal is asked for exactly when the cookie decodes to the handle of a
/// stored session that has expired (`expires_at <= now`) and the owning
/// user still has a refresh token. In every other state — no cookie,
/// unknown handle, live session, no refresh token — the request passes
/// through unmodified.
pub fn check_refresh(store: &CredentialStore, decoded_cookie: Option<&String>, now: i64) -> (r:
    RefreshDecision)
    requires
        store@.wf(),
    ensures
        match r {
            RefreshDecision::Renew { session_row_id, user_id, refresh_secret } => {
                &&& decoded_cookie is Some
                &&& store@.has_session_with_handle(decoded_cookie.unwrap()@)
                &&& store@.session_with_handle(decoded_cookie.unwrap()@).id == session_row_id
                    as int
                &&& store@.session_with_handle(decoded_cookie.unwrap()@).user_id == user_id as int
                &&& store@.session_with_handle(decoded_cookie.unwrap()@).expires_at <= now as int
                &&& store@.has_token_for(user_id as int)
                &&& store@.token_for(user_id as int).refresh_token == refresh_secret@
            },
            RefreshDecision::PassThrough => {
                ||| decoded_cookie is None
                ||| !store@.has_session_with_handle(decoded_cookie.unwrap()@)
                ||| store@.session_with_handle(decoded_cookie.unwrap()@).expires_at > now as int
                ||| !store@.has_token_for(
                    store@.session_with_handle(decoded_cookie.unwrap()@).user_id,
                )
            },
        },
{
    let handle = match decoded_cookie {
        Some(h) => h,
        None => {
            return RefreshDecision::PassThrough;
        },
    };
    let session = match store.find_session_by_handle(handle) {
        Some(s) => s,
        None => {
            return RefreshDecision::PassThrough;
        },
    };
    if now < session.expires_at {
        return RefreshDecision::PassThrough;
    }
    let token = match store.find_refresh_token_by_user(session.user_id) {
        Some(t) => t,
        None => {
            return RefreshDecision::PassThrough;
        },
    };
    RefreshDecision::Renew {
        session_row_id: session.id,
        user_id: session.user_id,
        refresh_secret: token.refresh_token.clone(),
    }
}

/// A session renewed in place: the values the filter writes back into the
/// request and the response cookie.
pub struct RenewedSession {
    pub user_id: i32,
    pub handle: String,
    pub expires_at: i64,
}

/// The write half of the refresh filter: applies the provider's answer to
/// the expired session row.
///
/// `provider` is `None` when the exchange failed (rejection or transport);
/// then, or when the provider reports no lifetime, or when the session row
/// is gone, nothing is written and the request passes through as if the
/// session were simply invalid. On success the row keeps its id and owner
/// but carries the new handle and the capped expiry.
pub fn apply_refresh(
    store: &mut CredentialStore,
    session_row_id: i32,
    provider: Option<&TokenRefreshResponse>,
    now: i64,
    ceiling: i64,
) -> (r: Option<RenewedSession>)
    requires
        old(store)@.wf(),
        0 <= ceiling,
        now + ceiling <= i64::MAX,
        match provider {
            Some(t) => forall|i: int|
                0 <= i < old(store)@.sessions.len() && (#[trigger] old(
                    store,
                )@.sessions[i]).session_id == t.access_token@ ==> old(store)@.sessions[i].id
                    == session_row_id as int,
            None => true,
        },
    ensures
        final(store)@.wf(),
        final(store)@.users == old(store)@.users,
        final(store)@.refresh_tokens == old(store)@.refresh_tokens,
        final(store)@.next_id == old(store)@.next_id,
        match r {
            Some(renewed) => {
                &&& provider is Some
                &&& provider.unwrap().expires_in is Some
                &&& old(store)@.has_session_row(session_row_id as int)
                &&& renewed.user_id as int == old(store)@.session_row(
                    session_row_id as int,
                ).user_id
                &&& renewed.handle@ == provider.unwrap().access_token@
                &&& renewed.expires_at as int == spec_session_expiry(
                    now as int,
                    provider.unwrap().expires_in.unwrap() as int,
                    ceiling as int,
                )
                &&& (1 <= provider.unwrap().expires_in.unwrap() && 1 <= ceiling
                    ==> renewed.expires_at > now)
                &&& final(store)@.has_session_with_handle(renewed.handle@)
                &&& final(store)@.session_with_handle(renewed.handle@) == (SessionModel {
                    id: session_row_id as int,
                    user_id: renewed.user_id as int,
                    session_id: renewed.handle@,
                    expires_at: renewed.expires_at as int,
                })
                &&& (forall|s: SessionModel|
                    s.id != session_row_id as int ==> (final(store)@.sessions.contains(s) <==> old(
                        store,
                    )@.sessions.contains(s)))
                &&& (old(store)@.session_row(session_row_id as int).session_id != renewed.handle@
                    ==> !final(store)@.has_session_with_handle(
                    old(store)@.session_row(session_row_id as int).session_id,
                ))
            },
            None => {
                &&& final(store)@.sessions == old(store)@.sessions
                &&& (provider is None || provider.unwrap().expires_in is None || !old(
                    store,
                )@.has_session_row(session_row_id as int))
            },
        },
{
    let response = match provider {
        Some(t) => t,
        None => {
            return None;
        },
    };
    let secs = match response.expires_in {
        Some(s) => s,
        None => {
            return None;
        },
    };
    let new_expires_at = session_expiry(now, secs, ceiling);
    match store.update_session_handle(session_row_id, response.access_token.clone(), new_expires_at)
    {
        Some(owner_id) => Some(
            RenewedSession {
                user_id: owner_id,
                handle: response.access_token.clone(),
                expires_at: new_expires_at,
            },
        ),
        None => None,
    }
}

/// Law: one request through a successful silent renewal. Renewing an
/// expired session and then running the extractor on the very same request
/// authenticates the session's original owner — the caller never
/// re-authenticates — and the renewed row's expiry lies in the future.
pub fn renew_and_extract(
    store: &mut CredentialStore,
    session_row_id: i32,
    provider: &TokenRefreshResponse,
    now: i64,
    ceiling: i64,
) -> (r: Option<UserProfile>)
    requires
        old(store)@.wf(),
        old(store)@.has_session_row(session_row_id as int),
        provider.expires_in is Some,
        1 <= provider.expires_in.unwrap(),
        1 <= ceiling,
        now + ceiling <= i64::MAX,
        forall|i: int|
            0 <= i < old(store)@.sessions.len() && (#[trigger] old(store)@.sessions[i]).session_id
                == provider.access_token@ ==> old(store)@.sessions[i].id == session_row_id as int,
    ensures
        final(store)@.wf(),
        r is Some,
        r.unwrap()@.id == old(store)@.session_row(session_row_id as int).user_id,
        final(store)@.has_session_with_handle(provider.access_token@),
        final(store)@.session_with_handle(provider.access_token@).expires_at > now as int,
        old(store)@.session_row(session_row_id as int).session_id != provider.access_token@
            ==> !final(store)@.has_session_with_handle(
            old(store)@.session_row(session_row_id as int).session_id,
        ),
{
    let ghost pre = old(store)@;
    let renewed = match apply_refresh(store, session_row_id, Some(provider), now, ceiling) {
        Some(renewed) => renewed,
        None => {
            proof {
                assert(false);
            }
            return None;
        },
    };
    proof {
        lemma_users_unchanged(pre, store@);
        assert(pre.has_user(pre.session_row(session_row_id as int).user_id));
    }
    let result = extract_profile(store, Some(&renewed.handle));
    match result {
        Ok(p) => Some(p),
        Err(_) => {
            proof {
                assert(false);
            }
            None
        },
    }
}

} // verus!
