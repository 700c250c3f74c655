use vstd::prelude::*;

use crate::errors::ApiError;
use crate::expiry::{session_expiry, spec_session_expiry};
use crate::store::{CredentialStore, SessionModel, TokenModel};
use crate::store::{lemma_email_gives_user, lemma_sessions_unchanged, lemma_users_unchanged};

verus! {

/// The provider callback's query payload: the one-time authorization code.
pub struct AuthRequest {
    pub code: String,
}

/// The identity the provider reports for an access token.
pub struct OpenIdProfile {
    pub email: String,
    pub name: String,
}

/// What the provider returns for an authorization-code exchange.
pub struct TokenExchangeResponse {
    pub access_token: String,
    pub refresh_token: Option<String>,
    pub expires_in: Option<u64>,
}

/// The outcome of a completed login: what the handler needs to set the
/// cookie and answer the request.
#[derive(Debug)]
pub struct LoginSuccess {
    pub user_id: i32,
    pub session_handle: String,
    pub session_expires_at: i64,
    pub renewable: bool,
}

/// Completes the authorization-code flow once the provider has answered:
/// provisions the user (create-if-absent by email), replaces the user's
/// session with one carrying the provider's access token as handle and an
/// expiry of `now` plus the reported lifetime capped by `ceiling`, and
/// stores the refresh token if the provider returned one.
///
/// A token response without a lifetime is rejected before any write. A
/// missing refresh token is tolerated: the session simply will not be
/// silently renewable (`renewable` reports which).
pub fn complete_login(
    store: &mut CredentialStore,
    token: &TokenExchangeResponse,
    profile: &OpenIdProfile,
    fresh_uuid: u128,
    now: i64,
    ceiling: i64,
    refresh_ttl: i64,
) -> (r: Result<LoginSuccess, ApiError>)
    requires
        old(store)@.wf(),
        old(store)@.next_id + 3 <= i32::MAX,
        0 <= ceiling,
        now + ceiling <= i64::MAX,
        0 <= refresh_ttl,
        now + refresh_ttl <= i64::MAX,
        forall|i: int|
            0 <= i < old(store)@.sessions.len() && (#[trigger] old(store)@.sessions[i]).session_id
                == token.access_token@ ==> old(store)@.has_user_with_email(profile.email@) && old(
                store,
            )@.sessions[i].user_id == old(store)@.user_with_email(profile.email@).id,
    ensures
        final(store)@.wf(),
        r is Ok <==> token.expires_in is Some,
        match r {
            Ok(out) => {
                &&& final(store)@.has_user_with_email(profile.email@)
                &&& out.user_id as int == final(store)@.user_with_email(profile.email@).id
                &&& final(store)@.user_with_email(profile.email@).name == (if old(
                    store,
                )@.has_user_with_email(profile.email@) {
                    old(store)@.user_with_email(profile.email@).name
                } else {
                    profile.name@
                })
                &&& (old(store)@.has_user_with_email(profile.email@) ==> final(store)@.users
                    == old(store)@.users)
                &&& final(store)@.has_session_for(out.user_id as int)
                &&& final(store)@.session_for(out.user_id as int).session_id
                    == token.access_token@
                &&& final(store)@.session_for(out.user_id as int).expires_at
                    == spec_session_expiry(
                    now as int,
                    token.expires_in.unwrap() as int,
                    ceiling as int,
                )
                &&& final(store)@.has_session_with_handle(token.access_token@)
                &&& out.session_handle@ == token.access_token@
                &&& out.session_expires_at as int == spec_session_expiry(
                    now as int,
                    token.expires_in.unwrap() as int,
                    ceiling as int,
                )
                &&& out.renewable == (token.refresh_token is Some)
                &&& (token.refresh_token is Some ==> final(store)@.has_token_for(
                    out.user_id as int,
                ) && final(store)@.token_for(out.user_id as int).refresh_token
                    == token.refresh_token.unwrap()@ && final(store)@.token_for(
                    out.user_id as int,
                ).expires_at == now + refresh_ttl)
                &&& (token.refresh_token is None ==> final(store)@.refresh_tokens == old(
                    store,
                )@.refresh_tokens)
                &&& (forall|s: SessionModel|
                    s.user_id != out.user_id as int ==> (final(store)@.sessions.contains(s) <==>
                    old(store)@.sessions.contains(s)))
                &&& (forall|t: TokenModel|
                    t.user_id != out.user_id as int ==> (final(store)@.refresh_tokens.contains(t)
                        <==> old(store)@.refresh_tokens.contains(t)))
            },
            Err(e) => {
                &&& e == ApiError::MissingExpiry
                &&& final(store)@ == old(store)@
            },
        },
{
    let secs = match token.expires_in {
        Some(s) => s,
        None => {
            return Err(ApiError::MissingExpiry);
        },
    };
    let expires_at = session_expiry(now, secs, ceiling);
    let ghost pre = old(store)@;

    let user_id = store.upsert_user(profile.email.clone(), profile.name.clone(), fresh_uuid, now);
    let ghost m_user = store@;
    proof {
        lemma_email_gives_user(m_user, profile.email@);
        assert(m_user.has_user(user_id as int));
        assert forall|i: int|
            0 <= i < m_user.sessions.len() && (#[trigger] m_user.sessions[i]).session_id
                == token.access_token@ implies m_user.sessions[i].user_id == user_id as int by {
            assert(pre.sessions[i].session_id == token.access_token@);
            assert(pre.has_user_with_email(profile.email@));
            lemma_users_unchanged(pre, m_user);
            assert(m_user.user_with_email(profile.email@) == pre.user_with_email(profile.email@));
        }
    }

    store.upsert_session(user_id, token.access_token.clone(), expires_at);
    let ghost m_session = store@;
    proof {
        lemma_users_unchanged(m_user, m_session);
        assert(m_session.has_user(user_id as int));
    }

    let renewable = match &token.refresh_token {
        Some(secret) => {
            store.upsert_refresh_token(user_id, secret.clone(), now + refresh_ttl);
            proof {
                lemma_sessions_unchanged(m_session, store@);
                lemma_users_unchanged(m_session, store@);
            }
            true
        },
        None => false,
    };

    proof {
        lemma_users_unchanged(m_user, store@);
        assert(store@.user_with_email(profile.email@) == m_user.user_with_email(profile.email@));
    }

    Ok(
        LoginSuccess {
            user_id,
            session_handle: token.access_token.clone(),
            session_expires_at: expires_at,
            renewable,
        },
    )
}

} // verus!
