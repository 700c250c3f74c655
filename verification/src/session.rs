use vstd::prelude::*;

use crate::errors::ApiError;
use crate::profile::UserProfile;
use crate::store::{profile_of, CredentialStore, SessionModel, StoreModel};
use crate::store::{lemma_session_for_selector, lemma_sessions_unchanged};

verus! {

/// The per-request gate ahead of every protected handler: resolves the
/// decoded session cookie to the owning user's profile.
///
/// An absent cookie and an undecodable one look alike here (`None`), and
/// both fail with `Unauthorized`; so does a handle no session carries.
/// Expiry is not checked here: renewal and expiry enforcement happen in
/// the refresh step, ahead of this gate.
pub fn extract_profile(store: &CredentialStore, decoded_cookie: Option<&String>) -> (r: Result<
    UserProfile,
    ApiError,
>)
    requires
        store@.wf(),
    ensures
        match r {
            Ok(p) => {
                &&& decoded_cookie is Some
                &&& store@.has_session_with_handle(decoded_cookie.unwrap()@)
                &&& p@ == profile_of(
                    store@.user(store@.session_with_handle(decoded_cookie.unwrap()@).user_id),
                )
            },
            Err(e) => {
                &&& e == ApiError::Unauthorized
                &&& (decoded_cookie is None || !store@.has_session_with_handle(
                    decoded_cookie.unwrap()@,
                ))
            },
        },
{
    let handle = match decoded_cookie {
        Some(h) => h,
        None => {
            return Err(ApiError::Unauthorized);
        },
    };
    match store.find_user_profile_by_session_handle(handle) {
        Some(p) => Ok(p),
        None => Err(ApiError::Unauthorized),
    }
}

/// Logout: removes both the session and the refresh-token rows of the
/// user. Afterwards nothing in the store authenticates the user's old
/// session handle.
pub fn logout(store: &mut CredentialStore, user_id: i32)
    requires
        old(store)@.wf(),
    ensures
        final(store)@.wf(),
        final(store)@.users == old(store)@.users,
        final(store)@.next_id == old(store)@.next_id,
        !final(store)@.has_session_for(user_id as int),
        !final(store)@.has_token_for(user_id as int),
        forall|s: SessionModel|
            s.user_id != user_id as int ==> (final(store)@.sessions.contains(s) <==> old(
                store,
            )@.sessions.contains(s)),
        forall|t: crate::store::TokenModel|
            t.user_id != user_id as int ==> (final(store)@.refresh_tokens.contains(t) <==> old(
                store,
            )@.refresh_tokens.contains(t)),
        old(store)@.has_session_for(user_id as int) ==> !final(store)@.has_session_with_handle(
            old(store)@.session_for(user_id as int).session_id,
        ),
{
    let ghost pre = old(store)@;
    let _removed_session = store.delete_session(user_id);
    let ghost mid = store@;
    let _removed_token = store.delete_refresh_token(user_id);
    proof {
        lemma_sessions_unchanged(mid, store@);
        if pre.has_session_for(user_id as int) {
            assert(!mid.has_session_with_handle(pre.session_for(user_id as int).session_id));
        }
        if store@.has_session_for(user_id as int) {
            let k = choose|k: int|
                0 <= k < store@.sessions.len() && (#[trigger] store@.sessions[k]).user_id
                    == user_id as int;
            assert(mid.sessions[k].user_id == user_id as int);
            assert(false);
        }
    }
}

/// Law: a session handle names exactly one session — the extractor can
/// never hand back any profile but the handle owner's.
pub proof fn lemma_handle_owner_unique(m: StoreModel, i: int, j: int)
    requires
        m.wf(),
        0 <= i < m.sessions.len(),
        0 <= j < m.sessions.len(),
        m.sessions[i].session_id == m.sessions[j].session_id,
    ensures
        i == j,
        m.sessions[i].user_id == m.sessions[j].user_id,
{
}

/// Law: after logout the user's old session handle authenticates nobody;
/// a later request carrying the old cookie is unauthorized.
pub proof fn lemma_logout_revokes_handle(pre: StoreModel, post: StoreModel, uid: int)
    requires
        pre.wf(),
        pre.has_session_for(uid),
        !post.has_session_for(uid),
        forall|s: SessionModel|
            s.user_id != uid ==> (post.sessions.contains(s) <==> pre.sessions.contains(s)),
    ensures
        !post.has_session_with_handle(pre.session_for(uid).session_id),
{
    let h = pre.session_for(uid).session_id;
    if post.has_session_with_handle(h) {
        let k = choose|k: int|
            0 <= k < post.sessions.len() && (#[trigger] post.sessions[k]).session_id == h;
        let s = post.sessions[k];
        assert(s.user_id != uid);
        assert(post.sessions.contains(s));
        assert(pre.sessions.contains(s));
        let l = choose|l: int| 0 <= l < pre.sessions.len() && pre.sessions[l] == s;
        let i0 = choose|i0: int|
            0 <= i0 < pre.sessions.len() && (#[trigger] pre.sessions[i0]).user_id == uid;
        lemma_session_for_selector(pre, i0);
        assert(pre.sessions[l].session_id == pre.sessions[i0].session_id);
        assert(l == i0);
        assert(false);
    }
}

} // verus!
