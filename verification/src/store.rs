use vstd::prelude::*;

use crate::profile::{UserProfile, UserProfileModel};

verus! {

/// A stored user: a stable identity record, created on first successful
/// login for its email and never deleted by this layer.
pub struct UserRow {
    pub id: i32,
    pub user_id: u128,
    pub email: String,
    pub name: String,
    pub username: Option<String>,
    pub created_at: i64,
    pub updated_at: i64,
}

/// Mathematical image of a `UserRow`.
#[verifier::ext_equal]
pub ghost struct UserModel {
    pub id: int,
    pub user_id: int,
    pub email: Seq<char>,
    pub name: Seq<char>,
    pub username: Option<Seq<char>>,
    pub created_at: int,
    pub updated_at: int,
}

impl View for UserRow {
    type V = UserModel;

    open spec fn view(&self) -> UserModel {
        UserModel {
            id: self.id as int,
            user_id: self.user_id as int,
            email: self.email@,
            name: self.name@,
            username: match self.username {
                Some(u) => Some(u@),
                None => None,
            },
            created_at: self.created_at as int,
            updated_at: self.updated_at as int,
        }
    }
}

/// One active login for a user. The session handle (`session_id`) is the
/// sole way a request authenticates.
pub struct SessionRow {
    pub id: i32,
    pub user_id: i32,
    pub session_id: String,
    pub expires_at: i64,
}

/// Mathematical image of a `SessionRow`.
#[verifier::ext_equal]
pub ghost struct SessionModel {
    pub id: int,
    pub user_id: int,
    pub session_id: Seq<char>,
    pub expires_at: int,
}

impl View for SessionRow {
    type V = SessionModel;

    open spec fn view(&self) -> SessionModel {
        SessionModel {
            id: self.id as int,
            user_id: self.user_id as int,
            session_id: self.session_id@,
            expires_at: self.expires_at as int,
        }
    }
}

/// A long-lived credential used to mint new access tokens without user
/// interaction.
pub struct RefreshTokenRow {
    pub id: i32,
    pub user_id: i32,
    pub refresh_token: String,
    pub expires_at: i64,
}

/// Mathematical image of a `RefreshTokenRow`.
#[verifier::ext_equal]
pub ghost struct TokenModel {
    pub id: int,
    pub user_id: int,
    pub refresh_token: Seq<char>,
    pub expires_at: int,
}

impl View for RefreshTokenRow {
    type V = TokenModel;

    open spec fn view(&self) -> TokenModel {
        TokenModel {
            id: self.id as int,
            user_id: self.user_id as int,
            refresh_token: self.refresh_token@,
            expires_at: self.expires_at as int,
        }
    }
}

/// The profile built from a user row (the extractor's join result).
pub open spec fn profile_of(u: UserModel) -> UserProfileModel {
    UserProfileModel {
        id: u.id,
        user_id: u.user_id,
        email: u.email,
        name: u.name,
        username: u.username,
        created_at: u.created_at,
        updated_at: u.updated_at,
    }
}

/// Mathematical state of the credential store: the three persisted
/// relations, plus the next fresh row id.
#[verifier::ext_equal]
pub ghost struct StoreModel {
    pub users: Seq<UserModel>,
    pub sessions: Seq<SessionModel>,
    pub refresh_tokens: Seq<TokenModel>,
    pub next_id: int,
}

impl StoreModel {
    /// Some user row carries this id.
    pub open spec fn has_user(self, uid: int) -> bool {
        exists|i: int| 0 <= i < self.users.len() && (#[trigger] self.users[i]).id == uid
    }

    /// The user row carrying this id (unique under `wf`).
    pub open spec fn user(self, uid: int) -> UserModel {
        self.users[choose|i: int| 0 <= i < self.users.len() && (#[trigger] self.users[i]).id
            == uid]
    }

    /// Some user row carries this email.
    pub open spec fn has_user_with_email(self, email: Seq<char>) -> bool {
        exists|i: int| 0 <= i < self.users.len() && (#[trigger] self.users[i]).email == email
    }

    /// The user row carrying this email (unique under `wf`).
    pub open spec fn user_with_email(self, email: Seq<char>) -> UserModel {
        self.users[choose|i: int|
            0 <= i < self.users.len() && (#[trigger] self.users[i]).email == email]
    }

    /// Some session row carries this handle.
    pub open spec fn has_session_with_handle(self, handle: Seq<char>) -> bool {
        exists|i: int|
            0 <= i < self.sessions.len() && (#[trigger] self.sessions[i]).session_id == handle
    }

    /// The session row carrying this handle (unique under `wf`).
    pub open spec fn session_with_handle(self, handle: Seq<char>) -> SessionModel {
        self.sessions[choose|i: int|
            0 <= i < self.sessions.len() && (#[trigger] self.sessions[i]).session_id == handle]
    }

    /// Some session row belongs to this user.
    pub open spec fn has_session_for(self, uid: int) -> bool {
        exists|i: int|
            0 <= i < self.sessions.len() && (#[trigger] self.sessions[i]).user_id == uid
    }

    /// The session row of this user (unique under `wf`).
    pub open spec fn session_for(self, uid: int) -> SessionModel {
        self.sessions[choose|i: int|
            0 <= i < self.sessions.len() && (#[trigger] self.sessions[i]).user_id == uid]
    }

    /// Some session row carries this row id.
    pub open spec fn has_session_row(self, sid: int) -> bool {
        exists|i: int| 0 <= i < self.sessions.len() && (#[trigger] self.sessions[i]).id == sid
    }

    /// The session row carrying this row id (unique under `wf`).
    pub open spec fn session_row(self, sid: int) -> SessionModel {
        self.sessions[choose|i: int|
            0 <= i < self.sessions.len() && (#[trigger] self.sessions[i]).id == sid]
    }

    /// Some refresh-token row belongs to this user.
    pub open spec fn has_token_for(self, uid: int) -> bool {
        exists|i: int|
            0 <= i < self.refresh_tokens.len() && (#[trigger] self.refresh_tokens[i]).user_id
                == uid
    }

    /// The refresh-token row of this user (unique under `wf`).
    pub open spec fn token_for(self, uid: int) -> TokenModel {
        self.refresh_tokens[choose|i: int|
            0 <= i < self.refresh_tokens.len() && (#[trigger] self.refresh_tokens[i]).user_id
                == uid]
    }

    /// Users: ids and emails are unique, and every id is in the issued range.
    pub open spec fn users_wf(self) -> bool {
        &&& (forall|i: int, j: int|
            0 <= i < self.users.len() && 0 <= j < self.users.len() && i != j ==> (
            #[trigger] self.users[i]).id != (#[trigger] self.users[j]).id && self.users[i].email
                != self.users[j].email)
        &&& (forall|i: int|
            0 <= i < self.users.len() ==> (#[trigger] self.users[i]).id < self.next_id)
    }

    /// Sessions: at most one per user, handles and row ids unique, ids in
    /// the issued range, and every session's owner exists.
    pub open spec fn sessions_wf(self) -> bool {
        &&& (forall|i: int, j: int|
            0 <= i < self.sessions.len() && 0 <= j < self.sessions.len() && i != j ==> (
            #[trigger] self.sessions[i]).id != (#[trigger] self.sessions[j]).id
                && self.sessions[i].user_id != self.sessions[j].user_id
                && self.sessions[i].session_id != self.sessions[j].session_id)
        &&& (forall|i: int|
            0 <= i < self.sessions.len() ==> (#[trigger] self.sessions[i]).id < self.next_id
                && self.has_user(self.sessions[i].user_id))
    }

    /// Refresh tokens: at most one per user, row ids unique and in range.
    pub open spec fn tokens_wf(self) -> bool {
        &&& (forall|i: int, j: int|
            0 <= i < self.refresh_tokens.len() && 0 <= j < self.refresh_tokens.len() && i != j
                ==> (#[trigger] self.refresh_tokens[i]).id != (
            #[trigger] self.refresh_tokens[j]).id && self.refresh_tokens[i].user_id
                != self.refresh_tokens[j].user_id)
        &&& (forall|i: int|
            0 <= i < self.refresh_tokens.len() ==> (#[trigger] self.refresh_tokens[i]).id
                < self.next_id)
    }

    /// The store's invariant: every constructor establishes it and every
    /// operation preserves it.
    pub open spec fn wf(self) -> bool {
        &&& self.users_wf()
        &&& self.sessions_wf()
        &&& self.tokens_wf()
    }
}

/// Two user rows carrying the same id are the same row.
pub proof fn lemma_user_selector(m: StoreModel, i: int)
    requires
        m.wf(),
        0 <= i < m.users.len(),
    ensures
        m.has_user(m.users[i].id),
        m.user(m.users[i].id) == m.users[i],
{
    let uid = m.users[i].id;
    assert(m.has_user(uid));
    let k = choose|k: int| 0 <= k < m.users.len() && (#[trigger] m.users[k]).id == uid;
    assert(k == i);
}

/// Two user rows carrying the same email are the same row.
pub proof fn lemma_email_selector(m: StoreModel, i: int)
    requires
        m.wf(),
        0 <= i < m.users.len(),
    ensures
        m.has_user_with_email(m.users[i].email),
        m.user_with_email(m.users[i].email) == m.users[i],
{
    let email = m.users[i].email;
    assert(m.has_user_with_email(email));
    let k = choose|k: int| 0 <= k < m.users.len() && (#[trigger] m.users[k]).email == email;
    assert(k == i);
}

/// Two session rows carrying the same handle are the same row: a handle
/// never authenticates two different users.
pub proof fn lemma_handle_selector(m: StoreModel, i: int)
    requires
        m.wf(),
        0 <= i < m.sessions.len(),
    ensures
        m.has_session_with_handle(m.sessions[i].session_id),
        m.session_with_handle(m.sessions[i].session_id) == m.sessions[i],
{
    let h = m.sessions[i].session_id;
    assert(m.has_session_with_handle(h));
    let k = choose|k: int|
        0 <= k < m.sessions.len() && (#[trigger] m.sessions[k]).session_id == h;
    assert(k == i);
}

/// Two session rows of the same user are the same row.
pub proof fn lemma_session_for_selector(m: StoreModel, i: int)
    requires
        m.wf(),
        0 <= i < m.sessions.len(),
    ensures
        m.has_session_for(m.sessions[i].user_id),
        m.session_for(m.sessions[i].user_id) == m.sessions[i],
{
    let uid = m.sessions[i].user_id;
    assert(m.has_session_for(uid));
    let k = choose|k: int| 0 <= k < m.sessions.len() && (#[trigger] m.sessions[k]).user_id
        == uid;
    assert(k == i);
}

/// Two session rows carrying the same row id are the same row.
pub proof fn lemma_session_row_selector(m: StoreModel, i: int)
    requires
        m.wf(),
        0 <= i < m.sessions.len(),
    ensures
        m.has_session_row(m.sessions[i].id),
        m.session_row(m.sessions[i].id) == m.sessions[i],
{
    let sid = m.sessions[i].id;
    assert(m.has_session_row(sid));
    let k = choose|k: int| 0 <= k < m.sessions.len() && (#[trigger] m.sessions[k]).id == sid;
    assert(k == i);
}

/// Two refresh-token rows of the same user are the same row.
pub proof fn lemma_token_for_selector(m: StoreModel, i: int)
    requires
        m.wf(),
        0 <= i < m.refresh_tokens.len(),
    ensures
        m.has_token_for(m.refresh_tokens[i].user_id),
        m.token_for(m.refresh_tokens[i].user_id) == m.refresh_tokens[i],
{
    let uid = m.refresh_tokens[i].user_id;
    assert(m.has_token_for(uid));
    let k = choose|k: int|
        0 <= k < m.refresh_tokens.len() && (#[trigger] m.refresh_tokens[k]).user_id == uid;
    assert(k == i);
}

/// The user found by email is also found by its id, and is the same row.
pub proof fn lemma_email_gives_user(m: StoreModel, email: Seq<char>)
    requires
        m.wf(),
        m.has_user_with_email(email),
    ensures
        m.has_user(m.user_with_email(email).id),
        m.user(m.user_with_email(email).id) == m.user_with_email(email),
{
    let k = choose|k: int| 0 <= k < m.users.len() && (#[trigger] m.users[k]).email == email;
    lemma_email_selector(m, k);
    lemma_user_selector(m, k);
}

/// `has_user` and `user` read only the user relation.
pub proof fn lemma_users_unchanged(m1: StoreModel, m2: StoreModel)
    requires
        m1.wf(),
        m2.users == m1.users,
    ensures
        forall|uid: int|
            m1.has_user(uid) ==> m2.has_user(uid) && m2.user(uid) == m1.user(uid),
        forall|email: Seq<char>|
            m1.has_user_with_email(email) ==> m2.has_user_with_email(email)
                && m2.user_with_email(email) == m1.user_with_email(email),
{
    assert forall|uid: int| m1.has_user(uid) implies m2.has_user(uid) && m2.user(uid) == m1.user(
        uid,
    ) by {
        let k1 = choose|k: int| 0 <= k < m1.users.len() && (#[trigger] m1.users[k]).id == uid;
        assert(m2.users[k1].id == uid);
        assert(m2.has_user(uid));
        let k2 = choose|k: int| 0 <= k < m2.users.len() && (#[trigger] m2.users[k]).id == uid;
        assert(m1.users[k2].id == uid);
        assert(k1 == k2);
    }
    assert forall|email: Seq<char>| m1.has_user_with_email(email) implies m2.has_user_with_email(
        email,
    ) && m2.user_with_email(email) == m1.user_with_email(email) by {
        let k1 = choose|k: int|
            0 <= k < m1.users.len() && (#[trigger] m1.users[k]).email == email;
        assert(m2.users[k1].email == email);
        assert(m2.has_user_with_email(email));
        let k2 = choose|k: int|
            0 <= k < m2.users.len() && (#[trigger] m2.users[k]).email == email;
        assert(m1.users[k2].email == email);
        assert(k1 == k2);
    }
}

/// The session selectors read only the session relation.
pub proof fn lemma_sessions_unchanged(m1: StoreModel, m2: StoreModel)
    requires
        m1.wf(),
        m2.sessions == m1.sessions,
    ensures
        forall|h: Seq<char>|
            m1.has_session_with_handle(h) ==> m2.has_session_with_handle(h)
                && m2.session_with_handle(h) == m1.session_with_handle(h),
        forall|uid: int|
            m1.has_session_for(uid) ==> m2.has_session_for(uid) && m2.session_for(uid)
                == m1.session_for(uid),
        forall|sid: int|
            m1.has_session_row(sid) ==> m2.has_session_row(sid) && m2.session_row(sid)
                == m1.session_row(sid),
        forall|h: Seq<char>| m2.has_session_with_handle(h) ==> m1.has_session_with_handle(h),
{
    assert forall|h: Seq<char>| m1.has_session_with_handle(h) implies m2.has_session_with_handle(
        h,
    ) && m2.session_with_handle(h) == m1.session_with_handle(h) by {
        let k1 = choose|k: int|
            0 <= k < m1.sessions.len() && (#[trigger] m1.sessions[k]).session_id == h;
        assert(m2.sessions[k1].session_id == h);
        assert(m2.has_session_with_handle(h));
        let k2 = choose|k: int|
            0 <= k < m2.sessions.len() && (#[trigger] m2.sessions[k]).session_id == h;
        assert(m1.sessions[k2].session_id == h);
        assert(k1 == k2);
    }
    assert forall|uid: int| m1.has_session_for(uid) implies m2.has_session_for(uid)
        && m2.session_for(uid) == m1.session_for(uid) by {
        let k1 = choose|k: int|
            0 <= k < m1.sessions.len() && (#[trigger] m1.sessions[k]).user_id == uid;
        assert(m2.sessions[k1].user_id == uid);
        assert(m2.has_session_for(uid));
        let k2 = choose|k: int|
            0 <= k < m2.sessions.len() && (#[trigger] m2.sessions[k]).user_id == uid;
        assert(m1.sessions[k2].user_id == uid);
        assert(k1 == k2);
    }
    assert forall|sid: int| m1.has_session_row(sid) implies m2.has_session_row(sid)
        && m2.session_row(sid) == m1.session_row(sid) by {
        let k1 = choose|k: int|
            0 <= k < m1.sessions.len() && (#[trigger] m1.sessions[k]).id == sid;
        assert(m2.sessions[k1].id == sid);
        assert(m2.has_session_row(sid));
        let k2 = choose|k: int|
            0 <= k < m2.sessions.len() && (#[trigger] m2.sessions[k]).id == sid;
        assert(m1.sessions[k2].id == sid);
        assert(k1 == k2);
    }
    assert forall|h: Seq<char>| m2.has_session_with_handle(h) implies m1.has_session_with_handle(
        h,
    ) by {
        let k2 = choose|k: int|
            0 <= k < m2.sessions.len() && (#[trigger] m2.sessions[k]).session_id == h;
        assert(m1.sessions[k2].session_id == h);
    }
}

/// The persisted relations for users, sessions and refresh tokens. Every
/// read and write of the authentication core goes through it.
pub struct CredentialStore {
    users: Vec<UserRow>,
    sessions: Vec<SessionRow>,
    refresh_tokens: Vec<RefreshTokenRow>,
    next_id: i32,
}

impl View for CredentialStore {
    type V = StoreModel;

    closed spec fn view(&self) -> StoreModel {
        StoreModel {
            users: self.users@.map_values(|r: UserRow| r@),
            sessions: self.sessions@.map_values(|r: SessionRow| r@),
            refresh_tokens: self.refresh_tokens@.map_values(|r: RefreshTokenRow| r@),
            next_id: self.next_id as int,
        }
    }
}

impl CredentialStore {
    /// An empty store.
    pub fn new() -> (s: CredentialStore)
        ensures
            s@.wf(),
            s@.users.len() == 0,
            s@.sessions.len() == 0,
            s@.refresh_tokens.len() == 0,
            s@.next_id == 1,
    {
        CredentialStore {
            users: Vec::new(),
            sessions: Vec::new(),
            refresh_tokens: Vec::new(),
            next_id: 1,
        }
    }

    /// Whether the store can still issue the row ids one login may need
    /// (one user, one session, one refresh token).
    pub fn can_provision(&self) -> (r: bool)
        ensures
            r == (self@.next_id + 3 <= i32::MAX),
    {
        self.next_id <= i32::MAX - 3
    }

    /// Looks a user up by id.
    fn find_user_by_id(&self, uid: i32) -> (r: Option<&UserRow>)
        requires
            self@.wf(),
        ensures
            match r {
                Some(u) => self@.has_user(uid as int) && u@ == self@.user(uid as int),
                None => !self@.has_user(uid as int),
            },
    {
        let n = self.users.len();
        for i in 0..n
            invariant
                n == self.users.len(),
                self@.wf(),
                forall|k: int| 0 <= k < i ==> (#[trigger] self@.users[k]).id != uid as int,
        {
            proof {
                assert(self@.users[i as int] == self.users@[i as int]@);
            }
            if self.users[i].id == uid {
                proof {
                    lemma_user_selector(self@, i as int);
                }
                return Some(&self.users[i]);
            }
        }
        None
    }

    /// Looks a user up by its unique email.
    fn find_user_by_email(&self, email: &String) -> (r: Option<&UserRow>)
        requires
            self@.wf(),
        ensures
            match r {
                Some(u) => self@.has_user_with_email(email@) && u@ == self@.user_with_email(
                    email@,
                ),
                None => !self@.has_user_with_email(email@),
            },
    {
        let n = self.users.len();
        for i in 0..n
            invariant
                n == self.users.len(),
                self@.wf(),
                forall|k: int| 0 <= k < i ==> (#[trigger] self@.users[k]).email != email@,
        {
            proof {
                assert(self@.users[i as int] == self.users@[i as int]@);
            }
            if self.users[i].email == *email {
                proof {
                    lemma_email_selector(self@, i as int);
                }
                return Some(&self.users[i]);
            }
        }
        None
    }

    /// Looks a session up by its handle; absence is an outcome, not an
    /// error.
    pub fn find_session_by_handle(&self, handle: &String) -> (r: Option<&SessionRow>)
        requires
            self@.wf(),
        ensures
            match r {
                Some(s) => self@.has_session_with_handle(handle@) && s@
                    == self@.session_with_handle(handle@),
                None => !self@.has_session_with_handle(handle@),
            },
    {
        let n = self.sessions.len();
        for i in 0..n
            invariant
                n == self.sessions.len(),
                self@.wf(),
                forall|k: int|
                    0 <= k < i ==> (#[trigger] self@.sessions[k]).session_id != handle@,
        {
            proof {
                assert(self@.sessions[i as int] == self.sessions@[i as int]@);
            }
            if self.sessions[i].session_id == *handle {
                proof {
                    lemma_handle_selector(self@, i as int);
                }
                return Some(&self.sessions[i]);
            }
        }
        None
    }

    /// Looks the refresh token of a user up; absence is an outcome, not an
    /// error.
    pub fn find_refresh_token_by_user(&self, uid: i32) -> (r: Option<&RefreshTokenRow>)
        requires
            self@.wf(),
        ensures
            match r {
                Some(t) => self@.has_token_for(uid as int) && t@ == self@.token_for(uid as int),
                None => !self@.has_token_for(uid as int),
            },
    {
        let n = self.refresh_tokens.len();
        for i in 0..n
            invariant
                n == self.refresh_tokens.len(),
                self@.wf(),
                forall|k: int|
                    0 <= k < i ==> (#[trigger] self@.refresh_tokens[k]).user_id != uid as int,
        {
            proof {
                assert(self@.refresh_tokens[i as int] == self.refresh_tokens@[i as int]@);
            }
            if self.refresh_tokens[i].user_id == uid {
                proof {
                    lemma_token_for_selector(self@, i as int);
                }
                return Some(&self.refresh_tokens[i]);
            }
        }
        None
    }

    /// The index of the session row of a user, if any.
    fn session_index_for_user(&self, uid: i32) -> (r: Option<usize>)
        ensures
            match r {
                Some(i) => i < self@.sessions.len() && self@.sessions[i as int].user_id == uid
                    as int,
                None => !self@.has_session_for(uid as int),
            },
    {
        let n = self.sessions.len();
        for i in 0..n
            invariant
                n == self.sessions.len(),
                forall|k: int| 0 <= k < i ==> (#[trigger] self@.sessions[k]).user_id != uid as int,
        {
            proof {
                assert(self@.sessions[i as int] == self.sessions@[i as int]@);
            }
            if self.sessions[i].user_id == uid {
                return Some(i);
            }
        }
        None
    }

    /// The index of the session row with a row id, if any.
    fn session_index_by_row_id(&self, sid: i32) -> (r: Option<usize>)
        ensures
            match r {
                Some(i) => i < self@.sessions.len() && self@.sessions[i as int].id == sid as int,
                None => !self@.has_session_row(sid as int),
            },
    {
        let n = self.sessions.len();
        for i in 0..n
            invariant
                n == self.sessions.len(),
                forall|k: int| 0 <= k < i ==> (#[trigger] self@.sessions[k]).id != sid as int,
        {
            proof {
                assert(self@.sessions[i as int] == self.sessions@[i as int]@);
            }
            if self.sessions[i].id == sid {
                return Some(i);
            }
        }
        None
    }

    /// The index of the refresh-token row of a user, if any.
    fn token_index_for_user(&self, uid: i32) -> (r: Option<usize>)
        ensures
            match r {
                Some(i) => i < self@.refresh_tokens.len() && self@.refresh_tokens[i as int].user_id
                    == uid as int,
                None => !self@.has_token_for(uid as int),
            },
    {
        let n = self.refresh_tokens.len();
        for i in 0..n
            invariant
                n == self.refresh_tokens.len(),
                forall|k: int|
                    0 <= k < i ==> (#[trigger] self@.refresh_tokens[k]).user_id != uid as int,
        {
            proof {
                assert(self@.refresh_tokens[i as int] == self.refresh_tokens@[i as int]@);
            }
            if self.refresh_tokens[i].user_id == uid {
                return Some(i);
            }
        }
        None
    }

    /// Creates the user for an email if none exists yet, and returns the
    /// owning user's id. An existing row is left as it is.
    pub fn upsert_user(&mut self, email: String, name: String, fresh_uuid: u128, now: i64) -> (r:
        i32)
        requires
            old(self)@.wf(),
            old(self)@.next_id < i32::MAX,
        ensures
            final(self)@.wf(),
            final(self)@.sessions == old(self)@.sessions,
            final(self)@.refresh_tokens == old(self)@.refresh_tokens,
            final(self)@.has_user_with_email(email@),
            r as int == final(self)@.user_with_email(email@).id,
            old(self)@.has_user_with_email(email@) ==> final(self)@.users == old(self)@.users
                && final(self)@.next_id == old(self)@.next_id,
            !old(self)@.has_user_with_email(email@) ==> final(self)@.users == old(self)@.users.push(
                (UserModel {
                    id: old(self)@.next_id,
                    user_id: fresh_uuid as int,
                    email: email@,
                    name: name@,
                    username: None,
                    created_at: now as int,
                    updated_at: now as int,
                }),
            ) && final(self)@.next_id == old(self)@.next_id + 1,
            final(self)@.next_id <= old(self)@.next_id + 1,
            old(self)@.next_id <= final(self)@.next_id,
            old(self)@.has_user_with_email(email@) ==> final(self)@.user_with_email(email@)
                == old(self)@.user_with_email(email@),
            !old(self)@.has_user_with_email(email@) ==> final(self)@.user_with_email(email@)
                == (UserModel {
                id: old(self)@.next_id,
                user_id: fresh_uuid as int,
                email: email@,
                name: name@,
                username: None,
                created_at: now as int,
                updated_at: now as int,
            }),
            forall|uid: int| old(self)@.has_user(uid) ==> final(self)@.has_user(uid) && final(self)@.user(uid) == old(self)@.user(uid),
    {
        match self.find_user_by_email(&email) {
            Some(u) => u.id,
            None => {
                let id = self.next_id;
                self.next_id = self.next_id + 1;
                let row = UserRow {
                    id,
                    user_id: fresh_uuid,
                    email,
                    name,
                    username: None,
                    created_at: now,
                    updated_at: now,
                };
                let ghost pre = old(self)@;
                self.users.push(row);
                proof {
                    let m = self@;
                    assert(m.users =~= pre.users.push(
                        (UserModel {
                            id: pre.next_id,
                            user_id: fresh_uuid as int,
                            email: email@,
                            name: name@,
                            username: None,
                            created_at: now as int,
                            updated_at: now as int,
                        }),
                    ));
                    assert(m.sessions =~= pre.sessions);
                    assert(m.refresh_tokens =~= pre.refresh_tokens);
                    let nlen = m.users.len() - 1;
                    assert(m.users[nlen].email == email@);
                    assert(m.users_wf());
                    assert forall|i: int|
                        0 <= i < m.sessions.len() implies m.has_user(
                        (#[trigger] m.sessions[i]).user_id,
                    ) by {
                        assert(pre.has_user(pre.sessions[i].user_id));
                        let k = choose|k: int|
                            0 <= k < pre.users.len() && (#[trigger] pre.users[k]).id
                                == pre.sessions[i].user_id;
                        assert(m.users[k].id == pre.sessions[i].user_id);
                    }
                    assert(m.wf());
                    lemma_email_selector(m, nlen);
                    assert(m.user_with_email(email@) == m.users[nlen]);
                    assert forall|uid: int| pre.has_user(uid) implies m.has_user(uid) && m.user(
                        uid,
                    ) == pre.user(uid) by {
                        let k = choose|k: int|
                            0 <= k < pre.users.len() && (#[trigger] pre.users[k]).id == uid;
                        assert(m.users[k].id == uid);
                        assert(m.has_user(uid));
                        lemma_user_selector(m, k);
                        lemma_user_selector(pre, k);
                    }
                }
                id
            },
        }
    }

    /// Replaces any existing session row of the user, or inserts one: after
    /// the call the user's one session carries this handle and expiry.
    ///
    /// A session handle is unique across users, so the handle must not be
    /// another user's current handle.
    pub fn upsert_session(&mut self, user_id: i32, handle: String, expires_at: i64)
        requires
            old(self)@.wf(),
            old(self)@.has_user(user_id as int),
            old(self)@.next_id < i32::MAX,
            forall|i: int|
                0 <= i < old(self)@.sessions.len() && (#[trigger] old(self)@.sessions[i]).session_id == handle@ ==> old(self)@.sessions[i].user_id == user_id
                    as int,
        ensures
            final(self)@.wf(),
            final(self)@.users == old(self)@.users,
            final(self)@.refresh_tokens == old(self)@.refresh_tokens,
            final(self)@.has_session_for(user_id as int),
            final(self)@.session_for(user_id as int).user_id == user_id as int,
            final(self)@.session_for(user_id as int).session_id == handle@,
            final(self)@.session_for(user_id as int).expires_at == expires_at as int,
            final(self)@.has_session_with_handle(handle@),
            final(self)@.session_with_handle(handle@) == final(self)@.session_for(user_id as int),
            forall|s: SessionModel|
                s.user_id != user_id as int ==> (final(self)@.sessions.contains(s) <==> old(self)@.sessions.contains(s)),
            final(self)@.next_id <= old(self)@.next_id + 1,
            old(self)@.next_id <= final(self)@.next_id,
    {
        let ghost pre = old(self)@;
        match self.session_index_for_user(user_id) {
            Some(i) => {
                let old_row = self.sessions.remove(i);
                let new_row = SessionRow {
                    id: old_row.id,
                    user_id,
                    session_id: handle,
                    expires_at,
                };
                self.sessions.insert(i, new_row);
                proof {
                    let m = self@;
                    let nr = (SessionModel {
                        id: pre.sessions[i as int].id,
                        user_id: user_id as int,
                        session_id: handle@,
                        expires_at: expires_at as int,
                    });
                    assert(m.sessions =~= pre.sessions.update(i as int, nr));
                    assert(m.users =~= pre.users);
                    assert(m.refresh_tokens =~= pre.refresh_tokens);
                    assert(m.sessions_wf());
                    assert(m.wf());
                    lemma_session_for_selector(m, i as int);
                    lemma_handle_selector(m, i as int);
                    assert forall|s: SessionModel| s.user_id != user_id as int implies (
                    m.sessions.contains(s) <==> pre.sessions.contains(s)) by {
                        if m.sessions.contains(s) {
                            let k = choose|k: int|
                                0 <= k < m.sessions.len() && m.sessions[k] == s;
                            assert(k != i);
                            assert(pre.sessions[k] == s);
                        }
                        if pre.sessions.contains(s) {
                            let k = choose|k: int|
                                0 <= k < pre.sessions.len() && pre.sessions[k] == s;
                            assert(k != i);
                            assert(m.sessions[k] == s);
                        }
                    }
                }
            },
            None => {
                let id = self.next_id;
                self.next_id = self.next_id + 1;
                self.sessions.push(SessionRow { id, user_id, session_id: handle, expires_at });
                proof {
                    let m = self@;
                    let nr = (SessionModel {
                        id: pre.next_id,
                        user_id: user_id as int,
                        session_id: handle@,
                        expires_at: expires_at as int,
                    });
                    assert(m.sessions =~= pre.sessions.push(nr));
                    assert(m.users =~= pre.users);
                    assert(m.refresh_tokens =~= pre.refresh_tokens);
                    let nlen = m.sessions.len() - 1;
                    assert forall|a: int, b: int|
                        0 <= a < m.sessions.len() && 0 <= b < m.sessions.len() && a != b implies (
                    #[trigger] m.sessions[a]).id != (#[trigger] m.sessions[b]).id
                        && m.sessions[a].user_id != m.sessions[b].user_id
                        && m.sessions[a].session_id != m.sessions[b].session_id by {
                        if a == nlen || b == nlen {
                            let o = if a == nlen {
                                b
                            } else {
                                a
                            };
                            assert(pre.sessions[o] == m.sessions[o]);
                            assert(pre.sessions[o].id < pre.next_id);
                            assert(pre.sessions[o].user_id != user_id as int);
                        }
                    }
                    assert forall|k: int|
                        0 <= k < m.sessions.len() implies (#[trigger] m.sessions[k]).id
                        < m.next_id && m.has_user(m.sessions[k].user_id) by {
                        if k < nlen {
                            assert(pre.sessions[k] == m.sessions[k]);
                            assert(pre.has_user(pre.sessions[k].user_id));
                        } else {
                            assert(pre.has_user(user_id as int));
                        }
                    }
                    assert(m.sessions_wf());
                    assert(m.wf());
                    lemma_session_for_selector(m, nlen);
                    lemma_handle_selector(m, nlen);
                    assert forall|s: SessionModel| s.user_id != user_id as int implies (
                    m.sessions.contains(s) <==> pre.sessions.contains(s)) by {
                        if m.sessions.contains(s) {
                            let k = choose|k: int|
                                0 <= k < m.sessions.len() && m.sessions[k] == s;
                            assert(k != nlen);
                            assert(pre.sessions[k] == s);
                        }
                        if pre.sessions.contains(s) {
                            let k = choose|k: int|
                                0 <= k < pre.sessions.len() && pre.sessions[k] == s;
                            assert(m.sessions[k] == s);
                        }
                    }
                }
            },
        }
    }

    /// Replaces any existing refresh-token row of the user, or inserts one:
    /// after the call the user's one refresh token carries this secret and
    /// expiry.
    pub fn upsert_refresh_token(&mut self, user_id: i32, secret: String, expires_at: i64)
        requires
            old(self)@.wf(),
            old(self)@.has_user(user_id as int),
            old(self)@.next_id < i32::MAX,
        ensures
            final(self)@.wf(),
            final(self)@.users == old(self)@.users,
            final(self)@.sessions == old(self)@.sessions,
            final(self)@.has_token_for(user_id as int),
            final(self)@.token_for(user_id as int).user_id == user_id as int,
            final(self)@.token_for(user_id as int).refresh_token == secret@,
            final(self)@.token_for(user_id as int).expires_at == expires_at as int,
            forall|t: TokenModel|
                t.user_id != user_id as int ==> (final(self)@.refresh_tokens.contains(t) <==> old(self)@.refresh_tokens.contains(t)),
            final(self)@.next_id <= old(self)@.next_id + 1,
            old(self)@.next_id <= final(self)@.next_id,
    {
        let ghost pre = old(self)@;
        match self.token_index_for_user(user_id) {
            Some(i) => {
                let old_row = self.refresh_tokens.remove(i);
                let new_row = RefreshTokenRow {
                    id: old_row.id,
                    user_id,
                    refresh_token: secret,
                    expires_at,
                };
                self.refresh_tokens.insert(i, new_row);
                proof {
                    let m = self@;
                    let nr = (TokenModel {
                        id: pre.refresh_tokens[i as int].id,
                        user_id: user_id as int,
                        refresh_token: secret@,
                        expires_at: expires_at as int,
                    });
                    assert(m.refresh_tokens =~= pre.refresh_tokens.update(i as int, nr));
                    assert(m.users =~= pre.users);
                    assert(m.sessions =~= pre.sessions);
                    assert(m.tokens_wf());
                    assert forall|k: int|
                        0 <= k < m.sessions.len() implies m.has_user(
                        (#[trigger] m.sessions[k]).user_id,
                    ) by {
                        assert(pre.has_user(pre.sessions[k].user_id));
                    }
                    assert(m.wf());
                    lemma_token_for_selector(m, i as int);
                    assert forall|t: TokenModel| t.user_id != user_id as int implies (
                    m.refresh_tokens.contains(t) <==> pre.refresh_tokens.contains(t)) by {
                        if m.refresh_tokens.contains(t) {
                            let k = choose|k: int|
                                0 <= k < m.refresh_tokens.len() && m.refresh_tokens[k] == t;
                            assert(k != i);
                            assert(pre.refresh_tokens[k] == t);
                        }
                        if pre.refresh_tokens.contains(t) {
                            let k = choose|k: int|
                                0 <= k < pre.refresh_tokens.len() && pre.refresh_tokens[k] == t;
                            assert(k != i);
                            assert(m.refresh_tokens[k] == t);
                        }
                    }
                }
            },
            None => {
                let id = self.next_id;
                self.next_id = self.next_id + 1;
                self.refresh_tokens.push(
                    RefreshTokenRow { id, user_id, refresh_token: secret, expires_at },
                );
                proof {
                    let m = self@;
                    let nr = (TokenModel {
                        id: pre.next_id,
                        user_id: user_id as int,
                        refresh_token: secret@,
                        expires_at: expires_at as int,
                    });
                    assert(m.refresh_tokens =~= pre.refresh_tokens.push(nr));
                    assert(m.users =~= pre.users);
                    assert(m.sessions =~= pre.sessions);
                    let nlen = m.refresh_tokens.len() - 1;
                    assert forall|a: int, b: int|
                        0 <= a < m.refresh_tokens.len() && 0 <= b < m.refresh_tokens.len() && a
                            != b implies (#[trigger] m.refresh_tokens[a]).id != (
                    #[trigger] m.refresh_tokens[b]).id && m.refresh_tokens[a].user_id
                        != m.refresh_tokens[b].user_id by {
                        if a == nlen || b == nlen {
                            let o = if a == nlen {
                                b
                            } else {
                                a
                            };
                            assert(pre.refresh_tokens[o] == m.refresh_tokens[o]);
                            assert(pre.refresh_tokens[o].id < pre.next_id);
                            assert(pre.refresh_tokens[o].user_id != user_id as int);
                        }
                    }
                    assert forall|k: int|
                        0 <= k < m.refresh_tokens.len() implies (
                    #[trigger] m.refresh_tokens[k]).id < m.next_id by {
                        if k < nlen {
                            assert(pre.refresh_tokens[k] == m.refresh_tokens[k]);
                        }
                    }
                    assert(m.tokens_wf());
                    assert forall|k: int|
                        0 <= k < m.sessions.len() implies m.has_user(
                        (#[trigger] m.sessions[k]).user_id,
                    ) by {
                        assert(pre.has_user(pre.sessions[k].user_id));
                    }
                    assert(m.wf());
                    lemma_token_for_selector(m, nlen);
                    assert forall|t: TokenModel| t.user_id != user_id as int implies (
                    m.refresh_tokens.contains(t) <==> pre.refresh_tokens.contains(t)) by {
                        if m.refresh_tokens.contains(t) {
                            let k = choose|k: int|
                                0 <= k < m.refresh_tokens.len() && m.refresh_tokens[k] == t;
                            assert(k != nlen);
                            assert(pre.refresh_tokens[k] == t);
                        }
                        if pre.refresh_tokens.contains(t) {
                            let k = choose|k: int|
                                0 <= k < pre.refresh_tokens.len() && pre.refresh_tokens[k] == t;
                            assert(m.refresh_tokens[k] == t);
                        }
                    }
                }
            },
        }
    }

    /// Rewrites the handle and expiry of the session row with the given row
    /// id: the silent-renewal write. Returns the owning user's id if such
    /// a row existed.
    ///
    /// The new handle must not be another session's current handle.
    pub fn update_session_handle(&mut self, session_row_id: i32, new_handle: String,
        new_expires_at: i64) -> (r: Option<i32>)
        requires
            old(self)@.wf(),
            forall|i: int|
                0 <= i < old(self)@.sessions.len() && (#[trigger] old(self)@.sessions[i]).session_id == new_handle@ ==> old(self)@.sessions[i].id
                    == session_row_id as int,
        ensures
            final(self)@.wf(),
            final(self)@.users == old(self)@.users,
            final(self)@.refresh_tokens == old(self)@.refresh_tokens,
            final(self)@.next_id == old(self)@.next_id,
            r is Some <==> old(self)@.has_session_row(session_row_id as int),
            r is None ==> final(self)@.sessions == old(self)@.sessions,
            r is Some ==> r.unwrap() as int == old(self)@.session_row(session_row_id as int).user_id,
            r is Some ==> final(self)@.has_session_row(session_row_id as int) && final(self)@.session_row(
                session_row_id as int,
            ) == (SessionModel {
                id: session_row_id as int,
                user_id: old(self)@.session_row(session_row_id as int).user_id,
                session_id: new_handle@,
                expires_at: new_expires_at as int,
            }),
            r is Some ==> final(self)@.has_session_with_handle(new_handle@) && final(self)@.session_with_handle(new_handle@) == final(self)@.session_row(session_row_id as int),
            r is Some ==> (forall|s: SessionModel|
                s.id != session_row_id as int ==> (final(self)@.sessions.contains(s) <==> old(self)@.sessions.contains(s))),
            r is Some && old(self)@.session_row(session_row_id as int).session_id != new_handle@ ==> !final(self)@.has_session_with_handle(old(self)@.session_row(session_row_id as int).session_id),
    {
        let ghost pre = old(self)@;
        match self.session_index_by_row_id(session_row_id) {
            Some(i) => {
                proof {
                    lemma_session_row_selector(pre, i as int);
                }
                let old_row = self.sessions.remove(i);
                let new_row = SessionRow {
                    id: old_row.id,
                    user_id: old_row.user_id,
                    session_id: new_handle,
                    expires_at: new_expires_at,
                };
                self.sessions.insert(i, new_row);
                proof {
                    let m = self@;
                    let nr = (SessionModel {
                        id: session_row_id as int,
                        user_id: pre.sessions[i as int].user_id,
                        session_id: new_handle@,
                        expires_at: new_expires_at as int,
                    });
                    assert(m.sessions =~= pre.sessions.update(i as int, nr));
                    assert(m.users =~= pre.users);
                    assert(m.refresh_tokens =~= pre.refresh_tokens);
                    assert forall|a: int, b: int|
                        0 <= a < m.sessions.len() && 0 <= b < m.sessions.len() && a != b implies (
                    #[trigger] m.sessions[a]).id != (#[trigger] m.sessions[b]).id
                        && m.sessions[a].user_id != m.sessions[b].user_id
                        && m.sessions[a].session_id != m.sessions[b].session_id by {
                        if a == i as int || b == i as int {
                            let o = if a == i as int {
                                b
                            } else {
                                a
                            };
                            assert(pre.sessions[o] == m.sessions[o]);
                            assert(pre.sessions[o].session_id != new_handle@);
                        }
                    }
                    assert forall|k: int|
                        0 <= k < m.sessions.len() implies (#[trigger] m.sessions[k]).id
                        < m.next_id && m.has_user(m.sessions[k].user_id) by {
                        assert(pre.has_user(pre.sessions[k].user_id));
                    }
                    assert(m.sessions_wf());
                    assert(m.wf());
                    lemma_session_row_selector(m, i as int);
                    lemma_handle_selector(m, i as int);
                    assert forall|s: SessionModel| s.id != session_row_id as int implies (
                    m.sessions.contains(s) <==> pre.sessions.contains(s)) by {
                        if m.sessions.contains(s) {
                            let k = choose|k: int|
                                0 <= k < m.sessions.len() && m.sessions[k] == s;
                            assert(k != i);
                            assert(pre.sessions[k] == s);
                        }
                        if pre.sessions.contains(s) {
                            let k = choose|k: int|
                                0 <= k < pre.sessions.len() && pre.sessions[k] == s;
                            assert(k != i);
                            assert(m.sessions[k] == s);
                        }
                    }
                    if pre.sessions[i as int].session_id != new_handle@ {
                        let oldh = pre.sessions[i as int].session_id;
                        if m.has_session_with_handle(oldh) {
                            let k = choose|k: int|
                                0 <= k < m.sessions.len() && (#[trigger] m.sessions[k]).session_id
                                    == oldh;
                            assert(k != i);
                            assert(pre.sessions[k].session_id == oldh);
                            assert(false);
                        }
                    }
                }
                Some(old_row.user_id)
            },
            None => None,
        }
    }

    /// Removes the session row of the user, if any: the logout write.
    /// Returns whether a row was removed.
    pub fn delete_session(&mut self, user_id: i32) -> (r: bool)
        requires
            old(self)@.wf(),
        ensures
            final(self)@.wf(),
            final(self)@.users == old(self)@.users,
            final(self)@.refresh_tokens == old(self)@.refresh_tokens,
            final(self)@.next_id == old(self)@.next_id,
            r == old(self)@.has_session_for(user_id as int),
            !final(self)@.has_session_for(user_id as int),
            forall|s: SessionModel|
                s.user_id != user_id as int ==> (final(self)@.sessions.contains(s) <==> old(self)@.sessions.contains(s)),
            !r ==> final(self)@.sessions == old(self)@.sessions,
            r ==> !final(self)@.has_session_with_handle(
                old(self)@.session_for(user_id as int).session_id,
            ),
    {
        let ghost pre = old(self)@;
        match self.session_index_for_user(user_id) {
            Some(i) => {
                proof {
                    lemma_session_for_selector(pre, i as int);
                }
                let _removed = self.sessions.remove(i);
                proof {
                    let m = self@;
                    assert(m.sessions =~= pre.sessions.remove(i as int));
                    assert(m.users =~= pre.users);
                    assert(m.refresh_tokens =~= pre.refresh_tokens);
                    assert forall|k: int|
                        0 <= k < m.sessions.len() implies m.sessions[k] == (if k < i as int {
                        pre.sessions[k]
                    } else {
                        pre.sessions[k + 1]
                    }) by {}
                    assert forall|a: int, b: int|
                        0 <= a < m.sessions.len() && 0 <= b < m.sessions.len() && a != b implies (
                    #[trigger] m.sessions[a]).id != (#[trigger] m.sessions[b]).id
                        && m.sessions[a].user_id != m.sessions[b].user_id
                        && m.sessions[a].session_id != m.sessions[b].session_id by {}
                    assert forall|k: int|
                        0 <= k < m.sessions.len() implies (#[trigger] m.sessions[k]).id
                        < m.next_id && m.has_user(m.sessions[k].user_id) by {
                        let o = if k < i as int {
                            k
                        } else {
                            k + 1
                        };
                        assert(pre.has_user(pre.sessions[o].user_id));
                    }
                    assert(m.sessions_wf());
                    assert(m.wf());
                    if m.has_session_for(user_id as int) {
                        let k = choose|k: int|
                            0 <= k < m.sessions.len() && (#[trigger] m.sessions[k]).user_id
                                == user_id as int;
                        assert(false);
                    }
                    assert forall|s: SessionModel| s.user_id != user_id as int implies (
                    m.sessions.contains(s) <==> pre.sessions.contains(s)) by {
                        if m.sessions.contains(s) {
                            let k = choose|k: int|
                                0 <= k < m.sessions.len() && m.sessions[k] == s;
                            let o = if k < i as int {
                                k
                            } else {
                                k + 1
                            };
                            assert(pre.sessions[o] == s);
                        }
                        if pre.sessions.contains(s) {
                            let k = choose|k: int|
                                0 <= k < pre.sessions.len() && pre.sessions[k] == s;
                            assert(k != i);
                            let o = if k < i as int {
                                k
                            } else {
                                k - 1
                            };
                            assert(m.sessions[o] == s);
                        }
                    }
                    if m.has_session_with_handle(pre.sessions[i as int].session_id) {
                        let k = choose|k: int|
                            0 <= k < m.sessions.len() && (#[trigger] m.sessions[k]).session_id
                                == pre.sessions[i as int].session_id;
                        let o = if k < i as int {
                            k
                        } else {
                            k + 1
                        };
                        assert(pre.sessions[o].session_id == pre.sessions[i as int].session_id);
                        assert(false);
                    }
                }
                true
            },
            None => false,
        }
    }

    /// Removes the refresh-token row of the user, if any: the logout write.
    /// Returns whether a row was removed.
    pub fn delete_refresh_token(&mut self, user_id: i32) -> (r: bool)
        requires
            old(self)@.wf(),
        ensures
            final(self)@.wf(),
            final(self)@.users == old(self)@.users,
            final(self)@.sessions == old(self)@.sessions,
            final(self)@.next_id == old(self)@.next_id,
            r == old(self)@.has_token_for(user_id as int),
            !final(self)@.has_token_for(user_id as int),
            forall|t: TokenModel|
                t.user_id != user_id as int ==> (final(self)@.refresh_tokens.contains(t) <==> old(self)@.refresh_tokens.contains(t)),
            !r ==> final(self)@.refresh_tokens == old(self)@.refresh_tokens,
    {
        let ghost pre = old(self)@;
        match self.token_index_for_user(user_id) {
            Some(i) => {
                let _removed = self.refresh_tokens.remove(i);
                proof {
                    let m = self@;
                    assert(m.refresh_tokens =~= pre.refresh_tokens.remove(i as int));
                    assert(m.users =~= pre.users);
                    assert(m.sessions =~= pre.sessions);
                    assert forall|k: int|
                        0 <= k < m.refresh_tokens.len() implies m.refresh_tokens[k] == (if k < i
                            as int {
                        pre.refresh_tokens[k]
                    } else {
                        pre.refresh_tokens[k + 1]
                    }) by {}
                    assert forall|a: int, b: int|
                        0 <= a < m.refresh_tokens.len() && 0 <= b < m.refresh_tokens.len() && a
                            != b implies (#[trigger] m.refresh_tokens[a]).id != (
                    #[trigger] m.refresh_tokens[b]).id && m.refresh_tokens[a].user_id
                        != m.refresh_tokens[b].user_id by {}
                    assert(m.tokens_wf());
                    assert forall|k: int|
                        0 <= k < m.sessions.len() implies m.has_user(
                        (#[trigger] m.sessions[k]).user_id,
                    ) by {
                        assert(pre.has_user(pre.sessions[k].user_id));
                    }
                    assert(m.wf());
                    if m.has_token_for(user_id as int) {
                        let k = choose|k: int|
                            0 <= k < m.refresh_tokens.len() && (
                            #[trigger] m.refresh_tokens[k]).user_id == user_id as int;
                        assert(false);
                    }
                    assert forall|t: TokenModel| t.user_id != user_id as int implies (
                    m.refresh_tokens.contains(t) <==> pre.refresh_tokens.contains(t)) by {
                        if m.refresh_tokens.contains(t) {
                            let k = choose|k: int|
                                0 <= k < m.refresh_tokens.len() && m.refresh_tokens[k] == t;
                            let o = if k < i as int {
                                k
                            } else {
                                k + 1
                            };
                            assert(pre.refresh_tokens[o] == t);
                        }
                        if pre.refresh_tokens.contains(t) {
                            let k = choose|k: int|
                                0 <= k < pre.refresh_tokens.len() && pre.refresh_tokens[k] == t;
                            assert(k != i);
                            let o = if k < i as int {
                                k
                            } else {
                                k - 1
                            };
                            assert(m.refresh_tokens[o] == t);
                        }
                    }
                }
                true
            },
            None => false,
        }
    }

    /// Joins a session handle to the owning user and returns that user's
    /// profile: the extractor's store query.
    pub fn find_user_profile_by_session_handle(&self, handle: &String) -> (r: Option<
        UserProfile,
    >)
        requires
            self@.wf(),
        ensures
            match r {
                Some(p) => self@.has_session_with_handle(handle@) && p@ == profile_of(
                    self@.user(self@.session_with_handle(handle@).user_id),
                ),
                None => !self@.has_session_with_handle(handle@),
            },
    {
        let session = match self.find_session_by_handle(handle) {
            Some(s) => s,
            None => {
                return None;
            },
        };
        let owner_id = session.user_id;
        match self.find_user_by_id(owner_id) {
            Some(u) => Some(
                UserProfile {
                    id: u.id,
                    user_id: u.user_id,
                    email: u.email.clone(),
                    name: u.name.clone(),
                    username: match &u.username {
                        Some(s) => Some(s.clone()),
                        None => None,
                    },
                    created_at: u.created_at,
                    updated_at: u.updated_at,
                },
            ),
            None => {
                proof {
                    let m = self@;
                    let i = choose|i: int|
                        0 <= i < m.sessions.len() && (#[trigger] m.sessions[i]).session_id
                            == handle@;
                    assert(m.has_user(m.sessions[i].user_id));
                    assert(false);
                }
                None
            },
        }
    }
}

} // verus!
