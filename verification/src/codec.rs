use vstd::prelude::*;

verus! {

/// The session cookie's name.
pub open spec fn spec_cookie_name() -> Seq<char> {
    "sid"@
}

/// What a sealed cookie value decrypts to under a 64-byte master key and a
/// cookie name: `None` for anything tampered with or malformed. Decryption
/// is a function of these three values alone. Sealing is not — it draws a
/// random nonce — so encoding is specified through this name instead.
pub uninterp spec fn decrypts_to(key: Seq<u8>, name: Seq<char>, sealed: Seq<char>) -> Option<
    Seq<char>,
>;

/// Relies on cookie::Key::generate: a fresh random master key whose
/// `master()` bytes are 64 bytes long.
#[verifier::external_body]
fn generate_master_key() -> (r: Vec<u8>)
    ensures
        r@.len() == 64,
{
    cookie::Key::generate().master().to_vec()
}

/// Relies on cookie::PrivateJar::add and get: a value sealed under a key
/// and a cookie name decrypts, under the same key and name, to exactly
/// that value.
#[verifier::external_body]
fn seal_cookie_value(key: &[u8], name: &str, value: &str) -> (r: String)
    requires
        key@.len() == 64,
    ensures
        decrypts_to(key@, name@, r@) == Some(value@),
{
    let k = cookie::Key::from(key);
    let mut jar = cookie::CookieJar::new();
    jar.private_mut(&k).add(cookie::Cookie::new(name.to_string(), value.to_string()));
    jar.get(name).expect("sealed cookie is in the jar").value().to_string()
}

/// Relies on cookie::PrivateJar::decrypt: authenticated decryption of a
/// sealed value, a function of the key bytes, the cookie name and the
/// ciphertext alone; any tamper or malformed envelope yields `None`.
#[verifier::external_body]
fn unseal_cookie_value(key: &[u8], name: &str, sealed: &str) -> (r: Option<String>)
    requires
        key@.len() == 64,
    ensures
        match decrypts_to(key@, name@, sealed@) {
            Some(v) => r is Some && r.unwrap()@ == v,
            None => r is None,
        },
{
    let k = cookie::Key::from(key);
    let jar = cookie::CookieJar::new();
    let presented = cookie::Cookie::new(name.to_string(), sealed.to_string());
    jar.private(&k).decrypt(presented).map(|c| c.value().to_string())
}

/// Produces and consumes the authenticated, encrypted `sid` cookie value.
///
/// The key is injected (or generated) once at process start and lives as
/// long as the process: regenerating it mid-process would invalidate every
/// outstanding cookie.
pub struct SessionCodec {
    key: Vec<u8>,
}

impl SessionCodec {
    /// The master key bytes the codec seals with.
    pub closed spec fn key_bytes(self) -> Seq<u8> {
        self.key@
    }

    /// The codec holds a full-length master key.
    pub open spec fn wf(self) -> bool {
        self.key_bytes().len() == 64
    }

    /// A codec with a fresh random master key.
    pub fn generate() -> (c: SessionCodec)
        ensures
            c.wf(),
    {
        SessionCodec { key: generate_master_key() }
    }

    /// A codec with an externally supplied 64-byte master key; any other
    /// length is rejected.
    pub fn from_master_key(key: Vec<u8>) -> (r: Option<SessionCodec>)
        ensures
            key@.len() == 64 ==> r is Some && r.unwrap().wf() && r.unwrap().key_bytes() == key@,
            key@.len() != 64 ==> r is None,
    {
        if key.len() == 64 {
            Some(SessionCodec { key })
        } else {
            None
        }
    }

    /// Seals a session handle into the `sid` cookie value.
    pub fn encode(&self, handle: &str) -> (r: String)
        requires
            self.wf(),
        ensures
            decrypts_to(self.key_bytes(), spec_cookie_name(), r@) == Some(handle@),
    {
        seal_cookie_value(self.key.as_slice(), "sid", handle)
    }

    /// Opens a presented `sid` cookie value. Decoding fails closed: tamper
    /// or a malformed envelope yields `None`, the same as no cookie at all.
    pub fn decode(&self, sealed: &str) -> (r: Option<String>)
        requires
            self.wf(),
        ensures
            match decrypts_to(self.key_bytes(), spec_cookie_name(), sealed@) {
                Some(v) => r is Some && r.unwrap()@ == v,
                None => r is None,
            },
    {
        unseal_cookie_value(self.key.as_slice(), "sid", sealed)
    }

    /// Opens the cookie if one was presented at all: callers see one
    /// `None` for both an absent and an undecodable cookie, and must not
    /// distinguish the two in their authorization decision.
    pub fn decode_opt(&self, sealed: Option<&String>) -> (r: Option<String>)
        requires
            self.wf(),
        ensures
            match sealed {
                Some(c) => match decrypts_to(self.key_bytes(), spec_cookie_name(), c@) {
                    Some(v) => r is Some && r.unwrap()@ == v,
                    None => r is None,
                },
                None => r is None,
            },
    {
        match sealed {
            Some(c) => self.decode(c.as_str()),
            None => None,
        }
    }

    /// Law (round trip): decoding an encoded handle yields exactly that
    /// handle — never absence, never another value.
    pub fn encode_decode_round_trip(&self, handle: &str) -> (r: Option<String>)
        requires
            self.wf(),
        ensures
            r is Some,
            r.unwrap()@ == handle@,
    {
        let sealed = self.encode(handle);
        self.decode(sealed.as_str())
    }
}

/// The outgoing session cookie: name `sid`, the sealed handle as value,
/// scoped to the site domain, `HttpOnly` and `Secure`, with a max-age of
/// its own, independent of (and never authoritative over) the session
/// row's expiry.
pub struct SessionCookie {
    pub name: String,
    pub value: String,
    pub domain: String,
    pub path: String,
    pub secure: bool,
    pub http_only: bool,
    pub max_age_seconds: i64,
}

/// Builds the session cookie carrying a sealed handle.
pub fn build_session_cookie(
    codec: &SessionCodec,
    handle: &str,
    domain: String,
    max_age_seconds: i64,
) -> (c: SessionCookie)
    requires
        codec.wf(),
    ensures
        c.name@ == spec_cookie_name(),
        decrypts_to(codec.key_bytes(), spec_cookie_name(), c.value@) == Some(handle@),
        c.domain@ == domain@,
        c.path@ == "/"@,
        c.secure,
        c.http_only,
        c.max_age_seconds == max_age_seconds,
{
    SessionCookie {
        name: "sid".to_owned(),
        value: codec.encode(handle),
        domain,
        path: "/".to_owned(),
        secure: true,
        http_only: true,
        max_age_seconds,
    }
}

} // verus!
