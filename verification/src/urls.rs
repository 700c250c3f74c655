use vstd::prelude::*;
use vstd::string::StringExecFns;

verus! {

/// Where the provider sends the browser back after consent.
pub open spec fn spec_callback_url(frontend_url: Seq<char>) -> Seq<char> {
    frontend_url + "/auth/google_callback"@
}

/// The provider's authorization URL for this deployment: offline access
/// and forced consent (so a refresh token is granted), the OpenID scopes,
/// the client id, and the callback as redirect target.
pub open spec fn spec_login_url(client_id: Seq<char>, frontend_url: Seq<char>) -> Seq<char> {
    "https://accounts.google.com/o/oauth2/v2/auth?access_type=offline&prompt=consent&scope=openid%20profile%20email&client_id="@
        + client_id + "&response_type=code&redirect_uri="@ + spec_callback_url(frontend_url)
}

/// The callback URL registered with the provider.
pub fn google_callback_url(frontend_url: &str) -> (r: String)
    ensures
        r@ == spec_callback_url(frontend_url@),
{
    let mut out = frontend_url.to_owned();
    out.append("/auth/google_callback");
    out
}

/// The URL a login starts at.
pub fn get_login_url(oauth_client_id: &str, frontend_url: &str) -> (r: String)
    ensures
        r@ == spec_login_url(oauth_client_id@, frontend_url@),
{
    let mut out =
        "https://accounts.google.com/o/oauth2/v2/auth?access_type=offline&prompt=consent&scope=openid%20profile%20email&client_id=".to_owned();
    out.append(oauth_client_id);
    out.append("&response_type=code&redirect_uri=");
    out.append(frontend_url);
    out.append("/auth/google_callback");
    proof {
        assert(out@ =~= spec_login_url(oauth_client_id@, frontend_url@));
    }
    out
}

} // verus!
