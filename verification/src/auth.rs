//! The credential context: a per-session bearer token resolved into an
//! authorized client capability, or a typed needs-auth outcome carrying the
//! URI to come back to. Absence of a credential is control flow, never a
//! fatal error, and resolving never touches the network.

use vstd::prelude::*;
use vstd::string::StringExecFns;
use crate::text::clone_string;

verus! {

/// The error taxonomy of the core. `NeedsAuth` is handled by a redirect;
/// the others propagate to a single boundary handler.
#[derive(Debug, PartialEq, Eq)]
pub enum Error {
    /// No credential was present; redirect to the login form.
    NeedsAuth { redirect_to: Option<String> },
    /// A non-2xx response from the remote API.
    Upstream { status: u16, body: String },
    /// A malformed response body for a known record shape.
    Decode { context: String },
    /// A connection or timeout failure, reported by the transport.
    Transport,
}

/// A bearer token scoped to one session, with the URI of the current
/// request so that the caller can be sent back after logging in. The token
/// may be empty; absence and the empty string are treated identically.
#[derive(Debug, PartialEq, Eq)]
pub struct SentryToken {
    pub token: String,
    pub redirect_to: String,
}

/// An authorized client capability bound to a non-empty bearer token; used
/// for every outbound call of one request.
#[derive(Debug, PartialEq, Eq)]
pub struct ClientHandle {
    pub token: String,
}

impl ClientHandle {
    pub open spec fn wf(self) -> bool {
        self.token@.len() > 0
    }

    /// The authorization header value attached to every outbound call.
    pub fn authorization(&self) -> (r: String)
        ensures
            r@ == "Bearer "@ + self.token@,
    {
        let mut s = String::from_str("Bearer ");
        s.append(self.token.as_str());
        s
    }
}

impl SentryToken {
    /// Resolves the credential: an authorized handle for a non-empty
    /// token, or `NeedsAuth` carrying the original request URI. This never
    /// performs network I/O and never fails for a non-empty token.
    pub fn client(&self) -> (r: Result<ClientHandle, Error>)
        ensures
            self.token@.len() == 0 <==> r is Err,
            r matches Err(e) ==> (e matches Error::NeedsAuth { redirect_to } && (redirect_to
                matches Some(u) && u@ == self.redirect_to@)),
            r matches Ok(c) ==> c.wf() && c.token@ == self.token@,
    {
        if self.token.as_str().is_empty() {
            Err(Error::NeedsAuth { redirect_to: Some(clone_string(&self.redirect_to)) })
        } else {
            Ok(ClientHandle { token: clone_string(&self.token) })
        }
    }
}

/// Where the boundary redirects a caller that lacked credentials: back to
/// the login form, keeping the original URI when one was recorded.
pub fn needs_auth_location(redirect_to: &Option<String>) -> (r: String)
    ensures
        match redirect_to {
            Some(u) => r@ == "/?redirect_to="@ + u@,
            None => r@ == "/"@,
        },
{
    match redirect_to {
        Some(u) => {
            let mut s = String::from_str("/?redirect_to=");
            s.append(u.as_str());
            s
        },
        None => String::from_str("/"),
    }
}

/// Query parameters accepted by the login page.
#[derive(Debug, PartialEq, Eq)]
pub struct RedirectTo {
    pub redirect_to: Option<String>,
}

/// Form fields posted to the login endpoint.
#[derive(Debug, PartialEq, Eq)]
pub struct AuthParams {
    pub token: String,
    pub redirect_to: Option<String>,
}

/// Where the login endpoint redirects after storing the token: the
/// recorded target, or the index.
pub fn auth_redirect(redirect_to: Option<String>) -> (r: String)
    ensures
        match redirect_to {
            Some(u) => r == u,
            None => r@ == "/"@,
        },
{
    match redirect_to {
        Some(u) => u,
        None => String::from_str("/"),
    }
}

/// What the index shows: the login form when no token is present, keeping
/// the redirect target for after login, else the organization overview.
#[derive(Debug, PartialEq, Eq)]
pub enum IndexPage {
    Login { redirect_to: Option<String> },
    Organizations,
}

pub fn index_page(token: &SentryToken, params: RedirectTo) -> (r: IndexPage)
    ensures
        token.token@.len() == 0 ==> (r matches IndexPage::Login { redirect_to } && redirect_to
            == params.redirect_to),
        token.token@.len() > 0 ==> r == IndexPage::Organizations,
{
    if token.token.as_str().is_empty() {
        IndexPage::Login { redirect_to: params.redirect_to }
    } else {
        IndexPage::Organizations
    }
}

} // verus!
