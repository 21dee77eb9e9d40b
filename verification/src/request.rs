//! Descriptions of the signed requests the library asks its transport to
//! make.  Each operation is a pure function from its inputs to the method,
//! URL and extra parameters of one OAuth-signed call; the unverified shell
//! performs the call and hands the response body back to the parsers.

use vstd::prelude::*;
use vstd::string::StringExecFns;
use crate::endpoints::access_token_endpoint;
use crate::endpoints::home_timeline_endpoint;
use crate::endpoints::request_token_endpoint;
use crate::endpoints::update_status_endpoint;
use crate::query::pairs_view;

verus! {

/// The HTTP method of a signed call.
#[derive(Clone, Copy, Debug, PartialEq, Eq, Structural)]
pub enum Method {
    Get,
    Post,
}

/// One signed call for the transport to make: method, URL, and the extra
/// parameters to sign along with the OAuth ones.
#[derive(Clone, Debug)]
pub struct Request {
    pub method: Method,
    pub url: String,
    pub params: Vec<(String, String)>,
}

/// The call that starts the handshake: GET the request-token endpoint with
/// no token and no extra parameters.
pub fn request_token_request() -> (r: Request)
    ensures
        r.method == Method::Get,
        r.url@ == request_token_endpoint(),
        r.params@.len() == 0,
{
    Request {
        method: Method::Get,
        url: String::from_str(crate::endpoints::request_token_url()),
        params: Vec::new(),
    }
}

/// The call that trades an authorized request token for an access token:
/// GET the access-token endpoint carrying the out-of-band PIN as
/// `oauth_verifier`.
pub fn access_token_request(pin: &str) -> (r: Request)
    ensures
        r.method == Method::Get,
        r.url@ == access_token_endpoint(),
        pairs_view(r.params@) == seq![("oauth_verifier"@, pin@)],
{
    let mut params: Vec<(String, String)> = Vec::new();
    params.push((String::from_str("oauth_verifier"), String::from_str(pin)));
    proof {
        assert(pairs_view(params@) =~= seq![("oauth_verifier"@, pin@)]);
    }
    Request {
        method: Method::Get,
        url: String::from_str(crate::endpoints::access_token_url()),
        params,
    }
}

/// The call that posts a status update: POST the update endpoint with the
/// text as the `status` parameter.  Posting is not idempotent; issuing the
/// same description twice posts twice.
pub fn update_status_request(status: &str) -> (r: Request)
    ensures
        r.method == Method::Post,
        r.url@ == update_status_endpoint(),
        pairs_view(r.params@) == seq![("status"@, status@)],
{
    let mut params: Vec<(String, String)> = Vec::new();
    params.push((String::from_str("status"), String::from_str(status)));
    proof {
        assert(pairs_view(params@) =~= seq![("status"@, status@)]);
    }
    Request {
        method: Method::Post,
        url: String::from_str(crate::endpoints::update_status_url()),
        params,
    }
}

/// The call that fetches the home timeline: GET with the access token and
/// no extra parameters.
pub fn home_timeline_request() -> (r: Request)
    ensures
        r.method == Method::Get,
        r.url@ == home_timeline_endpoint(),
        r.params@.len() == 0,
{
    Request {
        method: Method::Get,
        url: String::from_str(crate::endpoints::home_timeline_url()),
        params: Vec::new(),
    }
}

} // verus!
