//! The fixed platform endpoint URLs.  They must match the platform exactly
//! for interoperability, so each has a spec form and an exec accessor whose
//! contract ties the two together.

use vstd::prelude::*;

verus! {

/// Where the handshake asks for a request token.
pub open spec fn request_token_endpoint() -> Seq<char> {
    "https://api.twitter.com/oauth/request_token"@
}

/// Where the user authorizes the request token, out of band.
pub open spec fn authorize_endpoint() -> Seq<char> {
    "https://api.twitter.com/oauth/authorize"@
}

/// Where the handshake trades an authorized request token for an access
/// token.
pub open spec fn access_token_endpoint() -> Seq<char> {
    "https://api.twitter.com/oauth/access_token"@
}

/// Where a status update is posted.
pub open spec fn update_status_endpoint() -> Seq<char> {
    "https://api.twitter.com/1.1/statuses/update.json"@
}

/// Where the home timeline is fetched.
pub open spec fn home_timeline_endpoint() -> Seq<char> {
    "https://api.twitter.com/1.1/statuses/home_timeline.json"@
}

/// The request-token endpoint, for the transport.
pub fn request_token_url() -> (r: &'static str)
    ensures
        r@ == request_token_endpoint(),
{
    "https://api.twitter.com/oauth/request_token"
}

/// The authorize endpoint, for URL construction.
pub fn authorize_url_base() -> (r: &'static str)
    ensures
        r@ == authorize_endpoint(),
{
    "https://api.twitter.com/oauth/authorize"
}

/// The access-token endpoint, for the transport.
pub fn access_token_url() -> (r: &'static str)
    ensures
        r@ == access_token_endpoint(),
{
    "https://api.twitter.com/oauth/access_token"
}

/// The status-update endpoint, for the transport.
pub fn update_status_url() -> (r: &'static str)
    ensures
        r@ == update_status_endpoint(),
{
    "https://api.twitter.com/1.1/statuses/update.json"
}

/// The home-timeline endpoint, for the transport.
pub fn home_timeline_url() -> (r: &'static str)
    ensures
        r@ == home_timeline_endpoint(),
{
    "https://api.twitter.com/1.1/statuses/home_timeline.json"
}

} // verus!
