//! A minimal client library for a Twitter-style REST API: OAuth 1.0a
//! three-legged authentication plus two operations, posting a status update
//! and fetching the home timeline.
//!
//! The verified core is the pure protocol logic: the query-string codec, the
//! token-exchange response parsing, authorize-URL construction, the request
//! descriptions for each signed call, and the timeline JSON parser.  The
//! HMAC-SHA1 signing and HTTP transport are an external collaborator that an
//! unverified shell drives with the request descriptions built here.

use vstd::prelude::*;
use vstd::utf8::decode_utf8;
use vstd::utf8::valid_utf8;

pub mod endpoints;
pub mod error;
pub mod query;
pub mod request;
pub mod timeline;
pub mod token_flow;

pub use timeline::Tweet;

pub use token_flow::get_authorize_url;
pub use token_flow::parse_token_response;

verus! {

/// An opaque key/secret credential pair: either a consumer identity or a
/// token returned by one of the exchange steps.
#[derive(Clone, Debug)]
pub struct Token {
    pub key: String,
    pub secret: String,
}

impl Token {
    /// Builds a credential pair from its two parts.
    pub fn new(key: String, secret: String) -> (t: Token)
        ensures
            t.key@ == key@,
            t.secret@ == secret@,
    {
        Token { key, secret }
    }
}

/// Relies on String::from_utf8: `Ok` exactly on valid UTF-8, and then the
/// text those bytes encode.
#[verifier::external_body]
fn utf8_to_string(bytes: Vec<u8>) -> (r: Option<String>)
    ensures
        r matches Some(t) ==> valid_utf8(bytes@) && t@ == decode_utf8(bytes@),
        r is Some <==> valid_utf8(bytes@),
{
    String::from_utf8(bytes).ok()
}

/// Decodes raw response bytes as text, as every endpoint of this API
/// requires before parsing: fails with `EncodingError` exactly when the
/// bytes are not valid UTF-8.
pub fn response_text(bytes: Vec<u8>) -> (r: Result<String, error::Error>)
    ensures
        match r {
            Ok(t) => valid_utf8(bytes@) && t@ == decode_utf8(bytes@),
            Err(e) => e == error::Error::EncodingError && !valid_utf8(bytes@),
        },
{
    match utf8_to_string(bytes) {
        Some(t) => Ok(t),
        None => Err(error::Error::EncodingError),
    }
}

} // verus!
