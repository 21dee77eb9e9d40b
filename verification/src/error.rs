//! The error taxonomy: every failure a library operation can report.

use vstd::prelude::*;

verus! {

/// Why a library operation failed.  Errors propagate to the caller at once:
/// no retry, no partial result, no silent default.
#[derive(Clone, Debug, PartialEq, Eq)]
pub enum Error {
    /// A network or HTTP-layer failure, surfaced unmodified from the
    /// transport; the message is the transport's own.
    TransportError(String),
    /// A query-encoded response body does not split into well-formed
    /// `key=value` pairs.
    MalformedResponse,
    /// A required key (`oauth_token`, `oauth_token_secret`) is absent from a
    /// decoded token-endpoint response, or its value is empty.
    MissingField,
    /// The timeline JSON does not match the expected shape.
    DeserializationError,
    /// Response bytes are not valid text where a textual decode is required.
    EncodingError,
}

impl Error {
    /// A short human-readable description of the error; a transport error
    /// carries the transport's own message through unmodified.
    pub fn describe(&self) -> (r: String)
        ensures
            r@ == match self {
                Error::TransportError(m) => m@,
                Error::MalformedResponse => "malformed query response"@,
                Error::MissingField => "missing oauth_token or oauth_token_secret"@,
                Error::DeserializationError => "timeline JSON has the wrong shape"@,
                Error::EncodingError => "response is not valid text"@,
            },
    {
        match self {
            Error::TransportError(m) => m.clone(),
            Error::MalformedResponse => "malformed query response".to_owned(),
            Error::MissingField => "missing oauth_token or oauth_token_secret".to_owned(),
            Error::DeserializationError => "timeline JSON has the wrong shape".to_owned(),
            Error::EncodingError => "response is not valid text".to_owned(),
        }
    }
}

} // verus!
