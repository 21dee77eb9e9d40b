//! The token-exchange steps of the three-legged handshake that are pure
//! protocol logic: decoding a token-endpoint response into a credential
//! pair, and building the authorize URL.
//!
//! The network halves of the handshake live outside the library; they hand
//! the raw response text to [`parse_token_response`].

use vstd::prelude::*;
use vstd::string::StringExecFns;
use crate::Token;
use crate::endpoints::authorize_endpoint;
use crate::error::Error;
use crate::query::lookup;
use crate::query::pairs_view;
use crate::query::query_pairs;
use crate::query::query_well_formed;
use crate::query::split_query;
use crate::query::str_eq;

verus! {

/// The value a token-endpoint body carries for `key`: the last value among
/// the decoded pairs, as a map built by insertion would hold it.
pub open spec fn token_field(body: Seq<char>, key: Seq<char>) -> Option<Seq<char>> {
    lookup(query_pairs(body), key)
}

/// A field yields a credential part only when it is present and nonempty:
/// an exchange never produces a partial token.
pub open spec fn field_usable(f: Option<Seq<char>>) -> bool {
    f matches Some(v) && v.len() > 0
}

/// Finds the value of the last pair whose key is `key`.
fn lookup_param(pairs: &Vec<(String, String)>, key: &str) -> (r: Option<String>)
    ensures
        match r {
            Some(v) => lookup(pairs_view(pairs@), key@) == Some(v@),
            None => lookup(pairs_view(pairs@), key@) is None,
        },
{
    let ghost all = pairs_view(pairs@);
    let mut i: usize = pairs.len();
    proof {
        assert(all.subrange(0, pairs@.len() as int) =~= all);
    }
    while i > 0
        invariant
            0 <= i <= pairs@.len(),
            all == pairs_view(pairs@),
            lookup(all, key@) == lookup(all.subrange(0, i as int), key@),
        decreases i,
    {
        i = i - 1;
        let ghost prefix = all.subrange(0, i + 1);
        proof {
            assert(prefix.last() == all[i as int]);
            assert(prefix.drop_last() =~= all.subrange(0, i as int));
        }
        if str_eq(pairs[i].0.as_str(), key) {
            return Some(pairs[i].1.clone());
        }
    }
    proof {
        assert(all.subrange(0, 0) =~= Seq::<(Seq<char>, Seq<char>)>::empty());
    }
    None
}

/// Decodes a token-endpoint response body into the credential pair it
/// carries.  The body must decode as a query string (`MalformedResponse`
/// otherwise), and both `oauth_token` and `oauth_token_secret` must be
/// present and nonempty (`MissingField` otherwise); on success the pair
/// holds exactly those two values.
pub fn parse_token_response(body: &str) -> (r: Result<Token, Error>)
    ensures
        match r {
            Ok(t) => query_well_formed(body@) && field_usable(token_field(body@, "oauth_token"@))
                && field_usable(token_field(body@, "oauth_token_secret"@)) && Some(t.key@)
                == token_field(body@, "oauth_token"@) && Some(t.secret@) == token_field(
                body@,
                "oauth_token_secret"@,
            ) && t.key@.len() > 0 && t.secret@.len() > 0,
            Err(e) => {
                ||| (e == Error::MalformedResponse && !query_well_formed(body@))
                ||| (e == Error::MissingField && query_well_formed(body@) && !(field_usable(
                    token_field(body@, "oauth_token"@),
                ) && field_usable(token_field(body@, "oauth_token_secret"@))))
            },
        },
{
    let pairs = match split_query(body) {
        Ok(p) => p,
        Err(e) => { return Err(e) },
    };
    let key = match lookup_param(&pairs, "oauth_token") {
        Some(v) => v,
        None => { return Err(Error::MissingField) },
    };
    let secret = match lookup_param(&pairs, "oauth_token_secret") {
        Some(v) => v,
        None => { return Err(Error::MissingField) },
    };
    if key.as_str().is_empty() || secret.as_str().is_empty() {
        return Err(Error::MissingField);
    }
    Ok(Token::new(key, secret))
}

/// Builds the URL the user must visit to authorize a request token: the
/// authorize endpoint with the token key as its only query parameter.
pub fn get_authorize_url(request: &Token) -> (r: String)
    ensures
        r@ == authorize_endpoint() + "?oauth_token="@ + request.key@,
{
    let url = String::from_str(crate::endpoints::authorize_url_base());
    let url = url.concat("?oauth_token=");
    let url = url.concat(request.key.as_str());
    url
}

} // verus!
