use twitter_api::error::Error;
use twitter_api::get_authorize_url;
use twitter_api::parse_token_response;
use twitter_api::query::split_query;
use twitter_api::response_text;
use twitter_api::Token;

#[test]
fn decode_round_trips_an_encoded_mapping() {
    let pairs = split_query("k1=v1&k2=v2&k3=v3").unwrap();
    assert_eq!(
        pairs,
        vec![
            ("k1".to_string(), "v1".to_string()),
            ("k2".to_string(), "v2".to_string()),
            ("k3".to_string(), "v3".to_string()),
        ]
    );
}

#[test]
fn decode_single_pair() {
    let pairs = split_query("a=1").unwrap();
    assert_eq!(pairs, vec![("a".to_string(), "1".to_string())]);
}

#[test]
fn segment_without_separator_is_malformed() {
    assert!(matches!(split_query("a=1&bad"), Err(Error::MalformedResponse)));
}

#[test]
fn empty_body_is_malformed() {
    assert!(matches!(split_query(""), Err(Error::MalformedResponse)));
}

#[test]
fn value_keeps_later_separators() {
    let pairs = split_query("a=b=c").unwrap();
    assert_eq!(pairs, vec![("a".to_string(), "b=c".to_string())]);
}

#[test]
fn empty_value_is_kept_by_the_codec() {
    let pairs = split_query("a=").unwrap();
    assert_eq!(pairs, vec![("a".to_string(), "".to_string())]);
}

#[test]
fn token_response_yields_credential_pair() {
    let t = parse_token_response("oauth_token=abc&oauth_token_secret=xyz").unwrap();
    assert_eq!(t.key, "abc");
    assert_eq!(t.secret, "xyz");
}

#[test]
fn later_duplicate_key_wins() {
    let t = parse_token_response("oauth_token=old&oauth_token=new&oauth_token_secret=s").unwrap();
    assert_eq!(t.key, "new");
    assert_eq!(t.secret, "s");
}

#[test]
fn missing_secret_fails_with_missing_field() {
    assert!(matches!(parse_token_response("oauth_token=abc"), Err(Error::MissingField)));
}

#[test]
fn missing_token_fails_with_missing_field() {
    assert!(matches!(parse_token_response("oauth_token_secret=xyz"), Err(Error::MissingField)));
}

#[test]
fn empty_field_value_fails_with_missing_field() {
    assert!(matches!(
        parse_token_response("oauth_token=&oauth_token_secret=xyz"),
        Err(Error::MissingField)
    ));
}

#[test]
fn malformed_token_response_fails_with_malformed_response() {
    assert!(matches!(parse_token_response("garbage"), Err(Error::MalformedResponse)));
}

#[test]
fn authorize_url_is_exact() {
    let request = Token::new("T123".to_string(), "ignored".to_string());
    let url = get_authorize_url(&request);
    assert_eq!(url, "https://api.twitter.com/oauth/authorize?oauth_token=T123");
}

#[test]
fn token_new_holds_both_parts() {
    let t = Token::new("k".to_string(), "s".to_string());
    assert_eq!(t.key, "k");
    assert_eq!(t.secret, "s");
}

#[test]
fn response_text_accepts_utf8() {
    let t = response_text("oauth_token=a".as_bytes().to_vec()).unwrap();
    assert_eq!(t, "oauth_token=a");
}

#[test]
fn response_text_rejects_invalid_bytes() {
    assert!(matches!(response_text(vec![0xff, 0xfe]), Err(Error::EncodingError)));
}

#[test]
fn transport_error_description_is_the_message() {
    let e = Error::TransportError("connection reset".to_string());
    assert_eq!(e.describe(), "connection reset");
}
