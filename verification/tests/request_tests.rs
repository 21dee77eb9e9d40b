use twitter_api::endpoints;
use twitter_api::request::access_token_request;
use twitter_api::request::home_timeline_request;
use twitter_api::request::request_token_request;
use twitter_api::request::update_status_request;
use twitter_api::request::Method;

#[test]
fn endpoint_urls_are_exact() {
    assert_eq!(endpoints::request_token_url(), "https://api.twitter.com/oauth/request_token");
    assert_eq!(endpoints::authorize_url_base(), "https://api.twitter.com/oauth/authorize");
    assert_eq!(endpoints::access_token_url(), "https://api.twitter.com/oauth/access_token");
    assert_eq!(endpoints::update_status_url(), "https://api.twitter.com/1.1/statuses/update.json");
    assert_eq!(
        endpoints::home_timeline_url(),
        "https://api.twitter.com/1.1/statuses/home_timeline.json"
    );
}

#[test]
fn request_token_call_has_no_extra_params() {
    let r = request_token_request();
    assert_eq!(r.method, Method::Get);
    assert_eq!(r.url, "https://api.twitter.com/oauth/request_token");
    assert!(r.params.is_empty());
}

#[test]
fn access_token_call_carries_the_pin() {
    let r = access_token_request("7777");
    assert_eq!(r.method, Method::Get);
    assert_eq!(r.url, "https://api.twitter.com/oauth/access_token");
    assert_eq!(r.params, vec![("oauth_verifier".to_string(), "7777".to_string())]);
}

#[test]
fn update_status_call_posts_the_text() {
    let r = update_status_request("hello world");
    assert_eq!(r.method, Method::Post);
    assert_eq!(r.url, "https://api.twitter.com/1.1/statuses/update.json");
    assert_eq!(r.params, vec![("status".to_string(), "hello world".to_string())]);
}

#[test]
fn home_timeline_call_has_no_extra_params() {
    let r = home_timeline_request();
    assert_eq!(r.method, Method::Get);
    assert_eq!(r.url, "https://api.twitter.com/1.1/statuses/home_timeline.json");
    assert!(r.params.is_empty());
}
