use twitter_api::error::Error;
use twitter_api::Tweet;

fn serde_reference(s: &str) -> Option<Vec<(String, String)>> {
    let v: serde_json::Value = serde_json::from_str(s).ok()?;
    let arr = v.as_array()?;
    let mut out = Vec::new();
    for item in arr {
        let obj = item.as_object()?;
        let c = obj.get("created_at")?.as_str()?;
        let t = obj.get("text")?.as_str()?;
        out.push((c.to_string(), t.to_string()));
    }
    Some(out)
}

#[test]
fn one_tweet_decodes() {
    let ts = Tweet::parse_timeline(r#"[{"created_at":"Mon Jan 1","text":"hello"}]"#.to_string())
        .unwrap();
    assert_eq!(ts.len(), 1);
    assert_eq!(ts[0].text, "hello");
    assert_eq!(ts[0].created_at, "Mon Jan 1");
}

#[test]
fn malformed_json_fails_with_deserialization_error() {
    assert!(matches!(
        Tweet::parse_timeline("this is not json".to_string()),
        Err(Error::DeserializationError)
    ));
}

#[test]
fn truncated_document_fails() {
    assert!(matches!(
        Tweet::parse_timeline(r#"[{"created_at":"c","text":"#.to_string()),
        Err(Error::DeserializationError)
    ));
}

#[test]
fn empty_array_is_an_empty_timeline() {
    let ts = Tweet::parse_timeline("[]".to_string()).unwrap();
    assert!(ts.is_empty());
}

#[test]
fn extra_members_are_ignored() {
    let json = r#"[{"id":123,"user":{"name":"x","tags":[1,2,3]},"created_at":"c","retweeted":false,"text":"t","geo":null}]"#;
    let ts = Tweet::parse_timeline(json.to_string()).unwrap();
    assert_eq!(ts.len(), 1);
    assert_eq!(ts[0].created_at, "c");
    assert_eq!(ts[0].text, "t");
}

#[test]
fn several_tweets_keep_platform_order() {
    let json = r#"[{"created_at":"c1","text":"t1"},{"text":"t2","created_at":"c2"}]"#;
    let ts = Tweet::parse_timeline(json.to_string()).unwrap();
    assert_eq!(ts.len(), 2);
    assert_eq!(ts[0].text, "t1");
    assert_eq!(ts[1].text, "t2");
    assert_eq!(ts[1].created_at, "c2");
}

#[test]
fn missing_required_member_fails() {
    assert!(matches!(
        Tweet::parse_timeline(r#"[{"created_at":"c"}]"#.to_string()),
        Err(Error::DeserializationError)
    ));
}

#[test]
fn duplicated_required_member_fails() {
    assert!(matches!(
        Tweet::parse_timeline(r#"[{"created_at":"c","text":"a","text":"b"}]"#.to_string()),
        Err(Error::DeserializationError)
    ));
}

#[test]
fn non_string_required_member_fails() {
    assert!(matches!(
        Tweet::parse_timeline(r#"[{"created_at":"c","text":7}]"#.to_string()),
        Err(Error::DeserializationError)
    ));
}

#[test]
fn non_object_item_fails() {
    assert!(matches!(
        Tweet::parse_timeline(r#"["just a string"]"#.to_string()),
        Err(Error::DeserializationError)
    ));
}

#[test]
fn top_level_object_fails() {
    assert!(matches!(
        Tweet::parse_timeline(r#"{"created_at":"c","text":"t"}"#.to_string()),
        Err(Error::DeserializationError)
    ));
}

#[test]
fn trailing_content_fails() {
    assert!(matches!(
        Tweet::parse_timeline(r#"[] trailing"#.to_string()),
        Err(Error::DeserializationError)
    ));
}

#[test]
fn trailing_comma_fails() {
    assert!(matches!(
        Tweet::parse_timeline(r#"[{"created_at":"c","text":"t"},]"#.to_string()),
        Err(Error::DeserializationError)
    ));
}

#[test]
fn whitespace_is_insignificant() {
    let json = " [ { \"created_at\" : \"c\" ,\n\t\"text\" : \"t\" } ] ";
    let ts = Tweet::parse_timeline(json.to_string()).unwrap();
    assert_eq!(ts.len(), 1);
    assert_eq!(ts[0].created_at, "c");
}

#[test]
fn string_escapes_decode() {
    let json = r#"[{"created_at":"A\n","text":"a\"b\\c\/d\t\r\b\f"}]"#;
    let ts = Tweet::parse_timeline(json.to_string()).unwrap();
    assert_eq!(ts[0].created_at, "A\n");
    assert_eq!(ts[0].text, "a\"b\\c/d\t\r\u{8}\u{c}");
}

#[test]
fn surrogate_pair_escape_decodes() {
    let json = r#"[{"created_at":"c","text":"\ud83d\ude00"}]"#;
    let ts = Tweet::parse_timeline(json.to_string()).unwrap();
    assert_eq!(ts[0].text, "\u{1f600}");
}

#[test]
fn lone_surrogate_escape_fails() {
    assert!(matches!(
        Tweet::parse_timeline(r#"[{"created_at":"c","text":"\ud83d"}]"#.to_string()),
        Err(Error::DeserializationError)
    ));
}

#[test]
fn unescaped_control_character_fails() {
    let json = "[{\"created_at\":\"c\",\"text\":\"a\u{1}b\"}]";
    assert!(matches!(
        Tweet::parse_timeline(json.to_string()),
        Err(Error::DeserializationError)
    ));
}

#[test]
fn unknown_member_numbers_follow_the_json_grammar() {
    let ok = r#"[{"n":0,"m":-1.5e10,"p":1e+3,"created_at":"c","text":"t"}]"#;
    assert!(Tweet::parse_timeline(ok.to_string()).is_ok());
    let leading_zero = r#"[{"n":01,"created_at":"c","text":"t"}]"#;
    assert!(Tweet::parse_timeline(leading_zero.to_string()).is_err());
    let bare_dot = r#"[{"n":1.,"created_at":"c","text":"t"}]"#;
    assert!(Tweet::parse_timeline(bare_dot.to_string()).is_err());
    let bare_minus = r#"[{"n":-,"created_at":"c","text":"t"}]"#;
    assert!(Tweet::parse_timeline(bare_minus.to_string()).is_err());
}

#[test]
fn escaped_member_name_matches() {
    let json = r#"[{"\u0074ext":"t","created_at":"c"}]"#;
    let ts = Tweet::parse_timeline(json.to_string()).unwrap();
    assert_eq!(ts[0].text, "t");
}

#[test]
fn decoder_agrees_with_reference_parser() {
    let cases = [
        r#"[{"created_at":"Mon Jan 1","text":"hello"}]"#,
        r#"[]"#,
        r#"[{"created_at":"c","text":"t","extra":[{"deep":{"er":[true,null,1.5]}}]}]"#,
        r#"[{"created_at":"é😀","text":"x\ny"}]"#,
        r#"[{"created_at":"c","text":"t"},{"created_at":"d","text":"u"}]"#,
        r#"not json"#,
        r#"[{"created_at":"c"}]"#,
        r#"[{"created_at":2,"text":"t"}]"#,
        r#"[[]]"#,
        r#"[{"created_at":"c","text":"t"}] extra"#,
        r#"{"a":1}"#,
    ];
    for case in cases {
        let mine = Tweet::parse_timeline(case.to_string())
            .map(|ts| ts.into_iter().map(|t| (t.created_at, t.text)).collect::<Vec<_>>())
            .ok();
        let reference = serde_reference(case);
        assert_eq!(mine, reference, "disagreement on {case}");
    }
}
