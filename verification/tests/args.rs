use httpie::args::{parse_pairs, parse_url, validate_url, Command, KvPair, UrlParts};
use httpie::error::ParseError;

#[test]
fn parse_url_works() {
    assert!(parse_url("url").is_err());
    assert!(parse_url("http://abc.xyz").is_ok());
    assert!(parse_url("https://httpbin.org/post").is_ok());
}

#[test]
fn parse_kv_pair_works() {
    assert!(KvPair::from_str("a").is_err());
    assert_eq!(
        KvPair::from_str("a=1").unwrap(),
        KvPair {
            k: "a".into(),
            v: "1".into(),
        }
    );
    assert_eq!(
        KvPair::from_str("b=").unwrap(),
        KvPair {
            k: "b".into(),
            v: "".into(),
        }
    );
}

#[test]
fn parse_url_gives_the_normal_form() {
    assert_eq!(parse_url("http://abc.xyz").unwrap(), "http://abc.xyz/");
    assert_eq!(parse_url("HTTPS://HttpBin.org/post").unwrap(), "https://httpbin.org/post");
}

#[test]
fn parse_url_refuses_what_has_no_scheme() {
    assert_eq!(parse_url("not-a-url"), Err(ParseError::InvalidUrl));
    assert_eq!(parse_url(""), Err(ParseError::InvalidUrl));
    assert_eq!(parse_url("//abc.xyz/path"), Err(ParseError::InvalidUrl));
    assert_eq!(parse_url("abc.xyz"), Err(ParseError::InvalidUrl));
}

#[test]
fn parse_url_refuses_what_does_not_begin_with_a_scheme() {
    assert_eq!(parse_url("1http://abc.xyz"), Err(ParseError::InvalidUrl));
    assert_eq!(parse_url("/path:x"), Err(ParseError::InvalidUrl));
    assert_eq!(parse_url("ht_tp://abc.xyz"), Err(ParseError::InvalidUrl));
    assert_eq!(parse_url("ht tp://abc.xyz"), Err(ParseError::InvalidUrl));
    assert_eq!(parse_url("\u{e4}bc://abc.xyz"), Err(ParseError::InvalidUrl));
    assert_eq!(parse_url(":"), Err(ParseError::InvalidUrl));
}

#[test]
fn parse_url_drops_blanks_around_and_tabs_inside() {
    assert_eq!(parse_url("  http://abc.xyz \n").unwrap(), "http://abc.xyz/");
    assert_eq!(parse_url("ht\ttp://abc.xyz").unwrap(), "http://abc.xyz/");
}

#[test]
fn parse_url_refuses_what_has_no_host() {
    assert_eq!(parse_url("mailto:someone@abc.xyz"), Err(ParseError::InvalidUrl));
    assert_eq!(parse_url("data:text/plain,hello"), Err(ParseError::InvalidUrl));
    assert_eq!(parse_url("unix:/run/foo.socket"), Err(ParseError::InvalidUrl));
    assert_eq!(parse_url("http://"), Err(ParseError::InvalidUrl));
}

#[test]
fn validate_url_asks_for_a_host() {
    let with_host = UrlParts { text: "http://abc.xyz/".to_string(), has_host: true };
    let without = UrlParts { text: "mailto:a@b.c".to_string(), has_host: false };
    assert_eq!(validate_url(Some(with_host)), Ok("http://abc.xyz/".to_string()));
    assert_eq!(validate_url(Some(without)), Err(ParseError::InvalidUrl));
    assert_eq!(validate_url(None), Err(ParseError::InvalidUrl));
}

#[test]
fn pair_is_cut_at_the_first_equals_sign() {
    let pair = KvPair::from_str("a=1=2").unwrap();
    assert_eq!(pair.k, "a");
    assert_eq!(pair.v, "1=2");
    let pair = KvPair::from_str("q=x==").unwrap();
    assert_eq!(pair.k, "q");
    assert_eq!(pair.v, "x==");
}

#[test]
fn pair_needs_a_key() {
    assert_eq!(KvPair::from_str("=1"), Err(ParseError::InvalidKeyValue("=1".to_string())));
    assert_eq!(KvPair::from_str("="), Err(ParseError::InvalidKeyValue("=".to_string())));
    assert_eq!(KvPair::from_str(""), Err(ParseError::InvalidKeyValue(String::new())));
    assert_eq!(KvPair::from_str("abc"), Err(ParseError::InvalidKeyValue("abc".to_string())));
}

#[test]
fn pair_may_hold_any_characters() {
    let pair = KvPair::from_str("n\u{e4}me=v\u{e4}lue \u{1f600}").unwrap();
    assert_eq!(pair.k, "n\u{e4}me");
    assert_eq!(pair.v, "v\u{e4}lue \u{1f600}");
}

#[test]
fn pair_duplicate_is_equal() {
    let pair = KvPair::from_str("a=1").unwrap();
    assert_eq!(pair.duplicate(), pair);
}

#[test]
fn parse_pairs_keeps_the_order() {
    let tokens = vec!["b=2".to_string(), "a=1".to_string(), "b=3".to_string()];
    let pairs = parse_pairs(&tokens).unwrap();
    assert_eq!(
        pairs,
        vec![
            KvPair { k: "b".into(), v: "2".into() },
            KvPair { k: "a".into(), v: "1".into() },
            KvPair { k: "b".into(), v: "3".into() },
        ]
    );
    assert_eq!(parse_pairs(&Vec::new()), Ok(Vec::new()));
}

#[test]
fn parse_pairs_fails_on_one_bad_token() {
    let tokens = vec!["a=1".to_string(), "oops".to_string(), "c=3".to_string()];
    assert_eq!(parse_pairs(&tokens), Err(ParseError::InvalidKeyValue("oops".to_string())));
    let two = vec!["=x".to_string(), "y".to_string()];
    assert_eq!(parse_pairs(&two), Err(ParseError::InvalidKeyValue("=x".to_string())));
}

#[test]
fn command_get_holds_the_url() {
    assert_eq!(
        Command::get("http://abc.xyz"),
        Ok(Command::Get { url: "http://abc.xyz/".to_string() })
    );
    assert_eq!(Command::get("not-a-url"), Err(ParseError::InvalidUrl));
}

#[test]
fn command_post_holds_url_and_pairs() {
    let tokens = vec!["foo=bar".to_string(), "n=".to_string()];
    assert_eq!(
        Command::post("https://httpbin.org/post", &tokens),
        Ok(Command::Post {
            url: "https://httpbin.org/post".to_string(),
            pairs: vec![
                KvPair { k: "foo".into(), v: "bar".into() },
                KvPair { k: "n".into(), v: "".into() },
            ],
        })
    );
}

#[test]
fn command_post_judges_the_url_first() {
    let bad = vec!["oops".to_string()];
    assert_eq!(Command::post("not-a-url", &bad), Err(ParseError::InvalidUrl));
    assert_eq!(
        Command::post("http://abc.xyz", &bad),
        Err(ParseError::InvalidKeyValue("oops".to_string()))
    );
}

#[test]
fn parse_error_messages() {
    assert_eq!(ParseError::InvalidUrl.message(), "invalid URL");
    assert_eq!(ParseError::InvalidKeyValue("a".to_string()).message(), "Failed to parse a");
    assert_eq!(ParseError::InvalidKeyValue(String::new()).message(), "Failed to parse ");
    assert_eq!(KvPair::from_str("a").unwrap_err().message(), "Failed to parse a");
    assert_eq!(KvPair::from_str("=\u{e4} b").unwrap_err().message(), "Failed to parse =\u{e4} b");
}

#[test]
fn get_not_a_url_is_refused_with_a_message() {
    let error = Command::get("not-a-url").unwrap_err();
    assert_eq!(error, ParseError::InvalidUrl);
    assert!(error.message().contains("invalid URL"));
}
