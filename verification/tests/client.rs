//! The client-session layer: URL validation, the session context and its
//! prompt, response-body caching, call-argument parsing, and the string
//! comparison the sorted collection rests on.

use ctxshell::actions::Context;
use ctxshell::actions::parse_call_args;
use ctxshell::actions::straitjacket::{Method, Response, StraitJacket, Url};
use ctxshell::text::{Rel, str_cmp, str_eq};

#[test]
fn url_parse_accepts_scheme_and_rest() {
    for ok in ["https://a.example", "http://x", "ftp+ssh://host:8080/path?q=1", "a://b"] {
        let u = Url::parse(ok).expect("should parse");
        assert_eq!(u.as_str(), ok);
    }
}

#[test]
fn url_parse_rejects_malformed_strings() {
    for bad in [
        "",
        "nonsense",
        "://missing.scheme",
        "1http://digit.first",
        "http://",
        "http:/one.slash",
        "ht tp://space.inside",
        "http://ünïcode",
    ] {
        let e = Url::parse(bad).unwrap_err();
        assert_eq!(e.message(), "invalid URL: expected <scheme>://<rest>");
    }
}

#[test]
fn context_prompt_reflects_selected_host() {
    let mut c = Context::new().unwrap();
    assert_eq!(c.prompt(), ">> ");
    c.set_host(Some("https://a.example")).unwrap();
    assert_eq!(c.prompt(), "https://a.example>> ");
    assert!(c.set_host(Some("not a url")).is_err());
    assert_eq!(c.prompt(), "https://a.example>> ");
    c.set_host(None).unwrap();
    assert_eq!(c.prompt(), ">> ");
}

#[test]
fn context_token_round_trip() {
    let mut c = Context::new().unwrap();
    assert!(c.straitjacket().token().is_none());
    c.set_token(Some("secret".to_string())).unwrap();
    assert_eq!(c.straitjacket().token(), Some("secret"));
    c.set_token(None).unwrap();
    assert!(c.straitjacket().token().is_none());
}

#[test]
fn fetch_body_without_response_fails() {
    let mut sj = StraitJacket::new(None).unwrap();
    let e = sj.fetch_body().unwrap_err();
    assert_eq!(e.message(), "no response");
    let e = sj.fetch_body_as_str().unwrap_err();
    assert_eq!(e.message(), "no response");
}

#[test]
fn fetch_body_caches_the_payload() {
    let mut sj = StraitJacket::new(Some(1_000)).unwrap();
    sj.set_response(Response::new(200, Some(3), vec![1, 2, 3]));
    assert!(sj.body().is_none());
    assert_eq!(sj.fetch_body().unwrap(), &vec![1, 2, 3]);
    assert_eq!(sj.body().unwrap(), &vec![1, 2, 3]);
    assert_eq!(sj.fetch_body().unwrap(), &vec![1, 2, 3]);
    assert_eq!(sj.response().unwrap().status(), 200);
    assert_eq!(sj.response().unwrap().content_length(), Some(3));

    // A new response drops the cached body.
    sj.set_response(Response::new(404, None, vec![9]));
    assert!(sj.body().is_none());
    assert_eq!(sj.fetch_body().unwrap(), &vec![9]);
}

#[test]
fn fetch_body_as_str_decodes_utf8() {
    let mut sj = StraitJacket::new(None).unwrap();
    sj.set_response(Response::new(200, None, b"hello".to_vec()));
    assert_eq!(sj.fetch_body_as_str().unwrap(), "hello");

    let mut sj = StraitJacket::new(None).unwrap();
    sj.set_response(Response::new(200, None, vec![0xff, 0xfe]));
    let e = sj.fetch_body_as_str().unwrap_err();
    assert_eq!(e.message(), "invalid UTF-8 in response body");
}

#[test]
fn response_mut_allows_in_place_edits() {
    let mut sj = StraitJacket::new(None).unwrap();
    assert!(sj.response_mut().is_none());
    sj.set_response(Response::new(200, None, vec![]));
    if let Some(r) = sj.response_mut() {
        r.status = 503;
    }
    assert_eq!(sj.response().unwrap().status(), 503);
}

#[test]
fn parse_call_args_accepts_method_and_path() {
    let args = vec!["GET".to_string(), "/services.json".to_string()];
    let (m, path, qs, body) = parse_call_args(&args).unwrap();
    assert_eq!(m, Method::GET);
    assert_eq!(path, "/services.json");
    assert!(qs.is_none());
    assert!(body.is_none());
}

#[test]
fn parse_call_args_resplits_multiword_arguments() {
    let args = vec!["post /x a=1 {}".to_string()];
    let (m, path, qs, body) = parse_call_args(&args).unwrap();
    assert_eq!(m, Method::POST);
    assert_eq!(path, "/x");
    assert_eq!(qs.as_deref(), Some("a=1"));
    assert_eq!(body.as_deref(), Some("{}"));
}

#[test]
fn parse_call_args_rejects_short_or_unknown_input() {
    let e = parse_call_args(&Vec::new()).unwrap_err();
    assert_eq!(e.message(), "not enough parameters");
    let e = parse_call_args(&vec!["GET".to_string()]).unwrap_err();
    assert_eq!(e.message(), "not enough parameters");
    let e = parse_call_args(&vec!["PATCH".to_string(), "/x".to_string()]).unwrap_err();
    assert_eq!(e.message(), "unknown method");
}

#[test]
fn string_comparison_is_lexicographic() {
    assert!(matches!(str_cmp("a", "b"), Rel::Lt));
    assert!(matches!(str_cmp("b", "a"), Rel::Gt));
    assert!(matches!(str_cmp("same", "same"), Rel::Eq));
    assert!(matches!(str_cmp("ab", "abc"), Rel::Lt));
    assert!(matches!(str_cmp("abc", "ab"), Rel::Gt));
    assert!(str_eq("x", "x"));
    assert!(!str_eq("x", "y"));
}
