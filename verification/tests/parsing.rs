use ghcache::client::query::split_slug;
use ghcache::gh::{
    finish_graphql, parse_body, parse_paginated_body, parse_response, query_data, read_answer, GhClient, GhError,
    GhRequest, GhResponse, Headers, Poll, ResponseError,
};
use ghcache::json::{parse, parse_bytes, to_pretty_text, to_text, Json};
use ghcache::number::{i64_text, parse_i64, parse_unsigned, u64_text};
use ghcache::sql::{esc, quote};
use ghcache::sync::branches::{matches_any, matches_glob};
use ghcache::sync::events::pr_number_from_event;
use ghcache::sync::notifications::parse_subject_url;
use ghcache::text::{lines, second_word, split, take_bytes, trim};
use ghcache::time::parse_moment;

// ---- names and literals ------------------------------------------------------------

#[test]
fn split_slug_valid() {
    assert_eq!(split_slug("myorg/backend").unwrap(), ("myorg", "backend"));
}

#[test]
fn split_slug_missing_name() {
    assert!(split_slug("noname").is_err());
}

#[test]
fn split_slug_keeps_later_slashes() {
    assert_eq!(split_slug("a/b/c").unwrap(), ("a", "b/c"));
    assert_eq!(split_slug("/").unwrap(), ("", ""));
}

#[test]
fn esc_quotes() {
    assert_eq!(esc("O'Brien"), "O''Brien");
}

#[test]
fn quotes_are_doubled_inside_a_literal() {
    assert_eq!(quote("O'Brien"), "'O''Brien'");
    assert_eq!(quote(""), "''");
    assert_eq!(quote("'"), "''''");
}

// ---- answers of gh -----------------------------------------------------------------

#[test]
fn parse_200_response() {
    let raw = "HTTP/2 200\r\ncontent-type: application/json\r\netag: \"abc123\"\r\nX-RateLimit-Remaining: 4998\r\n\r\n{\"foo\":1}";
    let (status, headers, body) = parse_response(raw).unwrap();
    assert_eq!(status, 200);
    assert_eq!(headers.get("etag").map(|s| s.as_str()), Some("\"abc123\""));
    assert_eq!(headers.get("x-ratelimit-remaining").map(|s| s.as_str()), Some("4998"));
    assert_eq!(body, "{\"foo\":1}");
}

#[test]
fn parse_304_response() {
    let raw = "HTTP/2 304\r\n\r\n";
    let (status, _, body) = parse_response(raw).unwrap();
    assert_eq!(status, 304);
    assert_eq!(body, "");
}

#[test]
fn parse_lf_only_response() {
    let raw = "HTTP/2 200\ncontent-type: application/json\n\n{\"x\":2}";
    let (status, _, body) = parse_response(raw).unwrap();
    assert_eq!(status, 200);
    assert_eq!(body, "{\"x\":2}");
}

#[test]
fn parse_paginated_body_merges_arrays() {
    let body = "[{\"id\":1},{\"id\":2}]\n[{\"id\":3}]\n";
    let val = parse_paginated_body(body).unwrap();
    let arr = val.as_array().unwrap();
    assert_eq!(arr.len(), 3);
    assert_eq!(arr[2].at("id").as_i64(), Some(3));
}

#[test]
fn parse_paginated_body_empty() {
    let val = parse_paginated_body("").unwrap();
    assert_eq!(val.as_array().unwrap().len(), 0);
}

#[test]
fn parse_paginated_body_rejects_what_is_not_json() {
    assert!(matches!(parse_paginated_body("[1]\nnope\n"), Err(GhError::Page)));
}

#[test]
fn gh_response_helpers() {
    let raw = "HTTP/2 200\r\nETag: \"xyz\"\r\nLast-Modified: Thu, 01 Jan 2026 00:00:00 GMT\r\nX-Poll-Interval: 60\r\nX-RateLimit-Remaining: 100\r\nX-RateLimit-Reset: 1700000000\r\n\r\nnull";
    let (status, headers, body_str) = parse_response(raw).unwrap();
    let resp = GhResponse {
        status,
        headers,
        body: parse(body_str).unwrap(),
        duration_ms: 10,
    };
    assert_eq!(resp.etag(), Some("\"xyz\""));
    assert_eq!(resp.last_modified(), Some("Thu, 01 Jan 2026 00:00:00 GMT"));
    assert_eq!(resp.poll_interval(), Some(60));
    assert_eq!(resp.rate_remaining(), Some(100));
    assert_eq!(resp.rate_reset(), Some(1700000000));
    assert!(!resp.is_not_modified());
}

#[test]
fn parse_picks_last_http_block_for_paginate() {
    // Two pages, one after the other.
    let raw = "HTTP/2 200\r\netag: \"first\"\r\n\r\n[{\"id\":1}]\nHTTP/2 200\r\netag: \"second\"\r\n\r\n[{\"id\":2}]";
    let (status, headers, _) = parse_response(raw).unwrap();
    assert_eq!(status, 200);
    assert_eq!(headers.get("etag").map(|s| s.as_str()), Some("\"second\""));
}

#[test]
fn every_malformed_answer_is_told_apart() {
    assert!(matches!(parse_response("HTTP/2 200"), Err(ResponseError::NoSeparator)));
    assert!(matches!(parse_response("\n\nbody"), Err(ResponseError::Empty)));
    assert!(matches!(parse_response("HTTP/2\n\nbody"), Err(ResponseError::NoStatus)));
    assert!(matches!(parse_response("HTTP/2 abc\n\nbody"), Err(ResponseError::BadStatus)));
    assert!(matches!(parse_response("HTTP/2 70000\n\nbody"), Err(ResponseError::BadStatus)));
}

#[test]
fn failing_status_is_an_error_with_its_body() {
    let raw = b"HTTP/2 404\r\n\r\n{\"message\":\"Not Found\"}".to_vec();
    match finish_graphql("graphql", &raw, 1) {
        Err(GhError::Status { status, body }) => {
            assert_eq!(status, 404);
            assert_eq!(body, "{\"message\":\"Not Found\"}");
        }
        _ => panic!("expected the status"),
    }
    assert!(matches!(parse_body(200, "nope", false), Err(GhError::Body)));
    // A request that is no query hands a failing status on.
    let resp = read_answer("HTTP/2 404\r\n\r\n{}", false, 1).ok().unwrap();
    assert_eq!(resp.status, 404);
}

#[test]
fn unchanged_answer_is_a_cache_hit() {
    let resp = match read_answer("HTTP/2 304\r\nETag: \"a\"\r\n\r\n", true, 3) {
        Ok(r) => r,
        Err(_) => panic!("a 304 is an answer"),
    };
    assert!(resp.is_not_modified());
    assert!(resp.body.is_null());
    assert_eq!(resp.duration_ms, 3);
}

#[test]
fn query_errors_are_reported_as_they_are() {
    match query_data(&parse("{\"errors\":[{\"message\":\"x\"}],\"data\":{\"a\":1}}").unwrap()) {
        Err(GhError::GraphQl(text)) => assert_eq!(text, "[{\"message\":\"x\"}]"),
        _ => panic!("expected the errors"),
    }
    match query_data(&parse("{\"data\":{\"a\":1}}").unwrap()) {
        Ok(data) => assert_eq!(data.at("a").as_i64(), Some(1)),
        Err(_) => panic!("expected the data"),
    }
}

#[test]
fn later_header_of_one_name_counts() {
    let mut h = Headers::new();
    h.insert("etag".to_owned(), "one".to_owned());
    h.insert("etag".to_owned(), "two".to_owned());
    assert_eq!(h.text("etag"), Some("two"));
    assert_eq!(h.text("other"), None);
    assert_eq!(h.number("etag"), None);
}

// ---- requests ----------------------------------------------------------------------

#[test]
fn request_becomes_arguments() {
    let gh = GhClient::new("gh");
    let plain = gh.call(&GhRequest::get("/user"));
    assert_eq!(plain.program, "gh");
    assert_eq!(plain.args[0], "api");
    assert!(plain.args.contains(&"/user".to_owned()));
    assert!(!plain.args.contains(&"--paginate".to_owned()));

    let known = gh.call(
        &GhRequest::get("/x").with_etag("\"t\"").with_last_modified("yesterday").paginated(),
    );
    assert!(known.args.contains(&"--paginate".to_owned()));
    assert!(known.args.contains(&"If-None-Match: \"t\"".to_owned()));
    assert!(known.args.contains(&"If-Modified-Since: yesterday".to_owned()));
}

#[test]
fn known_tag_is_sent_with_the_next_request() {
    let poll = Poll::pages("/repos/o/n/events".to_owned(), Some("\"abc\"".to_owned()));
    let args = GhClient::new("gh").call(&poll.request()).args;
    assert!(args.contains(&"If-None-Match: \"abc\"".to_owned()));
    let first = Poll::pages("/repos/o/n/events".to_owned(), None);
    let args = GhClient::new("gh").call(&first.request()).args;
    assert!(!args.iter().any(|a| a.starts_with("If-None-Match")));
}

#[test]
fn query_becomes_arguments() {
    let inv = GhClient::new("/opt/gh").graphql("{ viewer { login } }");
    assert_eq!(inv.program, "/opt/gh");
    assert!(inv.args.contains(&"query={ viewer { login } }".to_owned()));
}

// ---- patterns ----------------------------------------------------------------------

#[test]
fn glob_exact_match() {
    assert!(matches_glob("main", "main"));
    assert!(!matches_glob("main", "master"));
}

#[test]
fn glob_wildcard() {
    assert!(matches_glob("release/*", "release/1.0"));
    assert!(matches_glob("release/*", "release/2.0-rc"));
    assert!(!matches_glob("release/*", "hotfix/thing"));
}

#[test]
fn glob_star_is_special_at_the_end_only() {
    assert!(matches_glob("*", ""));
    assert!(matches_glob("*", "anything"));
    assert!(!matches_glob("*x", "anyx"));
    assert!(matches_any(&vec!["a".to_owned(), "b*".to_owned()], "bcd"));
    assert!(!matches_any(&Vec::new(), "bcd"));
}

// ---- notifications -----------------------------------------------------------------

#[test]
fn parse_subject_url_pulls() {
    let url = "https://api.github.com/repos/myorg/backend/pulls/42";
    let (html, num) = parse_subject_url(url);
    assert_eq!(html.as_deref(), Some("https://github.com/myorg/backend/pull/42"));
    assert_eq!(num, Some(42));
}

#[test]
fn parse_subject_url_issues() {
    let url = "https://api.github.com/repos/myorg/backend/issues/7";
    let (html, num) = parse_subject_url(url);
    assert_eq!(html.as_deref(), Some("https://github.com/myorg/backend/issues/7"));
    assert_eq!(num, Some(7));
}

#[test]
fn parse_subject_url_commit() {
    let url = "https://api.github.com/repos/myorg/backend/commits/abc123";
    let (html, num) = parse_subject_url(url);
    assert_eq!(html.as_deref(), Some("https://github.com/myorg/backend/commit/abc123"));
    assert_eq!(num, None);
}

#[test]
fn parse_subject_url_unknown() {
    let (html, num) = parse_subject_url("https://example.com/other");
    assert_eq!(html, None);
    assert_eq!(num, None);
}

// ---- events ------------------------------------------------------------------------

#[test]
fn only_events_about_pull_requests_name_one() {
    let opened = parse("{\"number\":42}").unwrap();
    assert_eq!(pr_number_from_event("PullRequestEvent", &opened), Some(42));
    let reviewed = parse("{\"pull_request\":{\"number\":17}}").unwrap();
    assert_eq!(pr_number_from_event("PullRequestReviewEvent", &reviewed), Some(17));
    assert_eq!(pr_number_from_event("PushEvent", &opened), None);
}

// ---- JSON --------------------------------------------------------------------------

#[test]
fn json_text_is_compact_and_reads_back() {
    let v = parse(" { \"b\" : [1, true, null], \"a\" : \"x\\ny\" } ").unwrap();
    let text = to_text(&v);
    assert_eq!(text, "{\"a\":\"x\\ny\",\"b\":[1,true,null]}");
    assert!(!text.contains('\n'));
    assert_eq!(to_text(&parse(&text).unwrap()), text);
    assert_eq!(to_text(&Json::Null), "null");
    assert_eq!(to_text(&Json::Bool(false)), "false");
    assert_eq!(to_text(&Json::Int(-7)), "-7");
}

#[test]
fn json_pretty_text_is_indented() {
    let v = parse("{\"a\":1}").unwrap();
    assert_eq!(to_pretty_text(&v), "{\n  \"a\": 1\n}");
}

#[test]
fn json_of_bytes_is_json_of_their_text() {
    assert_eq!(parse_bytes(&b"[1,2]".to_vec()).unwrap().as_array().unwrap().len(), 2);
    assert!(parse_bytes(&vec![0xff, 0xfe]).is_none());
    assert!(parse_bytes(&b"\"\xff\"".to_vec()).is_none());
    assert!(parse_bytes(&b"\"\xc3\\u0041\"".to_vec()).is_none());
    assert_eq!(parse_bytes(&"\"é\"".as_bytes().to_vec()).unwrap().as_str(), Some("é"));
    assert!(parse("{").is_none());
}

#[test]
fn numbers_beyond_i64_keep_their_text() {
    let v = parse("[18446744073709551615, 1.5]").unwrap();
    let a = v.as_array().unwrap();
    assert!(matches!(&a[0], Json::Number(n) if n.to_string() == "18446744073709551615"));
    assert!(matches!(&a[1], Json::Number(n) if n.to_string() == "1.5"));
    assert_eq!(to_text(&v), "[18446744073709551615,1.5]");
}

#[test]
fn numbers_are_written_as_they_were_first_read() {
    for text in [
        "0.1",
        "1e3",
        "-0.0",
        "-0",
        "1.7976931348623157e308",
        "2.2250738585072011e-308",
        "123456789012345678901234567890",
        "0.30000000000000004",
        "9007199254740993.0",
        "8.41e21",
        "9223372036854775808",
        "-9223372036854775809",
    ] {
        let once: serde_json::Value = serde_json::from_str(text).unwrap();
        assert_eq!(to_text(&parse(text).unwrap()), once.to_string());
        let nested = format!("{{\"a\":[{text}]}}");
        let once: serde_json::Value = serde_json::from_str(&nested).unwrap();
        assert_eq!(to_text(&parse(&nested).unwrap()), once.to_string());
    }
}

#[test]
fn later_member_of_one_name_counts() {
    let v = Json::Object(vec![
        ("a".to_owned(), Json::Int(1)),
        ("a".to_owned(), Json::Int(2)),
    ]);
    assert_eq!(v.at("a").as_i64(), Some(2));
    assert_eq!(to_text(&v), "{\"a\":2}");
}

// ---- numbers, texts and times ------------------------------------------------------

#[test]
fn numbers_are_read_as_they_are_written() {
    for n in [0, 1, -1, 42, i64::MAX, i64::MIN] {
        assert_eq!(parse_i64(i64_text(n).as_str()), Some(n));
    }
    assert_eq!(i64_text(i64::MIN), "-9223372036854775808");
    assert_eq!(parse_i64("9223372036854775808"), None);
    assert_eq!(parse_i64("+5"), Some(5));
    assert_eq!(parse_i64(""), None);
    assert_eq!(parse_i64("-"), None);
    assert_eq!(parse_i64("1x"), None);
    assert_eq!(u64_text(u64::MAX), "18446744073709551615");
    assert_eq!(parse_unsigned("65535", 65535), Some(65535));
    assert_eq!(parse_unsigned("65536", 65535), None);
    assert_eq!(parse_unsigned("-1", 65535), None);
}

#[test]
fn texts_are_taken_apart_like_those_of_std() {
    for s in ["", "a", "a\nb", "a\r\nb\r\n", "\n\n", "a\n\nb\n", " x y\tz ", "é è"] {
        assert_eq!(lines(s), s.lines().map(|l| l.to_owned()).collect::<Vec<_>>());
        assert_eq!(trim(s), s.trim());
        assert_eq!(second_word(s), s.split_whitespace().nth(1));
        assert_eq!(split(s, ' '), s.split(' ').map(|l| l.to_owned()).collect::<Vec<_>>());
        for n in 0..8 {
            assert_eq!(take_bytes(s, n), s.get(..n));
        }
    }
}

#[test]
fn moments_are_read_with_their_offset() {
    let a = parse_moment("2026-01-01T00:00:00Z").unwrap();
    let b = parse_moment("2026-01-01T02:00:30.5+02:00").unwrap();
    assert_eq!(a.secs, 1767225600);
    assert_eq!(b.elapsed_seconds(&a), 30);
    assert_eq!(b.elapsed_nanos(&a), 30_500_000_000);
    assert!(parse_moment("yesterday").is_none());
}
