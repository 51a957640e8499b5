use ghcache::client;
use ghcache::client::cmd::{is_known, read_answer, subscribed_path};
use ghcache::client::stream::{read_line, EventStream, StreamLine};
use ghcache::client::tail::ChangeEvent;
use ghcache::cmd::{
    ensure_repo, ok_answer, paused_after, route, subscribe_answer, subscribed, Route,
    SubscribeReq, Subscriptions,
};
use ghcache::http::{
    post_request, read_header, read_request_line, respond_200, Head, HeaderLine, NOT_FOUND,
};
use ghcache::json::{parse, Json};
use ghcache::serve::{event_frame, start_after};

const SECOND: u128 = 1_000_000_000;

#[test]
fn subscriptions_upsert_and_heartbeat() {
    let mut subs = Subscriptions::new(30 * SECOND);
    subs.upsert("u1".into(), "myorg".into(), "backend".into(), false, 0);
    assert!(subs.heartbeat("u1", 0));
    assert!(!subs.heartbeat("u2", 0));
}

#[test]
fn subscriptions_active_pr_sync_repos() {
    let mut subs = Subscriptions::new(30 * SECOND);
    subs.upsert("u1".into(), "myorg".into(), "backend".into(), false, 0);
    subs.upsert("u2".into(), "myorg".into(), "backend".into(), true, 0);
    subs.upsert("u3".into(), "myorg".into(), "frontend".into(), false, 0);

    let repos = subs.active_pr_sync_repos(0);
    assert_eq!(repos.len(), 1);
    assert_eq!(repos[0], ("myorg".into(), "backend".into()));
}

#[test]
fn subscriptions_pr_sync_upgrades_on_upsert() {
    let mut subs = Subscriptions::new(30 * SECOND);
    subs.upsert("u1".into(), "myorg".into(), "backend".into(), false, 0);
    assert!(subs.active_pr_sync_repos(0).is_empty());
    // Same uuid upgrades pr_sync for the same repo
    subs.upsert("u1".into(), "myorg".into(), "backend".into(), true, 0);
    assert_eq!(subs.active_pr_sync_repos(0).len(), 1);
}

#[test]
fn subscriptions_sweep_removes_expired() {
    let mut subs = Subscriptions::new(1);
    subs.upsert("u1".into(), "myorg".into(), "backend".into(), true, 0);
    subs.sweep(1_000_000);
    assert!(subs.active_pr_sync_repos(1_000_000).is_empty());
    assert!(!subs.heartbeat("u1", 1_000_000));
}

#[test]
fn wish_is_never_withdrawn() {
    let mut subs = Subscriptions::new(30 * SECOND);
    subs.upsert("u1".into(), "o".into(), "n".into(), true, 0);
    subs.upsert("u1".into(), "o".into(), "n".into(), false, 0);
    assert_eq!(subs.active_pr_sync_repos(0).len(), 1);
}

#[test]
fn silent_client_counts_no_more() {
    let mut subs = Subscriptions::new(30 * SECOND);
    subs.upsert("u1".into(), "o".into(), "n".into(), true, 0);
    assert_eq!(subs.active_pr_sync_repos(29 * SECOND).len(), 1);
    assert!(subs.active_pr_sync_repos(31 * SECOND).is_empty());
    assert!(subs.heartbeat("u1", 29 * SECOND));
    assert_eq!(subs.active_pr_sync_repos(31 * SECOND).len(), 1);
}

#[test]
fn ended_subscription_is_not_revived() {
    let mut subs = Subscriptions::new(30 * SECOND);
    subs.upsert("u1".into(), "o".into(), "n".into(), true, 0);
    assert!(!subs.heartbeat("u1", 30 * SECOND));
    assert!(!subs.heartbeat("u1", 31 * SECOND));
    assert!(subs.active_pr_sync_repos(31 * SECOND).is_empty());
    subs.upsert("u1".into(), "o".into(), "m".into(), true, 32 * SECOND);
    assert!(subs.heartbeat("u1", 33 * SECOND));
    assert_eq!(subs.active_pr_sync_repos(33 * SECOND), vec![("o".to_owned(), "m".to_owned())]);
}

#[test]
fn client_is_registered_only_after_the_clone() {
    let mut subs = Subscriptions::new(30 * SECOND);
    let req = || SubscribeReq {
        uuid: "u1".into(),
        owner: "o".into(),
        repo: "n".into(),
        pr_sync: true,
        notifications: false,
    };
    assert!(subscribed(&mut subs, req(), "/s/o/n", false, 0).is_none());
    assert!(subs.active_pr_sync_repos(0).is_empty());
    assert!(!subs.heartbeat("u1", 0));
    let answer = subscribed(&mut subs, req(), "/s/o/n", true, 0).unwrap();
    assert_eq!(answer, subscribe_answer("/s/o/n"));
    assert_eq!(subs.active_pr_sync_repos(0), vec![("o".to_owned(), "n".to_owned())]);
}

#[test]
fn sweeping_keeps_whoever_is_alive() {
    let mut subs = Subscriptions::new(30 * SECOND);
    subs.upsert("u1".into(), "o".into(), "n".into(), true, 0);
    subs.upsert("u2".into(), "o".into(), "m".into(), true, 20 * SECOND);
    let before = subs.active_pr_sync_repos(40 * SECOND);
    subs.sweep(40 * SECOND);
    assert_eq!(subs.active_pr_sync_repos(40 * SECOND), before);
    assert_eq!(before, vec![("o".to_owned(), "m".to_owned())]);
}

#[test]
fn notifications_are_wished_for_apart() {
    let mut subs = Subscriptions::new(30 * SECOND);
    let req = SubscribeReq {
        uuid: "u1".into(),
        owner: "o".into(),
        repo: "n".into(),
        pr_sync: false,
        notifications: true,
    };
    subs.subscribe(req, 0);
    assert!(subs.active_pr_sync_repos(0).is_empty());
    assert_eq!(
        subs.active_notifications_repos(0),
        vec![("o".to_owned(), "n".to_owned())]
    );
}

// ---- the server --------------------------------------------------------------------

#[test]
fn requests_are_routed_by_method_and_path() {
    assert!(matches!(route("GET", "/events"), Route::Events));
    assert!(matches!(route("POST", "/subscribe"), Route::Subscribe));
    assert!(matches!(route("POST", "/heartbeat"), Route::Heartbeat));
    assert!(matches!(route("POST", "/pause"), Route::Pause));
    assert!(matches!(route("POST", "/resume"), Route::Resume));
    assert!(matches!(route("GET", "/subscribe"), Route::NotFound));
    assert!(matches!(route("POST", "/"), Route::NotFound));
}

#[test]
fn pause_and_resume_switch_the_sync() {
    assert!(paused_after(Route::Pause, false));
    assert!(!paused_after(Route::Resume, true));
    assert!(paused_after(Route::Heartbeat, true));
    assert!(!paused_after(Route::Heartbeat, false));
}

#[test]
fn heads_are_read_line_by_line() {
    assert_eq!(read_request_line("POST /subscribe HTTP/1.1"), Some(("POST", "/subscribe")));
    assert_eq!(read_request_line("nonsense"), None);
    assert!(matches!(read_header("Content-Length: 12\r\n"), HeaderLine::ContentLength(12)));
    assert!(matches!(read_header("Last-Event-ID: 7\r\n"), HeaderLine::LastEventId(7)));
    assert!(matches!(read_header("Host: x\r\n"), HeaderLine::Other));
    assert!(matches!(read_header("\r\n"), HeaderLine::End));

    let mut head = Head::new();
    for line in ["Host: x\r\n", "content-length: 5\r\n", "\r\n"] {
        assert!(!head.complete);
        head.read(line);
    }
    assert!(head.complete);
    assert_eq!(head.content_length, 5);
    assert_eq!(head.last_event_id, None);
}

#[test]
fn posted_request_reads_back() {
    let text = post_request("/pause", "{\"é\":1}");
    let (head, body) = text.split_once("\r\n\r\n").unwrap();
    let mut lines = head.split("\r\n");
    assert_eq!(read_request_line(lines.next().unwrap()), Some(("POST", "/pause")));
    let mut h = Head::new();
    for l in lines {
        h.read(l);
    }
    assert_eq!(h.content_length, body.len());
    assert_eq!(body, "{\"é\":1}");
}

#[test]
fn answers_name_the_length_of_their_body_in_bytes() {
    let text = respond_200("\"é\"");
    assert!(text.starts_with("HTTP/1.1 200"));
    assert!(text.contains("Content-Length: 4\r\n"));
    assert!(text.ends_with("\r\n\r\n\"é\""));
    assert!(NOT_FOUND.starts_with("HTTP/1.1 404"));
    let mut head = Head::new();
    for line in NOT_FOUND.lines().skip(1) {
        head.read(line);
    }
    assert!(head.complete);
    assert_eq!(head.content_length, 0);
}

#[test]
fn checkouts_are_cloned_once_and_then_fetched() {
    let clone = ensure_repo("/s/o/n", false, "o", "n");
    assert_eq!(clone.program, "gh");
    assert_eq!(clone.args, vec!["repo", "clone", "o/n", "/s/o/n"]);
    let fetch = ensure_repo("/s/o/n", true, "o", "n");
    assert_eq!(fetch.program, "git");
    assert_eq!(fetch.args, vec!["-C", "/s/o/n", "fetch", "--all"]);
}

// ---- what a client asks ------------------------------------------------------------

fn body_of(text: &str) -> Vec<u8> {
    text.split_once("\r\n\r\n").unwrap().1.as_bytes().to_vec()
}

#[test]
fn client_asks_what_the_server_reads() {
    let req = client::cmd::ensure_repo(7748, "u1", "o", "n", true, false);
    assert_eq!(req.port, 7748);
    assert!(req.text.starts_with("POST /subscribe HTTP/1.1\r\n"));
    let body = String::from_utf8(body_of(&req.text)).unwrap();
    let v = parse(&body).unwrap();
    assert_eq!(v.at("uuid").as_str(), Some("u1"));
    assert_eq!(v.at("owner").as_str(), Some("o"));
    assert_eq!(v.at("repo").as_str(), Some("n"));
    assert_eq!(v.at("pr_sync").as_bool(), Some(true));
    assert_eq!(v.at("notifications").as_bool(), Some(false));

    let beat = client::cmd::heartbeat(1, "u1");
    assert_eq!(String::from_utf8(body_of(&beat.text)).unwrap(), "{\"uuid\":\"u1\"}");
    assert!(client::cmd::pause(1).text.starts_with("POST /pause "));
    assert!(client::cmd::resume(1).text.starts_with("POST /resume "));
}

#[test]
fn client_reads_what_the_server_answers() {
    let answer = match read_answer(&body_of(&subscribe_answer("/s/o/n"))) {
        Ok(v) => v,
        Err(_) => panic!("the answer is JSON"),
    };
    assert_eq!(subscribed_path(&answer).ok().as_deref(), Some("/s/o/n"));
    assert!(is_known(&read_answer(&body_of(&ok_answer(true))).ok().unwrap()));
    assert!(!is_known(&read_answer(&body_of(&ok_answer(false))).ok().unwrap()));
    assert!(subscribed_path(&read_answer(&body_of(&ok_answer(true))).ok().unwrap()).is_err());
    assert!(read_answer(&b"nope".to_vec()).is_err());
}

#[test]
fn stream_is_asked_for_from_where_it_was_left() {
    let request = EventStream::new(7748).request();
    assert_eq!(request.port, 7748);
    assert_eq!(request.text, "GET /events HTTP/1.1\r\nHost: 127.0.0.1\r\n\r\n");

    for id in [0, 41, -7, i64::MAX, i64::MIN] {
        let request = EventStream::from_id(1, id).request();
        assert_eq!(request.port, 1);
        let mut lines = request.text.split_inclusive('\n');
        let (method, path) = read_request_line(lines.next().unwrap()).unwrap();
        assert_eq!(route(method, path), Route::Events);
        let mut head = Head::new();
        for line in lines {
            assert!(!head.complete);
            head.read(line);
        }
        assert!(head.complete);
        assert_eq!(head.content_length, 0);
        assert_eq!(head.last_event_id, Some(id));
        assert_eq!(start_after(head.last_event_id, 100), id);
    }
}

#[test]
fn pushed_changes_are_read_one_by_one() {
    let first = ChangeEvent {
        id: 12,
        entity_type: "pull_request".into(),
        entity_id: 5,
        event: "inserted".into(),
        repo_slug: Some("o/n".into()),
        payload: parse("{\"title\":\"two\\nlines\",\"labels\":[1,null]}").unwrap(),
        occurred_at: "2026-01-01T00:00:00Z".into(),
    };
    let second = ChangeEvent {
        id: 13,
        entity_type: "notification".into(),
        entity_id: 6,
        event: "updated".into(),
        repo_slug: None,
        payload: Json::Null,
        occurred_at: "2026-01-02T00:00:00Z".into(),
    };
    let pushed = format!("{}{}", event_frame(&first), event_frame(&second));
    let mut found = Vec::new();
    for line in pushed.split_inclusive('\n') {
        match read_line(line) {
            StreamLine::Change(ev) => found.push(ev),
            StreamLine::Other => {}
            StreamLine::Unreadable => panic!("what is pushed can be read"),
        }
    }
    assert_eq!(found.len(), 2);
    assert_eq!(found[0].to_line(), first.to_line());
    assert_eq!(found[0].payload.at("title").as_str(), Some("two\nlines"));
    assert_eq!(found[1].to_line(), second.to_line());
    assert_eq!(found[1].repo_slug, None);
    assert_eq!(found[1].id, 13);
}

#[test]
fn lines_that_are_no_change_are_told_apart() {
    assert!(matches!(read_line("id: 3\n"), StreamLine::Other));
    assert!(matches!(read_line("\n"), StreamLine::Other));
    assert!(matches!(read_line(""), StreamLine::Other));
    assert!(matches!(read_line(": still here\n"), StreamLine::Other));
    assert!(matches!(read_line("data: nonsense\n"), StreamLine::Unreadable));
    assert!(matches!(read_line("data:\n"), StreamLine::Unreadable));
    assert!(matches!(read_line("data: {\"id\":1}\n"), StreamLine::Unreadable));
    let whole = "{\"id\":1,\"entity_type\":\"branch\",\"entity_id\":2,\"event\":\"inserted\",\"payload\":null,\"occurred_at\":\"t\"}";
    for line in [format!("data:{whole}"), format!("data: {whole}\r\n")] {
        match read_line(&line) {
            StreamLine::Change(ev) => {
                assert_eq!(ev.entity_type, "branch");
                assert_eq!(ev.repo_slug, None);
            }
            _ => panic!("this is a change"),
        }
    }
    let bad_slug = whole.replace("\"payload\"", "\"repo_slug\":7,\"payload\"");
    assert!(matches!(read_line(&format!("data: {bad_slug}\n")), StreamLine::Unreadable));
    let no_payload = whole.replace("\"payload\":null,", "");
    assert!(matches!(read_line(&format!("data: {no_payload}\n")), StreamLine::Unreadable));
}
