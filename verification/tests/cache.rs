use ghcache::checkout::{
    head_of, read_checkout, read_sha, record_checkout, select_checkout, select_sha,
};
use ghcache::client::follow::{Follow, FollowAction, Outcome, Reason};
use ghcache::client::query::{first_of, Client};
use ghcache::client::tail::{changes_from, next_last_id, poll, ChangeEvent, Subscriber, Tail};
use ghcache::client::types::{
    Branch, Comment, Notification, PrFilter, PullRequest, RateLimit, RepoEvent, Review,
};
use ghcache::config::{
    config_file, expand_tilde, resolve, OrgConfig, RepoConfig, ResolvedConfig, Settings,
};
use ghcache::db;
use ghcache::gh::{finish_call, finish_graphql, GhRequest, GhResponse, Headers};
use ghcache::json::{parse, to_text, Json};
use ghcache::output::{json_cell, Format};
use ghcache::process::Finished;
use ghcache::query;
use ghcache::query::prs::{PrQueryError, PrStep};
use ghcache::query::sql::rusqlite_to_json;
use ghcache::report;
use ghcache::serve::{default_socket_path, event_frame, poll_changes};
use ghcache::sql::{get_integer, get_opt_text, get_text, quote, read_all, Row, SqlValue, Statement};
use ghcache::sync;
use ghcache::sync::notifications::{NotificationSync, Watched};
use ghcache::sync::step::{Action, Now, Pool, Reply, RepoJob, Step};
use ghcache::sync::throttle::{read_left, select_left, wait_seconds, Left};
use ghcache::sync::watch::{WatchAction, WatchEvent};
use ghcache::sync::{
    branches, discovery, events, notifications, prs, watch, Resting, SyncFilter,
};
use ghcache::time::Moment;
use rusqlite::types::Value;
use rusqlite::Connection;

// ---- the database ------------------------------------------------------------------

fn open_in_memory() -> Connection {
    let conn = Connection::open_in_memory().unwrap();
    conn.execute_batch(db::PRAGMAS).unwrap();
    conn.execute_batch(db::SCHEMA).unwrap();
    conn
}

fn bind(v: &SqlValue) -> Value {
    match v {
        SqlValue::Null => Value::Null,
        SqlValue::Integer(n) => Value::Integer(*n),
        SqlValue::Real(n) => Value::Real(n.as_f64().unwrap()),
        SqlValue::Text(s) => Value::Text(s.clone()),
        SqlValue::Blob(b) => Value::Blob(b.clone()),
    }
}

fn held(v: Value) -> SqlValue {
    match v {
        Value::Null => SqlValue::Null,
        Value::Integer(n) => SqlValue::Integer(n),
        Value::Real(f) => SqlValue::Real(serde_json::Number::from_f64(f).unwrap()),
        Value::Text(s) => SqlValue::Text(s),
        Value::Blob(b) => SqlValue::Blob(b),
    }
}

fn rows(conn: &Connection, s: &Statement) -> Vec<Row> {
    let mut stmt = conn.prepare(&s.sql).unwrap();
    let n = stmt.column_count();
    let mut found = stmt
        .query(rusqlite::params_from_iter(s.params.iter().map(bind)))
        .unwrap();
    let mut out = Vec::new();
    while let Some(r) = found.next().unwrap() {
        out.push((0..n).map(|i| held(r.get::<_, Value>(i).unwrap())).collect());
    }
    out
}

fn execute(conn: &Connection, s: &Statement) -> u64 {
    conn.execute(&s.sql, rusqlite::params_from_iter(s.params.iter().map(bind))).unwrap() as u64
}

fn count(conn: &Connection, sql: &str) -> i64 {
    conn.query_row(sql, [], |r| r.get(0)).unwrap()
}

fn text(conn: &Connection, sql: &str) -> Option<String> {
    conn.query_row(sql, [], |r| r.get(0)).unwrap()
}

fn columns(conn: &Connection, sql: &str) -> Vec<String> {
    conn.prepare(sql).unwrap().column_names().into_iter().map(|c| c.to_owned()).collect()
}

fn upsert_repo(conn: &Connection, owner: &str, name: &str, branch: &str) -> i64 {
    let (write, find) = db::upsert_repo(owner, name, branch);
    execute(conn, &write);
    get_integer(&rows(conn, &find)[0], 0).unwrap()
}

fn j(text: &str) -> Json {
    parse(text).unwrap()
}

fn put(object: &mut Json, key: &str, value: Json) {
    if let Json::Object(members) = object {
        members.push((key.to_owned(), value));
    }
}

// ---- a scripted outside ------------------------------------------------------------

struct Mock {
    rest: Vec<(u16, Json)>,
    graphql: Vec<Json>,
    graphql_calls: Vec<(String, String)>,
    rest_calls: Vec<String>,
    log: Vec<&'static str>,
}

impl Mock {
    fn new() -> Mock {
        Mock {
            rest: Vec::new(),
            graphql: Vec::new(),
            graphql_calls: Vec::new(),
            rest_calls: Vec::new(),
            log: Vec::new(),
        }
    }

    fn push_rest(&mut self, body: &str) {
        self.rest.push((200, j(body)));
    }

    fn push_rest_304(&mut self) {
        self.rest.push((304, Json::Null));
    }

    fn push_graphql(&mut self, data: &str) {
        self.graphql.push(j(data));
    }

    fn perform(&mut self, conn: &Connection, action: Action) -> Reply {
        match action {
            Action::Query(s) => Reply::Rows(rows(conn, &s)),
            Action::Execute(s) => {
                let changed = execute(conn, &s);
                Reply::Executed { changed, row_id: conn.last_insert_rowid() }
            }
            Action::Call(p) => {
                self.rest_calls.push(p.endpoint.clone());
                if self.rest.is_empty() {
                    return Reply::Failed;
                }
                let (status, body) = self.rest.remove(0);
                Reply::Answer(GhResponse { status, headers: Headers::new(), body, duration_ms: 1 })
            }
            Action::Graphql { endpoint, query } => {
                self.graphql_calls.push((endpoint, query));
                if self.graphql.is_empty() {
                    return Reply::Failed;
                }
                Reply::Data(self.graphql.remove(0))
            }
            Action::Throttle(_) => Reply::Done,
            Action::Begin => {
                self.log.push("begin");
                conn.execute_batch("BEGIN").unwrap();
                Reply::Done
            }
            Action::Commit => {
                self.log.push("commit");
                conn.execute_batch("COMMIT").unwrap();
                Reply::Done
            }
            Action::Rollback => {
                self.log.push("rollback");
                conn.execute_batch("ROLLBACK").unwrap();
                Reply::Done
            }
        }
    }
}

fn now() -> Now {
    Now {
        moment: Moment { secs: 1767312000, nanos: 0 },
        text: "2026-01-02T00:00:00Z".to_owned(),
    }
}

fn run(
    conn: &Connection,
    mock: &mut Mock,
    cfg: &ResolvedConfig,
    filter: SyncFilter,
    full_sweep: bool,
) -> bool {
    let repos = Vec::new();
    let slugs = Vec::new();
    let mut step = sync::run(cfg, filter, full_sweep, &repos, &slugs);
    loop {
        match step {
            Step::Do(machine, action) => {
                let reply = mock.perform(conn, action);
                step = machine.step(reply, &now());
            }
            Step::Finished(()) => return true,
            Step::Failed => return false,
        }
    }
}

fn repo_config(owner: &str, name: &str) -> RepoConfig {
    RepoConfig {
        owner: owner.into(),
        name: name.into(),
        default_branch: Some("main".into()),
        sync_prs: Some(true),
        sync_events: Some(true),
        sync_notifications: Some(false),
        sync_branches: None,
        checkout_on_sync: None,
        poll_interval_seconds: None,
        fs_alias: None,
    }
}

fn cfg_with_repo(owner: &str, name: &str) -> ResolvedConfig {
    ResolvedConfig {
        db_path: ":memory:".into(),
        staging_folder: "/tmp".into(),
        poll_interval_seconds: 60,
        log_level: "info".into(),
        gh_binary: "gh".into(),
        rate_warn_threshold: 500,
        rate_stop_threshold: 50,
        cmd_port: 7748,
        heartbeat_ttl_seconds: 30,
        sync_notifications: false,
        repos: vec![repo_config(owner, name)],
        orgs: vec![],
    }
}

fn all_filter() -> SyncFilter {
    SyncFilter { repo: None, prs_only: false, notifs_only: false, events_only: false }
}

// ---- the schema and its statements -------------------------------------------------

#[test]
fn schema_creates_without_error() {
    open_in_memory();
}

#[test]
fn upsert_repo_idempotent() {
    let conn = open_in_memory();
    let id1 = upsert_repo(&conn, "myorg", "backend", "main");
    let id2 = upsert_repo(&conn, "myorg", "backend", "main");
    assert_eq!(id1, id2);
}

#[test]
fn upsert_repo_updates_default_branch() {
    let conn = open_in_memory();
    upsert_repo(&conn, "myorg", "backend", "master");
    upsert_repo(&conn, "myorg", "backend", "main");
    let branch = text(
        &conn,
        "SELECT default_branch FROM repo WHERE owner='myorg' AND name='backend'",
    );
    assert_eq!(branch.as_deref(), Some("main"));
}

#[test]
fn repositories_are_apart() {
    let conn = open_in_memory();
    let first = upsert_repo(&conn, "o", "n", "master");
    let second = upsert_repo(&conn, "n", "o", "trunk");
    assert_ne!(first, second);
    assert_eq!(upsert_repo(&conn, "o", "n", "main"), first);
    assert_eq!(upsert_repo(&conn, "n", "o", "trunk"), second);
    assert_eq!(count(&conn, "SELECT COUNT(*) FROM repo"), 2);
    let branch = text(&conn, "SELECT default_branch FROM repo WHERE owner='n'");
    assert_eq!(branch.as_deref(), Some("trunk"));
}

#[test]
fn get_repo_id_missing_returns_none() {
    let conn = open_in_memory();
    assert!(db::first_id(&rows(&conn, &db::get_repo_id("x", "y"))).unwrap().is_none());
}

#[test]
fn get_repo_id_after_upsert() {
    let conn = open_in_memory();
    let id = upsert_repo(&conn, "o", "n", "main");
    assert_eq!(db::first_id(&rows(&conn, &db::get_repo_id("o", "n"))).unwrap(), Some(id));
}

#[test]
fn poll_state_roundtrip() {
    let conn = open_in_memory();
    execute(
        &conn,
        &db::set_poll_state(
            "/repos/o/n/events",
            Some("\"abc\""),
            None,
            Some(60),
            true,
            "2026-01-01T00:00:00Z",
        ),
    );
    let ps = db::poll_state_from(&rows(&conn, &db::get_poll_state("/repos/o/n/events"))).unwrap();
    assert_eq!(ps.etag.as_deref(), Some("\"abc\""));
    assert_eq!(ps.poll_interval, Some(60));
    assert_eq!(ps.last_polled_at.as_deref(), Some("2026-01-01T00:00:00Z"));
}

#[test]
fn poll_state_preserves_interval_on_304() {
    let conn = open_in_memory();
    execute(&conn, &db::set_poll_state("/ep", None, None, Some(120), true, "t1"));
    // 304: pass None for poll_interval
    execute(&conn, &db::set_poll_state("/ep", None, None, None, false, "t2"));
    let ps = db::poll_state_from(&rows(&conn, &db::get_poll_state("/ep"))).unwrap();
    assert_eq!(ps.poll_interval, Some(120));
    let changed = text(&conn, "SELECT last_changed_at FROM poll_state WHERE endpoint='/ep'");
    assert_eq!(changed.as_deref(), Some("t1"));
}

#[test]
fn poll_state_of_an_unknown_endpoint_is_empty() {
    let conn = open_in_memory();
    let ps = db::poll_state_from(&rows(&conn, &db::get_poll_state("/ep"))).unwrap();
    assert!(ps.etag.is_none() && ps.last_modified.is_none());
    assert!(ps.poll_interval.is_none() && ps.last_polled_at.is_none());
}

#[test]
fn call_log_insert() {
    let conn = open_in_memory();
    execute(
        &conn,
        &db::log_call(&db::CallLogEntry {
            endpoint: "/repos/o/n/pulls",
            method: "GET",
            status_code: Some(200),
            etag: Some("\"xyz\""),
            last_modified: None,
            rate_remaining: Some(4999),
            rate_reset: Some(1700000000),
            cache_hit: false,
            duration_ms: Some(142),
        }),
    );
    assert_eq!(count(&conn, "SELECT COUNT(*) FROM call_log"), 1);
    assert_eq!(text(&conn, "SELECT api_type FROM call_log").as_deref(), Some("rest"));
}

#[test]
fn foreign_key_enforced() {
    let conn = open_in_memory();
    let err = conn.execute("INSERT INTO branch (repo_id, name) VALUES (999, 'main')", []);
    assert!(err.is_err());
}

#[test]
fn views_exist() {
    let conn = open_in_memory();
    // Just verify the views can be queried without error
    conn.execute_batch(
        "SELECT * FROM v_open_prs LIMIT 1;
             SELECT * FROM v_unread_notifications LIMIT 1;
             SELECT * FROM v_recent_events LIMIT 1;
             SELECT * FROM v_rate_limit LIMIT 1;",
    )
    .unwrap();
}

#[test]
fn literals_read_back_in_the_database() {
    let conn = open_in_memory();
    for s in ["", "plain", "O'Brien", "'", "''", "a'b''c'"] {
        let sql = format!("SELECT {}", quote(s));
        assert_eq!(text(&conn, &sql).as_deref(), Some(s));
    }
}

#[test]
fn rows_that_hold_something_else_are_errors() {
    let row: Row = vec![SqlValue::Integer(1), SqlValue::Null, SqlValue::Text("x".to_owned())];
    assert_eq!(get_integer(&row, 0).unwrap(), 1);
    assert_eq!(get_integer(&row, 2).unwrap_err().column, 2);
    assert_eq!(get_text(&row, 1).unwrap_err().column, 1);
    assert_eq!(get_text(&row, 9).unwrap_err().column, 9);
    assert_eq!(get_opt_text(&row, 1).unwrap(), None);
    let all: Vec<Row> = vec![vec![SqlValue::Text("a".to_owned())], vec![SqlValue::Null]];
    assert_eq!(read_all::<String>(&all).unwrap_err().row, 1);
}

// ---- recorded calls ----------------------------------------------------------------

#[test]
fn call_and_state_of_the_endpoint_are_recorded() {
    let conn = open_in_memory();
    let raw = "HTTP/2 200\r\nETag: \"e1\"\r\nX-Poll-Interval: 60\r\nX-RateLimit-Remaining: 4998\r\n\r\n[1]\n[2]";
    let req = GhRequest::get("/repos/o/n/events").paginated();
    let call = match finish_call(&req, &raw.as_bytes().to_vec(), 7, "t1") {
        Ok(c) => c,
        Err(_) => panic!("the answer is complete"),
    };
    for s in &call.records {
        execute(&conn, s);
    }
    assert_eq!(to_text(&call.response.body), "[1,2]");
    assert_eq!(count(&conn, "SELECT rate_remaining FROM call_log"), 4998);
    assert_eq!(count(&conn, "SELECT duration_ms FROM call_log"), 7);
    assert_eq!(count(&conn, "SELECT cache_hit FROM call_log"), 0);
    let ps = db::poll_state_from(&rows(&conn, &db::get_poll_state("/repos/o/n/events"))).unwrap();
    assert_eq!(ps.etag.as_deref(), Some("\"e1\""));
    assert_eq!(ps.poll_interval, Some(60));

    let again = b"HTTP/2 304\r\nETag: \"e1\"\r\n\r\n".to_vec();
    for s in &finish_call(&req, &again, 2, "t2").ok().unwrap().records {
        execute(&conn, s);
    }
    assert_eq!(count(&conn, "SELECT COUNT(*) FROM call_log WHERE cache_hit=1"), 1);
    let changed = text(&conn, "SELECT last_changed_at FROM poll_state");
    assert_eq!(changed.as_deref(), Some("t1"));
}

#[test]
fn query_is_recorded_under_its_name() {
    let conn = open_in_memory();
    let raw = b"HTTP/2 200\r\nX-RateLimit-Remaining: 4950\r\n\r\n{\"data\":{\"a\":1,\"rateLimit\":{\"cost\":3}}}".to_vec();
    let q = finish_graphql("graphql:prs:full/o/n", &raw, 150).ok().unwrap();
    execute(&conn, &q.record);
    assert_eq!(q.data.at("a").as_i64(), Some(1));
    assert_eq!(text(&conn, "SELECT api_type FROM call_log").as_deref(), Some("graphql"));
    assert_eq!(
        text(&conn, "SELECT endpoint FROM call_log").as_deref(),
        Some("graphql:prs:full/o/n")
    );
    assert_eq!(count(&conn, "SELECT gql_cost FROM call_log"), 3);
    let limits = read_all::<RateLimit>(&rows(&conn, &Client.rate_limit())).ok().unwrap();
    assert_eq!(limits[0].gql_cost, Some(3));

    let raw = b"HTTP/2 200\r\n\r\n{\"data\":{}}".to_vec();
    execute(&conn, &finish_graphql("graphql:x", &raw, 1).ok().unwrap().record);
    assert_eq!(count(&conn, "SELECT COUNT(*) FROM call_log WHERE gql_cost IS NULL"), 1);
}

#[test]
fn every_query_asks_for_its_cost() {
    let job = RepoJob { repo_id: 1, owner: "o".into(), name: "n".into() };
    let full = prs::query_text(&job, &prs::PrScope::Full);
    let some = prs::query_text(&job, &prs::PrScope::Targeted(vec![1, 2]));
    for query in [full, some] {
        assert!(query.starts_with("{ repository(owner: \"o\", name: \"n\") {"));
        assert!(query.ends_with("rateLimit { cost } }"));
        assert_eq!(query.matches('{').count(), query.matches('}').count());
    }
}

#[test]
fn poll_states_of_endpoints_are_apart() {
    let conn = open_in_memory();
    let read = |endpoint: &str| {
        db::poll_state_from(&rows(&conn, &db::get_poll_state(endpoint))).unwrap()
    };
    execute(&conn, &db::set_poll_state("/a", Some("e"), Some("m"), Some(60), true, "t1"));
    execute(&conn, &db::set_poll_state("/b", Some("f"), None, None, false, "t2"));
    execute(&conn, &db::set_poll_state("/a", None, None, None, false, "t3"));
    let (a, b, c) = (read("/a"), read("/b"), read("/c"));
    assert_eq!((a.etag, a.last_modified, a.poll_interval), (None, None, Some(60)));
    assert_eq!(a.last_polled_at.as_deref(), Some("t3"));
    assert_eq!((b.etag.as_deref(), b.poll_interval), (Some("f"), None));
    assert_eq!(c.last_polled_at, None);
    let changed = |endpoint: &str| {
        text(&conn, &format!("SELECT last_changed_at FROM poll_state WHERE endpoint='{endpoint}'"))
    };
    assert_eq!(changed("/a").as_deref(), Some("t1"));
    assert_eq!(changed("/b"), None);
}

#[test]
fn checkouts_are_recorded() {
    let conn = open_in_memory();
    let repo_id = upsert_repo(&conn, "o", "n", "main");
    assert!(read_checkout(&rows(&conn, &select_checkout(repo_id, "/d"))).is_none());
    assert!(read_sha(&rows(&conn, &select_sha(repo_id, "main"))).is_none());
    insert_branches(&conn, repo_id, vec![make_branch("main", "abc")], &["main"]);
    assert_eq!(read_sha(&rows(&conn, &select_sha(repo_id, "main"))).as_deref(), Some("abc"));

    let head = |sha: &str| Finished { success: true, stdout: format!("{sha}\n").into_bytes() };
    let record = |branch: &str, sha: &str, now: &str| {
        execute(&conn, &record_checkout(repo_id, branch, "/d", &head(sha), now).unwrap());
        read_checkout(&rows(&conn, &select_checkout(repo_id, "/d"))).unwrap()
    };
    assert_eq!(record("main", "abc", "t1"), ("main".to_owned(), "abc".to_owned()));
    assert_eq!(record("dev", "def", "t2"), ("dev".to_owned(), "def".to_owned()));
    assert_eq!(record("main", "abd", "t3"), ("main".to_owned(), "abd".to_owned()));
    assert_eq!(count(&conn, "SELECT COUNT(*) FROM checkout"), 2);
    assert!(read_checkout(&rows(&conn, &select_checkout(repo_id, "/other"))).is_none());
    let failed = Finished { success: false, stdout: Vec::new() };
    assert!(record_checkout(repo_id, "main", "/d", &failed, "t4").is_none());
    assert_eq!(head_of("/d").invocation.args, vec!["-C", "/d", "rev-parse", "HEAD"]);
}

#[test]
fn bytes_that_are_no_text_are_read_with_replacements() {
    let mut raw = b"HTTP/2 200\r\n\r\n\"".to_vec();
    raw.push(0xff);
    raw.push(b'"');
    let req = GhRequest::get("/x");
    let call = finish_call(&req, &raw, 1, "t").ok().unwrap();
    assert_eq!(call.response.body.as_str(), Some("\u{fffd}"));
}

// ---- pull requests -----------------------------------------------------------------

fn make_pr(number: i64, state: &str, title: &str) -> Json {
    j(&format!(
        "{{\"number\":{number},\"title\":\"{title}\",\"state\":\"{state}\",\"isDraft\":false,
            \"body\":\"description\",\"headRefName\":\"feature-x\",\"headRefOid\":\"abc123\",
            \"baseRefName\":\"main\",\"mergeable\":\"MERGEABLE\",\"additions\":10,\"deletions\":2,
            \"changedFiles\":3,\"createdAt\":\"2026-01-01T00:00:00Z\",
            \"updatedAt\":\"2026-01-02T00:00:00Z\",\"mergedAt\":null,\"closedAt\":null,
            \"databaseId\":{number},\"id\":\"PR_node_{number}\",\"author\":{{\"login\":\"alice\"}},
            \"reviews\":{{\"nodes\":[]}},\"labels\":{{\"nodes\":[]}},\"commits\":{{\"nodes\":[]}}}}"
    ))
}

fn upsert_pr_for_test(conn: &Connection, repo_id: i64, pr: &Json) {
    let number = prs::pr_number(pr);
    let exists = count(
        conn,
        &format!(
            "SELECT EXISTS(SELECT 1 FROM pull_request WHERE repo_id={repo_id} AND number={number})"
        ),
    );
    let id = get_integer(&rows(conn, &prs::upsert_pr(repo_id, pr))[0], 0).unwrap();
    for s in prs::follow_up(id, "test/repo", pr, exists == 0, "2026-01-01T00:00:00Z") {
        execute(conn, &s);
    }
}

#[test]
fn upsert_pr_insert_and_update() {
    let conn = open_in_memory();
    let repo_id = upsert_repo(&conn, "o", "n", "main");

    upsert_pr_for_test(&conn, repo_id, &make_pr(1, "OPEN", "First"));
    assert_eq!(count(&conn, "SELECT COUNT(*) FROM pull_request"), 1);

    // Update title via upsert
    upsert_pr_for_test(&conn, repo_id, &make_pr(1, "OPEN", "Updated"));
    assert_eq!(count(&conn, "SELECT COUNT(*) FROM pull_request"), 1);

    let title = text(&conn, "SELECT title FROM pull_request WHERE number=1");
    assert_eq!(title.as_deref(), Some("Updated"));
    let changes = read_all::<ChangeEvent>(&rows(&conn, &poll(0))).ok().unwrap();
    assert_eq!(changes[0].event, "inserted");
    assert_eq!(changes[1].event, "updated");
    assert_eq!(changes[1].repo_slug.as_deref(), Some("test/repo"));
}

#[test]
fn state_mapping() {
    let conn = open_in_memory();
    let repo_id = upsert_repo(&conn, "o", "n", "main");

    upsert_pr_for_test(&conn, repo_id, &make_pr(1, "MERGED", "x"));
    let state = text(&conn, "SELECT state FROM pull_request WHERE number=1");
    assert_eq!(state.as_deref(), Some("merged"));
    assert_eq!(prs::pr_state(&make_pr(1, "CLOSED", "x")), "closed");
    assert_eq!(prs::pr_state(&make_pr(1, "OPEN", "x")), "open");
    assert_eq!(prs::pr_state(&Json::Null), "open");
}

#[test]
fn reviews_upserted() {
    let conn = open_in_memory();
    let repo_id = upsert_repo(&conn, "o", "n", "main");

    let mut pr = make_pr(1, "OPEN", "x");
    put(
        &mut pr,
        "reviews",
        j("{\"nodes\":[{ \"databaseId\": 101, \"author\": { \"login\": \"bob\" }, \"state\": \"APPROVED\", \"body\": \"\", \"submittedAt\": \"2026-01-01T00:00:00Z\" }]}"),
    );
    upsert_pr_for_test(&conn, repo_id, &pr);

    assert_eq!(count(&conn, "SELECT COUNT(*) FROM pr_review"), 1);
    assert_eq!(count(&conn, "SELECT approvals FROM v_open_prs WHERE number=1"), 1);
}

#[test]
fn labels_replaced_on_update() {
    let conn = open_in_memory();
    let repo_id = upsert_repo(&conn, "o", "n", "main");

    let mut pr = make_pr(1, "OPEN", "x");
    put(
        &mut pr,
        "labels",
        j("{\"nodes\":[{ \"name\": \"bug\", \"color\": \"red\" },{ \"name\": \"urgent\", \"color\": \"orange\" }]}"),
    );
    upsert_pr_for_test(&conn, repo_id, &pr);
    assert_eq!(count(&conn, "SELECT COUNT(*) FROM pr_label"), 2);

    // Re-sync with one label removed
    put(&mut pr, "labels", j("{\"nodes\":[{ \"name\": \"bug\", \"color\": \"red\" }]}"));
    upsert_pr_for_test(&conn, repo_id, &pr);
    assert_eq!(count(&conn, "SELECT COUNT(*) FROM pr_label"), 1);
}

#[test]
fn status_checks_upserted() {
    let conn = open_in_memory();
    let repo_id = upsert_repo(&conn, "o", "n", "main");

    let mut pr = make_pr(1, "OPEN", "x");
    put(
        &mut pr,
        "commits",
        j("{\"nodes\":[{\"commit\":{\"statusCheckRollup\":{\"contexts\":{\"nodes\":[
            { \"__typename\": \"StatusContext\", \"context\": \"ci/build\", \"state\": \"success\", \"targetUrl\": \"http://ci\", \"description\": \"ok\" },
            { \"__typename\": \"CheckRun\", \"name\": \"test\", \"conclusion\": \"success\", \"detailsUrl\": \"http://ci/test\" }
        ]}}}}]}"),
    );
    upsert_pr_for_test(&conn, repo_id, &pr);
    assert_eq!(count(&conn, "SELECT COUNT(*) FROM pr_status_check"), 2);
    assert!(prs::upsert_status_check(1, &j("{\"__typename\":\"Other\"}"), "t").is_none());
}

#[test]
fn pull_request_keeps_its_id_and_creation() {
    let conn = open_in_memory();
    let repo_id = upsert_repo(&conn, "o", "n", "main");
    let reviews = |id: i64, author: &str, state: &str| {
        j(&format!(
            "{{\"nodes\":[{{\"databaseId\":{id},\"author\":{{\"login\":\"{author}\"}},\"state\":\"{state}\"}}]}}"
        ))
    };
    let mut other = make_pr(2, "OPEN", "Other");
    put(&mut other, "reviews", reviews(7, "carol", "APPROVED"));
    put(&mut other, "labels", j("{\"nodes\":[{\"name\":\"kept\",\"color\":\"red\"}]}"));
    upsert_pr_for_test(&conn, repo_id, &other);
    let mut pr = make_pr(1, "OPEN", "First");
    put(&mut pr, "reviews", reviews(101, "bob", "COMMENTED"));
    upsert_pr_for_test(&conn, repo_id, &pr);
    let id = count(&conn, "SELECT id FROM pull_request WHERE number=1");

    // Another time of creation, another author of the first review, and a second review.
    put(&mut pr, "title", Json::Str("Later".to_owned()));
    put(&mut pr, "createdAt", Json::Str("2027-01-01T00:00:00Z".to_owned()));
    put(&mut pr, "reviews", reviews(101, "mallory", "APPROVED"));
    upsert_pr_for_test(&conn, repo_id, &pr);
    put(&mut pr, "reviews", reviews(102, "dave", "COMMENTED"));
    upsert_pr_for_test(&conn, repo_id, &pr);

    assert_eq!(count(&conn, "SELECT COUNT(*) FROM pull_request"), 2);
    assert_eq!(count(&conn, "SELECT id FROM pull_request WHERE number=1"), id);
    let created = text(&conn, "SELECT created_at FROM pull_request WHERE number=1");
    assert_eq!(created.as_deref(), Some("2026-01-01T00:00:00Z"));
    let title = text(&conn, "SELECT title FROM pull_request WHERE number=1");
    assert_eq!(title.as_deref(), Some("Later"));
    let title = text(&conn, "SELECT title FROM pull_request WHERE number=2");
    assert_eq!(title.as_deref(), Some("Other"));

    let review = "SELECT author || ' ' || state FROM pr_review WHERE gh_id=";
    assert_eq!(text(&conn, &format!("{review}101")).as_deref(), Some("bob APPROVED"));
    assert_eq!(text(&conn, &format!("{review}102")).as_deref(), Some("dave COMMENTED"));
    assert_eq!(text(&conn, &format!("{review}7")).as_deref(), Some("carol APPROVED"));
    assert_eq!(count(&conn, "SELECT COUNT(*) FROM pr_review"), 3);
    assert_eq!(text(&conn, "SELECT label FROM pr_label").as_deref(), Some("kept"));
}

// ---- branches ----------------------------------------------------------------------

fn make_branch(name: &str, sha: &str) -> Json {
    j(&format!("{{\"name\":\"{name}\",\"commit\":{{\"sha\":\"{sha}\"}}}}"))
}

fn insert_branches(conn: &Connection, repo_id: i64, list: Vec<Json>, patterns: &[&str]) {
    let patterns: Vec<String> = patterns.iter().map(|p| (*p).to_owned()).collect();
    for tip in branches::wanted(&list, &patterns) {
        let s = branches::upsert_branch(
            repo_id,
            &tip.name,
            tip.sha.as_deref(),
            "2026-01-01T00:00:00Z",
        );
        assert_eq!(rows(conn, &s).len(), 1);
    }
}

#[test]
fn branches_filtered_by_pattern() {
    let conn = open_in_memory();
    let repo_id = upsert_repo(&conn, "o", "n", "main");

    let list = vec![
        make_branch("main", "aaa"),
        make_branch("feature-x", "bbb"),
        make_branch("release/1.0", "ccc"),
    ];
    insert_branches(&conn, repo_id, list, &["main", "release/*"]);
    assert_eq!(count(&conn, "SELECT COUNT(*) FROM branch"), 2);
}

#[test]
fn branch_sha_updates_on_upsert() {
    let conn = open_in_memory();
    let repo_id = upsert_repo(&conn, "o", "n", "main");

    insert_branches(&conn, repo_id, vec![make_branch("main", "old_sha")], &["main"]);
    insert_branches(&conn, repo_id, vec![make_branch("main", "new_sha")], &["main"]);

    let sha = text(&conn, "SELECT sha FROM branch WHERE name='main'");
    assert_eq!(sha.as_deref(), Some("new_sha"));
    assert_eq!(count(&conn, "SELECT COUNT(*) FROM branch"), 1);
}

#[test]
fn branches_of_repositories_are_apart() {
    let conn = open_in_memory();
    let first = upsert_repo(&conn, "o", "n", "main");
    let second = upsert_repo(&conn, "o", "m", "main");
    insert_branches(&conn, first, vec![make_branch("main", "one")], &["main"]);
    let id = count(&conn, "SELECT id FROM branch");
    insert_branches(&conn, second, vec![make_branch("main", "two")], &["main"]);
    insert_branches(&conn, first, vec![make_branch("main", "three")], &["main"]);
    assert_eq!(count(&conn, "SELECT COUNT(*) FROM branch"), 2);
    let tip = |repo_id: i64| text(&conn, &format!("SELECT sha FROM branch WHERE repo_id={repo_id}"));
    assert_eq!(tip(first).as_deref(), Some("three"));
    assert_eq!(tip(second).as_deref(), Some("two"));
    assert_eq!(count(&conn, &format!("SELECT id FROM branch WHERE repo_id={first}")), id);
}

fn sync_branches(conn: &Connection, mock: &mut Mock, repo_id: i64, patterns: &[&str]) -> bool {
    let patterns: Vec<String> = patterns.iter().map(|p| (*p).to_owned()).collect();
    let job = RepoJob { repo_id, owner: "o".into(), name: "n".into() };
    let (mut machine, mut action) = branches::sync(job, patterns);
    loop {
        let reply = mock.perform(conn, action);
        match machine.step(reply, &now()) {
            Step::Do(m, a) => {
                machine = m;
                action = a;
            }
            Step::Finished(()) => return true,
            Step::Failed => return false,
        }
    }
}

#[test]
fn unchanged_branches_write_nothing() {
    let conn = open_in_memory();
    let repo_id = upsert_repo(&conn, "o", "n", "main");
    let mut mock = Mock::new();
    mock.push_rest_304();
    assert!(sync_branches(&conn, &mut mock, repo_id, &["main"]));
    assert_eq!(mock.rest_calls, vec!["/repos/o/n/branches".to_owned()]);
    assert_eq!(count(&conn, "SELECT COUNT(*) FROM branch"), 0);
    assert_eq!(count(&conn, "SELECT COUNT(*) FROM change_log"), 0);
}

#[test]
fn recorded_branches_are_logged() {
    let conn = open_in_memory();
    let repo_id = upsert_repo(&conn, "o", "n", "main");
    let mut mock = Mock::new();
    mock.push_rest(
        "[{\"name\":\"main\",\"commit\":{\"sha\":\"aaa\"}},{\"name\":\"topic\",\"commit\":{\"sha\":\"bbb\"}}]",
    );
    mock.push_rest(
        "[{\"name\":\"main\",\"commit\":{\"sha\":\"ccc\"}},{\"name\":\"release/1\",\"commit\":{}}]",
    );
    assert!(sync_branches(&conn, &mut mock, repo_id, &["main", "release/*"]));
    assert!(sync_branches(&conn, &mut mock, repo_id, &["main", "release/*"]));

    assert_eq!(count(&conn, "SELECT COUNT(*) FROM branch"), 2);
    assert_eq!(text(&conn, "SELECT sha FROM branch WHERE name='main'").as_deref(), Some("ccc"));
    assert_eq!(text(&conn, "SELECT sha FROM branch WHERE name='release/1'"), None);
    assert_eq!(
        text(
            &conn,
            "SELECT group_concat(line, ', ') FROM (
                 SELECT c.event || ' ' || b.name || ' ' || c.repo_slug AS line
                 FROM change_log c JOIN branch b ON b.id = c.entity_id
                 WHERE c.entity_type = 'branch' ORDER BY c.id)",
        )
        .as_deref(),
        Some("inserted main o/n, updated main o/n, inserted release/1 o/n")
    );
    assert!(!sync_branches(&conn, &mut mock, repo_id, &["main"]));
}

// ---- events ------------------------------------------------------------------------

fn make_event(id: &str, event_type: &str, payload: &str) -> String {
    format!(
        "{{\"id\":\"{id}\",\"type\":\"{event_type}\",\"actor\":{{\"login\":\"alice\"}},\"payload\":{payload},\"created_at\":\"2026-01-01T00:00:00Z\"}}"
    )
}

fn insert_events(conn: &Connection, repo_id: i64, list: &[String]) -> u64 {
    let mut changed = 0;
    for text in list {
        let ev = j(text);
        let gh_id = ev.at("id").as_str().unwrap().to_owned();
        changed += execute(conn, &events::insert_event(repo_id, &gh_id, &ev));
    }
    changed
}

#[test]
fn insert_or_ignore_is_idempotent() {
    let conn = open_in_memory();
    let repo_id = upsert_repo(&conn, "o", "n", "main");

    let ev = make_event("100", "PushEvent", "{\"action\":\"opened\"}");
    insert_events(&conn, repo_id, &[ev.clone(), ev]);
    assert_eq!(count(&conn, "SELECT COUNT(*) FROM repo_event"), 1);
}

#[test]
fn multiple_events_inserted() {
    let conn = open_in_memory();
    let repo_id = upsert_repo(&conn, "o", "n", "main");

    let list = [
        make_event("1", "PushEvent", "{\"action\":\"opened\"}"),
        make_event("2", "PullRequestEvent", "{\"action\":\"opened\"}"),
        make_event("3", "IssuesEvent", "{\"action\":\"opened\"}"),
    ];
    insert_events(&conn, repo_id, &list);
    assert_eq!(count(&conn, "SELECT COUNT(*) FROM repo_event"), 3);
}

#[test]
fn v_recent_events_view() {
    let conn = open_in_memory();
    let repo_id = upsert_repo(&conn, "o", "n", "main");

    let ev = make_event(
        "1",
        "PullRequestEvent",
        "{ \"action\": \"opened\", \"pull_request\": { \"title\": \"My PR\" } }",
    );
    insert_events(&conn, repo_id, &[ev]);

    let subject = text(&conn, "SELECT subject FROM v_recent_events LIMIT 1");
    assert_eq!(subject.as_deref(), Some("My PR"));
}

#[test]
fn recently_asked_endpoint_is_left_alone() {
    let conn = open_in_memory();
    let repo_id = upsert_repo(&conn, "o", "n", "main");
    execute(
        &conn,
        &db::set_poll_state("/repos/o/n/events", None, None, Some(60), true, "2026-01-01T23:59:30Z"),
    );
    let mut mock = Mock::new();
    let job = RepoJob { repo_id, owner: "o".into(), name: "n".into() };
    let (mut machine, mut action) = events::sync(job);
    let found = loop {
        let reply = mock.perform(&conn, action);
        match machine.step(reply, &now()) {
            Step::Do(m, a) => {
                machine = m;
                action = a;
            }
            Step::Finished(found) => break found,
            Step::Failed => panic!("nothing failed"),
        }
    };
    assert!(found.is_empty());
    assert!(mock.rest_calls.is_empty());
}

fn sync_events(conn: &Connection, mock: &mut Mock, repo_id: i64) -> Vec<i64> {
    let job = RepoJob { repo_id, owner: "o".into(), name: "n".into() };
    let (mut machine, mut action) = events::sync(job);
    loop {
        let reply = mock.perform(conn, action);
        match machine.step(reply, &now()) {
            Step::Do(m, a) => {
                machine = m;
                action = a;
            }
            Step::Finished(found) => return found,
            Step::Failed => panic!("nothing failed"),
        }
    }
}

#[test]
fn same_events_find_nothing_again() {
    let conn = open_in_memory();
    let repo_id = upsert_repo(&conn, "o", "n", "main");
    let list = format!(
        "[{},{},{},{}]",
        make_event("1", "PullRequestEvent", "{\"number\":7}"),
        make_event("2", "PushEvent", "{}"),
        make_event("3", "PullRequestReviewEvent", "{\"pull_request\":{\"number\":4}}"),
        make_event("1", "PullRequestEvent", "{\"number\":9}"),
    );
    let mut mock = Mock::new();
    mock.push_rest(&list);
    mock.push_rest(&list);
    assert_eq!(sync_events(&conn, &mut mock, repo_id), vec![7, 4]);
    assert_eq!(count(&conn, "SELECT COUNT(*) FROM repo_event"), 3);
    assert_eq!(count(&conn, "SELECT COUNT(*) FROM change_log"), 3);
    assert!(sync_events(&conn, &mut mock, repo_id).is_empty());
    assert_eq!(count(&conn, "SELECT COUNT(*) FROM repo_event"), 3);
    assert_eq!(count(&conn, "SELECT COUNT(*) FROM change_log"), 3);
}

// ---- notifications -----------------------------------------------------------------

#[test]
fn later_notification_keeps_its_first_repository() {
    let conn = open_in_memory();
    let repo_id = upsert_repo(&conn, "o", "n", "main");
    let first = j("{\"subject\":{\"type\":\"Issue\",\"title\":\"a\"},\"reason\":\"r\",\"unread\":false,\"updated_at\":\"t1\"}");
    let later = j("{\"subject\":{\"type\":\"PullRequest\",\"title\":\"b\"},\"reason\":\"s\",\"updated_at\":\"t2\",\"last_read_at\":\"t0\"}");
    rows(&conn, &notifications::upsert_notification("x", Some(repo_id), &first));
    rows(&conn, &notifications::upsert_notification("x", None, &later));
    assert_eq!(count(&conn, "SELECT COUNT(*) FROM notification"), 1);
    assert_eq!(count(&conn, "SELECT repo_id FROM notification"), repo_id);
    assert_eq!(count(&conn, "SELECT unread FROM notification"), 1);
    assert_eq!(
        text(
            &conn,
            "SELECT subject_type || subject_title || reason || updated_at || last_read_at FROM notification",
        )
        .as_deref(),
        Some("Issuebst2t0")
    );
}

fn make_thread(id: &str, owner: &str, name: &str, unread: bool) -> Json {
    j(&format!(
        "{{\"id\":\"{id}\",\"repository\":{{\"full_name\":\"{owner}/{name}\",\"owner\":{{\"login\":\"{owner}\"}},\"name\":\"{name}\"}},
          \"subject\":{{\"type\":\"PullRequest\",\"title\":\"Some PR\",\"url\":\"https://api.github.com/repos/o/n/pulls/1\"}},
          \"reason\":\"review_requested\",\"unread\":{unread},\"updated_at\":\"2026-01-01T00:00:00Z\",\"last_read_at\":null}}"
    ))
}

fn do_upsert(conn: &Connection, thread: &Json) {
    let owner = thread.at("repository").at("owner").at("login").as_str().unwrap().to_owned();
    let name = thread.at("repository").at("name").as_str().unwrap().to_owned();
    let repo_id = db::first_id(&rows(conn, &db::get_repo_id(&owner, &name))).unwrap();
    let gh_id = thread.at("id").as_str().unwrap().to_owned();
    let s = notifications::upsert_notification(&gh_id, repo_id, thread);
    rows(conn, &s);
}

#[test]
fn upsert_notification_insert() {
    let conn = open_in_memory();
    do_upsert(&conn, &make_thread("thread1", "o", "n", true));
    assert_eq!(count(&conn, "SELECT COUNT(*) FROM notification"), 1);
}

#[test]
fn upsert_stores_html_url_and_number() {
    let conn = open_in_memory();
    do_upsert(&conn, &make_thread("t99", "o", "n", true));

    let html_url = text(&conn, "SELECT html_url FROM notification WHERE gh_id='t99'");
    assert_eq!(html_url.as_deref(), Some("https://github.com/o/n/pull/1"));
    let number: Option<i64> = conn
        .query_row("SELECT subject_number FROM notification WHERE gh_id='t99'", [], |r| r.get(0))
        .unwrap();
    assert_eq!(number, Some(1));
}

#[test]
fn upsert_notification_marks_read() {
    let conn = open_in_memory();
    let thread = make_thread("thread1", "o", "n", true);
    do_upsert(&conn, &thread);

    let mut read = thread.copy();
    put(&mut read, "unread", Json::Bool(false));
    do_upsert(&conn, &read);

    assert_eq!(count(&conn, "SELECT unread FROM notification WHERE gh_id='thread1'"), 0);
}

#[test]
fn upsert_notification_idempotent() {
    let conn = open_in_memory();
    let thread = make_thread("t1", "o", "n", true);
    do_upsert(&conn, &thread);
    do_upsert(&conn, &thread);
    assert_eq!(count(&conn, "SELECT COUNT(*) FROM notification"), 1);
}

#[test]
fn notification_links_repo_id() {
    let conn = open_in_memory();
    upsert_repo(&conn, "o", "n", "main");
    do_upsert(&conn, &make_thread("t1", "o", "n", true));

    let repo_id: Option<i64> = conn
        .query_row("SELECT repo_id FROM notification WHERE gh_id='t1'", [], |r| r.get(0))
        .unwrap();
    assert!(repo_id.is_some());
}

#[test]
fn v_unread_view() {
    let conn = open_in_memory();
    do_upsert(&conn, &make_thread("t1", "o", "n", true));
    do_upsert(&conn, &make_thread("t2", "o", "n", false));
    assert_eq!(count(&conn, "SELECT COUNT(*) FROM v_unread_notifications"), 1);
}

fn finish_notifications(conn: &Connection, mock: &mut Mock, start: (NotificationSync, Action)) {
    let (mut machine, mut action) = start;
    loop {
        let reply = mock.perform(conn, action);
        match machine.step(reply, &now()) {
            Step::Do(m, a) => {
                machine = m;
                action = a;
            }
            Step::Finished(()) => return,
            Step::Failed => panic!("nothing failed"),
        }
    }
}

#[test]
fn only_watched_notifications_are_stored() {
    let conn = open_in_memory();
    upsert_repo(&conn, "o", "n", "main");
    let mut mock = Mock::new();
    let threads = Json::Array(vec![
        make_thread("t1", "o", "n", true),
        make_thread("t2", "other", "repo", true),
    ]);
    mock.rest.push((200, threads));
    let watched = Watched { slugs: vec!["o/n".to_owned()], owners: Vec::new() };
    finish_notifications(&conn, &mut mock, notifications::sync(watched));
    assert_eq!(count(&conn, "SELECT COUNT(*) FROM notification"), 1);
    assert_eq!(text(&conn, "SELECT gh_id FROM notification").as_deref(), Some("t1"));
    assert_eq!(mock.rest_calls, vec!["/notifications".to_owned()]);
}

// ---- whole syncs -------------------------------------------------------------------

#[test]
fn full_sweep_calls_graphql_once() {
    let conn = open_in_memory();
    let mut mock = Mock::new();
    mock.push_rest("[]");
    mock.push_graphql("{\"repository\": {\"pullRequests\": {\"nodes\": []}}}");

    assert!(run(&conn, &mut mock, &cfg_with_repo("o", "n"), all_filter(), true));

    assert_eq!(mock.graphql_calls.len(), 1);
    let (endpoint, _) = &mock.graphql_calls[0];
    assert!(endpoint.contains("full"), "expected full endpoint, got {endpoint}");
}

#[test]
fn targeted_no_events_skips_graphql() {
    let conn = open_in_memory();
    let mut mock = Mock::new();
    mock.push_rest_304();

    assert!(run(&conn, &mut mock, &cfg_with_repo("o", "n"), all_filter(), false));

    assert_eq!(mock.graphql_calls.len(), 0);
}

#[test]
fn targeted_batches_multiple_prs_in_one_call() {
    let conn = open_in_memory();
    let mut mock = Mock::new();
    mock.push_rest(
        "[{\"id\": \"1\", \"type\": \"PullRequestEvent\", \"actor\": {\"login\": \"alice\"},
             \"payload\": {\"number\": 42, \"action\": \"opened\"}, \"created_at\": \"2026-01-01T00:00:00Z\"},
            {\"id\": \"2\", \"type\": \"PullRequestReviewEvent\", \"actor\": {\"login\": \"bob\"},
             \"payload\": {\"action\": \"submitted\", \"pull_request\": {\"number\": 17}},
             \"created_at\": \"2026-01-01T00:00:01Z\"}]",
    );
    mock.push_graphql("{\"repository\": {}}");

    assert!(run(&conn, &mut mock, &cfg_with_repo("o", "n"), all_filter(), false));

    assert_eq!(mock.graphql_calls.len(), 1, "expected exactly 1 batched graphql call");
    let (endpoint, query) = &mock.graphql_calls[0];
    assert!(endpoint.contains("targeted"), "expected targeted endpoint, got {endpoint}");
    assert!(query.contains("pr_42"), "expected alias pr_42 in query");
    assert!(query.contains("pr_17"), "expected alias pr_17 in query");
}

#[test]
fn push_events_do_not_trigger_pr_sync() {
    let conn = open_in_memory();
    let mut mock = Mock::new();
    mock.push_rest(
        "[{\"id\": \"9\", \"type\": \"PushEvent\", \"actor\": {\"login\": \"alice\"},
             \"payload\": {\"ref\": \"refs/heads/main\"}, \"created_at\": \"2026-01-01T00:00:00Z\"}]",
    );

    assert!(run(&conn, &mut mock, &cfg_with_repo("o", "n"), all_filter(), false));

    assert_eq!(mock.graphql_calls.len(), 0);
}

#[test]
fn synced_pull_requests_reach_the_cache() {
    let conn = open_in_memory();
    let mut mock = Mock::new();
    mock.push_rest("[]");
    mock.graphql.push(j(&format!(
        "{{\"repository\":{{\"pullRequests\":{{\"nodes\":[{}]}}}}}}",
        to_text(&make_pr(5, "OPEN", "Five"))
    )));
    assert!(run(&conn, &mut mock, &cfg_with_repo("o", "n"), all_filter(), true));

    let found = Client.prs(&PrFilter::default()).unwrap();
    let prs = read_all::<PullRequest>(&rows(&conn, &found)).ok().unwrap();
    assert_eq!(prs.len(), 1);
    assert_eq!(prs[0].number, 5);
    assert_eq!(prs[0].repo_slug, "o/n");
    assert_eq!(prs[0].title, "Five");
    assert!(!prs[0].draft);
    assert_eq!(mock.log, vec!["begin", "commit"]);
}

#[test]
fn failed_repo_is_undone_and_the_next_one_synced() {
    let conn = open_in_memory();
    let mut cfg = cfg_with_repo("o", "a");
    cfg.repos.push(repo_config("o", "b"));
    let mut mock = Mock::new();
    // The first repository has its events, but its query fails; the second has everything.
    mock.push_rest("[]");
    mock.push_rest("[]");
    assert!(run(&conn, &mut mock, &cfg, all_filter(), true));
    assert_eq!(mock.graphql_calls.len(), 2);
    assert_eq!(mock.log, vec!["begin", "rollback", "begin", "rollback"]);
}

#[test]
fn restricted_sync_takes_one_kind() {
    let conn = open_in_memory();
    let mut mock = Mock::new();
    mock.push_rest("[]");
    let filter = SyncFilter { repo: None, prs_only: false, notifs_only: false, events_only: true };
    assert!(run(&conn, &mut mock, &cfg_with_repo("o", "n"), filter, true));
    assert!(mock.graphql_calls.is_empty());
    assert_eq!(mock.rest_calls, vec!["/repos/o/n/events".to_owned()]);

    let mut mock = Mock::new();
    let filter = SyncFilter {
        repo: Some("x/y".to_owned()),
        prs_only: false,
        notifs_only: false,
        events_only: false,
    };
    assert!(run(&conn, &mut mock, &cfg_with_repo("o", "n"), filter, true));
    assert!(mock.graphql_calls.is_empty() && mock.rest_calls.is_empty());
}

fn run_with(
    conn: &Connection,
    mock: &mut Mock,
    cfg: &ResolvedConfig,
    full_sweep: bool,
    repos: &Vec<RepoConfig>,
    slugs: &Vec<(String, String)>,
) -> bool {
    let mut step = sync::run(cfg, all_filter(), full_sweep, repos, slugs);
    while let Step::Do(machine, action) = step {
        let reply = mock.perform(conn, action);
        step = machine.step(reply, &now());
    }
    matches!(step, Step::Finished(()))
}

#[test]
fn subscribed_repository_is_fetched_after_the_first_sync_too() {
    let conn = open_in_memory();
    let mut cfg = cfg_with_repo("o", "n");
    cfg.repos.clear();
    let wanted = watch::extra_repos(vec![("x".to_owned(), "y".to_owned())], &cfg.repos);
    let node = |number: i64, title: &str| {
        format!(
            "{{\"repository\":{{\"pullRequests\":{{\"nodes\":[{}]}}}}}}",
            to_text(&make_pr(number, "OPEN", title))
        )
    };
    for (number, title) in [(5, "Five"), (6, "Six")] {
        let mut mock = Mock::new();
        mock.push_rest("[{\"name\":\"main\",\"commit\":{\"sha\":\"aaa\"}}]");
        mock.push_graphql(&node(number, title));
        assert!(run_with(&conn, &mut mock, &cfg, false, &wanted, &Vec::new()));
        assert_eq!(mock.graphql_calls.len(), 1);
        assert!(mock.graphql_calls[0].0.contains("full"));
        assert!(mock.rest_calls.iter().any(|c| c.contains("/branches")));
        assert_eq!(mock.log, vec!["begin", "commit"]);
        conn.execute_batch("DELETE FROM poll_state").unwrap();
    }
    assert_eq!(count(&conn, "SELECT COUNT(*) FROM pull_request"), 2);
    assert_eq!(text(&conn, "SELECT name FROM branch").as_deref(), Some("main"));
}

#[test]
fn notifications_of_an_organisation_are_stored() {
    let conn = open_in_memory();
    let mut cfg = cfg_with_repo("o", "n");
    cfg.repos.clear();
    cfg.orgs.push(org());
    cfg.orgs[0].sync_prs = None;
    let threads = || {
        Json::Array(vec![
            make_thread("t1", "myorg", "a", true),
            make_thread("t2", "myorg", "scratch", true),
            make_thread("t3", "other", "a", true),
            make_thread("t4", "myorganisation", "a", true),
        ])
    };
    let none = Vec::new();

    // The organisation does not ask for them.
    let mut mock = Mock::new();
    mock.push_rest("[{\"name\":\"a\"}]");
    mock.rest.push((200, threads()));
    assert!(run_with(&conn, &mut mock, &cfg, false, &none, &Vec::new()));
    assert!(!mock.rest_calls.contains(&"/notifications".to_owned()));

    // Now it does; what it leaves out is left out here too.
    cfg.orgs[0].sync_notifications = Some(true);
    conn.execute_batch("DELETE FROM poll_state").unwrap();
    let mut mock = Mock::new();
    mock.push_rest("[{\"name\":\"a\"}]");
    mock.rest.push((200, threads()));
    assert!(run_with(&conn, &mut mock, &cfg, false, &none, &Vec::new()));
    assert!(mock.rest_calls.contains(&"/notifications".to_owned()));
    assert_eq!(count(&conn, "SELECT COUNT(*) FROM notification"), 1);
    assert_eq!(text(&conn, "SELECT gh_id FROM notification").as_deref(), Some("t1"));
}

// ---- discovery ---------------------------------------------------------------------

fn org() -> OrgConfig {
    OrgConfig {
        owner: "myorg".into(),
        sync_prs: Some(true),
        sync_notifications: None,
        sync_events: None,
        sync_branches: None,
        checkout_on_sync: Some(true),
        poll_interval_seconds: None,
        fs_alias: Some("alias".into()),
        exclude: vec!["scratch".into()],
    }
}

fn discover(conn: &Connection, mock: &mut Mock) -> Option<Vec<String>> {
    let (mut machine, mut action) = discovery::Discovery::start("myorg".to_owned());
    loop {
        let reply = mock.perform(conn, action);
        match machine.step(reply, &now()) {
            Step::Do(m, a) => {
                machine = m;
                action = a;
            }
            Step::Finished(names) => return Some(names),
            Step::Failed => return None,
        }
    }
}

#[test]
fn repositories_of_an_organisation_are_discovered() {
    let conn = open_in_memory();
    let mut mock = Mock::new();
    mock.push_rest("[{\"name\":\"a\"},{\"name\":\"scratch\"},{\"other\":1}]");
    let names = discover(&conn, &mut mock).unwrap();
    assert_eq!(names, vec!["a".to_owned(), "scratch".to_owned()]);
    let repos = discovery::org_to_repos(&org(), names);
    assert_eq!(repos.len(), 1);
    assert_eq!(repos[0].slug(), "myorg/a");
    assert_eq!(repos[0].fs_owner(), "alias");
}

#[test]
fn unknown_organisation_is_asked_for_as_a_user() {
    let conn = open_in_memory();
    let mut mock = Mock::new();
    assert!(discover(&conn, &mut mock).is_none());
    let mut mock = Mock::new();
    mock.rest.push((404, j("{\"message\":\"Not Found\"}")));
    mock.push_rest("[{\"name\":\"dotfiles\"}]");
    assert_eq!(discover(&conn, &mut mock).unwrap(), vec!["dotfiles".to_owned()]);
    assert_eq!(mock.rest_calls.len(), 2);
    assert!(mock.rest_calls[0].starts_with("/orgs/myorg/"));
    assert!(mock.rest_calls[1].starts_with("/users/myorg/"));
}

#[test]
fn unchanged_list_comes_from_the_cache() {
    let conn = open_in_memory();
    upsert_repo(&conn, "myorg", "a", "main");
    upsert_repo(&conn, "other", "b", "main");
    let mut mock = Mock::new();
    mock.push_rest_304();
    assert_eq!(discover(&conn, &mut mock).unwrap(), vec!["a".to_owned()]);
}

#[test]
fn recent_list_comes_from_the_cache() {
    let conn = open_in_memory();
    upsert_repo(&conn, "myorg", "a", "main");
    let endpoint = "/orgs/myorg/repos?per_page=100";
    execute(&conn, &db::set_poll_state(endpoint, None, None, None, true, "2026-01-01T01:00:00Z"));
    let mut mock = Mock::new();
    assert_eq!(discover(&conn, &mut mock).unwrap(), vec!["a".to_owned()]);
    assert!(mock.rest_calls.is_empty());
    // A day later the list is asked for.
    execute(&conn, &db::set_poll_state(endpoint, None, None, None, true, "2026-01-01T00:00:00Z"));
    mock.push_rest("[{\"name\":\"b\"}]");
    assert_eq!(discover(&conn, &mut mock).unwrap(), vec!["b".to_owned()]);
}

#[test]
fn organisation_that_cannot_be_discovered_is_passed_over() {
    let conn = open_in_memory();
    let mut cfg = cfg_with_repo("o", "n");
    cfg.orgs.push(org());
    let mut mock = Mock::new();
    // A failing status that is no 404 has no list in it.
    mock.rest.push((500, Json::Null));
    mock.push_rest("[]");
    mock.push_graphql("{\"repository\": {\"pullRequests\": {\"nodes\": []}}}");
    assert!(run(&conn, &mut mock, &cfg, all_filter(), true));
    assert_eq!(mock.graphql_calls.len(), 1);

    let mut mock = Mock::new();
    let mut cfg = cfg_with_repo("o", "n");
    cfg.repos.clear();
    cfg.orgs.push(org());
    assert!(run(&conn, &mut mock, &cfg, all_filter(), true));
    assert!(mock.log.is_empty());
}

#[test]
fn events_of_an_organisation_mark_the_prs_of_its_repositories() {
    let conn = open_in_memory();
    upsert_repo(&conn, "myorg", "a", "main");
    let mut cfg = cfg_with_repo("o", "n");
    cfg.repos.clear();
    cfg.orgs.push(org());
    cfg.orgs[0].sync_events = Some(true);
    let mut mock = Mock::new();
    mock.push_rest("[{\"name\":\"a\"}]");
    mock.push_rest(
        "[{\"id\":\"1\",\"type\":\"PullRequestEvent\",\"repo\":{\"name\":\"myorg/a\"},\"payload\":{\"number\":5}},
          {\"id\":\"2\",\"type\":\"PullRequestEvent\",\"repo\":{\"name\":\"myorg/unknown\"},\"payload\":{\"number\":6}},
          {\"id\":\"1\",\"type\":\"PullRequestEvent\",\"repo\":{\"name\":\"myorg/a\"},\"payload\":{\"number\":7}}]",
    );
    mock.push_graphql("{\"repository\": {}}");
    assert!(run(&conn, &mut mock, &cfg, all_filter(), false));
    assert_eq!(count(&conn, "SELECT COUNT(*) FROM repo_event"), 1);
    assert_eq!(mock.graphql_calls.len(), 1);
    assert!(mock.graphql_calls[0].1.contains("pr_5"));
    assert!(!mock.graphql_calls[0].1.contains("pr_6"));
    assert!(!mock.graphql_calls[0].1.contains("pr_7"));
}

// ---- watching ----------------------------------------------------------------------

fn state(paused: bool) -> WatchEvent {
    WatchEvent::State { paused, prs: Vec::new(), notifications: Vec::new() }
}

#[test]
fn first_pass_of_a_watch_is_the_full_sweep() {
    let cfg = cfg_with_repo("o", "n");
    let (w, action) = watch::Watch::start(&cfg);
    assert!(matches!(action, WatchAction::Look));
    let (w, action) = w.step(state(true), 0);
    assert!(matches!(action, WatchAction::Rest { millis: 500 }));
    let (w, action) = w.step(WatchEvent::Done, 1);
    assert!(matches!(action, WatchAction::Look));
    let (w, action) = w.step(state(false), 1);
    assert!(matches!(action, WatchAction::Sync { full_sweep: true, .. }));
    let (w, action) = w.step(WatchEvent::Done, 1);
    assert!(matches!(action, WatchAction::Sleep { seconds: 60 }));
    let (w, action) = w.step(WatchEvent::Done, 1);
    assert!(matches!(action, WatchAction::Look));
    let (w, action) = w.step(state(false), 61);
    assert!(matches!(action, WatchAction::Sync { full_sweep: false, .. }));
    w.step(WatchEvent::Done, 61);
    let all = watch::everything();
    assert!(all.all() && all.do_prs() && all.do_notifs() && all.do_events());
}

fn resting_of(action: &WatchAction) -> (Vec<bool>, Vec<bool>, bool) {
    match action {
        WatchAction::Sync { resting, .. } => {
            (resting.repos.clone(), resting.orgs.clone(), resting.others)
        }
        _ => panic!("the loop syncs"),
    }
}

#[test]
fn repository_is_synced_at_its_own_interval() {
    let mut cfg = cfg_with_repo("o", "fast");
    cfg.repos[0].poll_interval_seconds = Some(20);
    cfg.repos.push(repo_config("o", "plain"));
    cfg.orgs.push(org());
    cfg.orgs[0].checkout_on_sync = None;
    cfg.orgs[0].poll_interval_seconds = Some(90);
    let want = || WatchEvent::State {
        paused: false,
        prs: vec![("x".to_owned(), "y".to_owned())],
        notifications: Vec::new(),
    };
    let extra = |action: &WatchAction| match action {
        WatchAction::Sync { repos, .. } => repos.len(),
        _ => panic!("the loop syncs"),
    };

    let (w, _) = watch::Watch::start(&cfg);
    let (w, action) = w.step(want(), 5);
    assert_eq!(resting_of(&action), (vec![false, false], vec![false], false));
    assert_eq!(extra(&action), 1);
    let (w, action) = w.step(WatchEvent::Done, 10);
    assert!(matches!(action, WatchAction::Sleep { seconds: 20 }));

    // Its own interval has passed, that of the others has not.
    let (w, _) = w.step(WatchEvent::Done, 30);
    let (w, action) = w.step(want(), 30);
    assert_eq!(resting_of(&action), (vec![false, true], vec![true], true));
    assert_eq!(extra(&action), 0);
    let (w, action) = w.step(WatchEvent::Done, 51);
    assert!(matches!(action, WatchAction::Sleep { seconds: 19 }));

    // A new subscription wakes what has no interval of its own.
    let (w, _) = w.step(WatchEvent::Woken, 55);
    let (w, action) = w.step(want(), 55);
    assert_eq!(resting_of(&action), (vec![true, false], vec![true], false));
    assert_eq!(extra(&action), 1);
    let (w, action) = w.step(WatchEvent::Done, 56);
    assert!(matches!(action, WatchAction::Sleep { seconds: 15 }));

    let (w, _) = w.step(WatchEvent::Done, 100);
    let (_, action) = w.step(want(), 100);
    assert_eq!(resting_of(&action), (vec![false, true], vec![false], true));
}

#[test]
fn what_rests_is_not_asked_for() {
    let conn = open_in_memory();
    let mut cfg = cfg_with_repo("o", "a");
    cfg.repos.push(repo_config("o", "b"));
    cfg.orgs.push(org());
    cfg.sync_notifications = true;
    let mut mock = Mock::new();
    mock.push_rest("[]");
    let resting = Resting { repos: vec![true, false], orgs: vec![true], others: true };
    let (repos, slugs) = (Vec::new(), Vec::new());
    let mut step = sync::run_due(&cfg, all_filter(), false, &repos, &slugs, resting);
    while let Step::Do(machine, action) = step {
        let reply = mock.perform(&conn, action);
        step = machine.step(reply, &now());
    }
    assert!(matches!(step, Step::Finished(())));
    assert_eq!(mock.rest_calls, vec!["/repos/o/b/events".to_owned()]);
    assert_eq!(count(&conn, "SELECT COUNT(*) FROM repo"), 1);
}

#[test]
fn checkouts_follow_a_sync() {
    let conn = open_in_memory();
    upsert_repo(&conn, "o", "n", "main");
    upsert_repo(&conn, "myorg", "a", "main");
    let mut cfg = cfg_with_repo("o", "n");
    cfg.repos[0].checkout_on_sync = Some(true);
    cfg.repos[0].sync_branches = Some(vec!["main".to_owned(), "dev".to_owned()]);
    cfg.repos.push(repo_config("o", "other"));
    cfg.orgs.push(org());
    cfg.orgs[0].sync_branches = Some(vec!["main".to_owned()]);
    let wanted = vec![("x".to_owned(), "y".to_owned()), ("o".to_owned(), "n".to_owned())];
    let (mut w, mut action) = watch::Watch::start(&cfg);
    let mut asked = Vec::new();
    loop {
        let event = match action {
            WatchAction::Look if !asked.is_empty() => break,
            WatchAction::Look => {
                asked.push("look".to_owned());
                WatchEvent::State {
                    paused: false,
                    prs: wanted.clone(),
                    notifications: wanted.clone(),
                }
            }
            WatchAction::Sync { full_sweep, repos, notifications, .. } => {
                assert!(full_sweep);
                assert_eq!(repos.len(), 1);
                assert_eq!(repos[0].slug(), "x/y");
                assert_eq!(notifications, vec![("x".to_owned(), "y".to_owned())]);
                asked.push("sync".to_owned());
                WatchEvent::Done
            }
            WatchAction::Query(s) => {
                asked.push("query".to_owned());
                WatchEvent::Rows(rows(&conn, &s))
            }
            WatchAction::CheckOut(tasks) => {
                for t in &tasks {
                    asked.push(format!("{}/{} {}", t.fs_owner, t.name, t.default_branch));
                }
                WatchEvent::Done
            }
            WatchAction::Sleep { seconds } => {
                asked.push(format!("sleep {seconds}"));
                WatchEvent::Done
            }
            WatchAction::Rest { .. } => panic!("the loop is not paused"),
        };
        (w, action) = w.step(event, 0);
    }
    assert_eq!(
        asked,
        vec!["look", "sync", "query", "query", "o/n main", "o/n dev", "alias/a main", "sleep 60"]
    );
}

#[test]
fn wishes_add_only_what_is_not_configured() {
    let repos = vec![repo_config("o", "n")];
    let wanted = vec![
        ("o".to_owned(), "n".to_owned()),
        ("x".to_owned(), "y".to_owned()),
    ];
    let extra = watch::extra_repos(wanted, &repos);
    assert_eq!(extra.len(), 1);
    assert_eq!(extra[0].slug(), "x/y");
    let slugs = watch::extra_slugs(vec![("o".to_owned(), "n".to_owned())], &repos);
    assert!(slugs.is_empty());
}

#[test]
fn checkouts_follow_the_configuration() {
    let conn = open_in_memory();
    upsert_repo(&conn, "myorg", "a", "trunk");
    upsert_repo(&conn, "myorg", "scratch", "main");
    let mut repo = repo_config("o", "n");
    assert!(watch::repo_tasks(&repo, true).is_empty());
    repo.checkout_on_sync = Some(true);
    repo.sync_branches = Some(vec!["main".to_owned()]);
    let tasks = watch::repo_tasks(&repo, true);
    assert_eq!(tasks.len(), 1);
    assert_eq!(tasks[0].owner, "o");
    assert_eq!(tasks[0].default_branch, "main");
    assert!(watch::repo_tasks(&repo, false).is_empty());

    let mut org = org();
    org.sync_branches = Some(vec!["main".to_owned()]);
    let found = rows(&conn, &watch::select_owned("myorg"));
    let tasks = watch::org_tasks(&org, &found);
    assert!(tasks.iter().all(|t| t.fs_owner == "alias" && t.owner == "myorg"));
    assert_eq!(tasks.len(), 2);
    org.checkout_on_sync = None;
    assert!(watch::org_tasks(&org, &found).is_empty());
}

// ---- waiting -----------------------------------------------------------------------

#[test]
fn fewer_points_mean_a_longer_wait() {
    let left = |n: i64| Left { remaining: Some(n), reset: Some(1900) };
    assert_eq!(wait_seconds(left(600), 500, 50, 1000), 0);
    assert_eq!(wait_seconds(left(500), 500, 50, 1000), 0);
    assert_eq!(wait_seconds(left(275), 500, 50, 1000), 450);
    assert_eq!(wait_seconds(left(50), 500, 50, 1000), 900);
    assert_eq!(wait_seconds(left(0), 500, 50, 1000), 900);
    assert_eq!(wait_seconds(left(0), 500, 50, 2000), 0);
    assert_eq!(wait_seconds(Left { remaining: None, reset: None }, 500, 50, 0), 0);
    let far = Left { remaining: Some(0), reset: Some(i64::MAX) };
    assert_eq!(wait_seconds(far, i64::MAX, i64::MIN, i64::MIN), u64::MAX / 2);
}

#[test]
fn what_is_left_comes_from_the_latest_call_of_the_pool() {
    let conn = open_in_memory();
    let left = read_left(&rows(&conn, &select_left(Pool::Rest)));
    assert_eq!(left, Left { remaining: None, reset: None });
    for (endpoint, remaining) in [("/a", Some(10)), ("/b", Some(9)), ("/c", None), ("graphql:x", Some(7))] {
        execute(
            &conn,
            &db::log_call(&db::CallLogEntry {
                endpoint,
                method: "GET",
                status_code: Some(200),
                etag: None,
                last_modified: None,
                rate_remaining: remaining,
                rate_reset: Some(1900),
                cache_hit: false,
                duration_ms: None,
            }),
        );
    }
    let left = read_left(&rows(&conn, &select_left(Pool::Rest)));
    assert_eq!(left, Left { remaining: Some(9), reset: Some(1900) });
    let left = read_left(&rows(&conn, &select_left(Pool::Graphql)));
    assert_eq!(left.remaining, Some(7));
}

// ---- the configuration -------------------------------------------------------------

#[test]
fn configuration_comes_from_the_first_place_that_has_one() {
    let dir = Some("/home/u/.config");
    assert_eq!(config_file(Some("/a"), Some("/b"), true, dir), "/a");
    assert_eq!(config_file(None, Some("/b"), true, dir), "/b");
    assert_eq!(config_file(None, None, true, dir), "./ghcache.toml");
    assert_eq!(config_file(None, None, false, dir), "/home/u/.config/ghcache/config.toml");
    assert_eq!(config_file(None, None, false, None), "./ghcache.toml");
}

#[test]
fn what_a_configuration_leaves_out_is_settled() {
    let settings = Settings {
        db_path: None,
        staging_folder: Some("/s".to_owned()),
        poll_interval_seconds: None,
        log_level: None,
        gh_binary: None,
        rate_warn_threshold: None,
        rate_stop_threshold: None,
        cmd_port: None,
        heartbeat_ttl_seconds: None,
        sync_notifications: None,
        repos: vec![repo_config("o", "n")],
        orgs: vec![],
    };
    let cfg = resolve(settings, Some("/home/u"));
    assert_eq!(cfg.db_path, "/home/u/.local/share/ghcache/gh.db");
    assert_eq!(cfg.staging_folder, "/s");
    assert_eq!(cfg.poll_interval_seconds, 60);
    assert_eq!(cfg.log_level, "info");
    assert_eq!(cfg.gh_binary, "gh");
    assert_eq!((cfg.rate_warn_threshold, cfg.rate_stop_threshold), (500, 50));
    assert_eq!((cfg.cmd_port, cfg.heartbeat_ttl_seconds), (7748, 30));
    assert!(!cfg.sync_notifications);
    assert_eq!(cfg.repos.len(), 1);
    assert_eq!(expand_tilde("~user/x", Some("/h")), "~user/x");
    assert_eq!(expand_tilde("~/x", None), "~/x");
}

// ---- readers -----------------------------------------------------------------------

#[test]
fn prs_empty() {
    let conn = open_in_memory();
    let found = Client.prs(&PrFilter::default()).unwrap();
    let prs = read_all::<PullRequest>(&rows(&conn, &found)).ok().unwrap();
    assert!(prs.is_empty());
}

#[test]
fn notifications_empty() {
    let conn = open_in_memory();
    let found = rows(&conn, &Client.unread_notifications());
    assert!(read_all::<Notification>(&found).ok().unwrap().is_empty());
}

#[test]
fn readers_find_what_was_synced() {
    let conn = open_in_memory();
    let repo_id = upsert_repo(&conn, "o", "n", "main");
    let mut pr = make_pr(3, "OPEN", "Third");
    put(
        &mut pr,
        "reviews",
        j("{\"nodes\":[{\"databaseId\":1,\"author\":{\"login\":\"bob\"},\"state\":\"APPROVED\",\"body\":\"ok\",\"submittedAt\":\"t\"}]}"),
    );
    upsert_pr_for_test(&conn, repo_id, &pr);
    upsert_pr_for_test(&conn, repo_id, &make_pr(4, "OPEN", "Fourth"));
    do_upsert(&conn, &make_thread("t1", "o", "n", true));
    insert_branches(&conn, repo_id, vec![make_branch("main", "aaa")], &["main"]);
    insert_events(&conn, repo_id, &[make_event("1", "PushEvent", "{\"a\":1}")]);

    let one = first_of::<PullRequest>(&rows(&conn, &Client.pr("o/n", 3).unwrap())).ok().unwrap();
    let one = one.unwrap();
    assert_eq!(one.title, "Third");
    assert!(first_of::<PullRequest>(&rows(&conn, &Client.pr("o/n", 9).unwrap())).ok().unwrap().is_none());
    assert!(Client.pr("noname", 3).is_err());

    let reviews = read_all::<Review>(&rows(&conn, &Client.reviews(one.id))).ok().unwrap();
    assert_eq!(reviews.len(), 1);
    assert_eq!(reviews[0].author.as_deref(), Some("bob"));
    assert!(read_all::<Comment>(&rows(&conn, &Client.comments(one.id))).ok().unwrap().is_empty());

    let filter = PrFilter { needs_review: true, repo: Some("o/n"), ..PrFilter::default() };
    let open = read_all::<PullRequest>(&rows(&conn, &Client.prs(&filter).unwrap())).ok().unwrap();
    assert_eq!(open.len(), 1);
    assert_eq!(open[0].number, 4);
    let filter = PrFilter { author: Some("O'Brien"), ..PrFilter::default() };
    assert!(rows(&conn, &Client.prs(&filter).unwrap()).is_empty());
    let filter = PrFilter { repo: Some("noname"), ..PrFilter::default() };
    assert!(Client.prs(&filter).is_err());

    let notes = read_all::<Notification>(&rows(&conn, &Client.notifications(false))).ok().unwrap();
    assert_eq!(notes[0].repo_slug.as_deref(), Some("o/n"));
    assert!(notes[0].unread);

    let found = read_all::<Branch>(&rows(&conn, &Client.branches(Some("o/n")).unwrap())).ok().unwrap();
    assert_eq!(found[0].sha.as_deref(), Some("aaa"));
    assert!(Client.branches(Some("noname")).is_err());

    let found = Client.events(Some("o/n"), Some("PushEvent"), 10).unwrap();
    let found = read_all::<RepoEvent>(&rows(&conn, &found)).ok().unwrap();
    assert_eq!(found.len(), 1);
    assert_eq!(found[0].payload.at("a").as_i64(), Some(1));
    assert!(rows(&conn, &Client.events(None, None, 0).unwrap()).is_empty());
    assert!(Client.events(Some("noname"), None, 1).is_err());

    assert!(read_all::<RateLimit>(&rows(&conn, &Client.rate_limit())).ok().unwrap().is_empty());
    let latest = get_integer(&rows(&conn, &Client.latest_change_id())[0], 0).unwrap();
    assert_eq!(rows(&conn, &Client.changes_since(latest)).len(), 0);
    assert_eq!(rows(&conn, &Client.changes_since(0)).len() as i64, latest);
}

// ---- the log of changes ------------------------------------------------------------

fn insert_change(conn: &Connection, entity_type: &str, entity_id: i64) {
    conn.execute(
        "INSERT INTO change_log (entity_type, entity_id, event, repo_slug)
             VALUES (?1, ?2, 'inserted', 'o/n')",
        (entity_type, entity_id),
    )
    .unwrap();
}

fn changes(conn: &Connection, last_id: i64) -> Vec<ChangeEvent> {
    changes_from(&rows(conn, &poll(last_id))).ok().unwrap()
}

#[test]
fn poll_empty() {
    let conn = open_in_memory();
    assert!(changes(&conn, 0).is_empty());
    assert_eq!(next_last_id(&Vec::new(), 7), 7);
}

#[test]
fn poll_returns_new() {
    let conn = open_in_memory();
    insert_change(&conn, "pull_request", 1);
    insert_change(&conn, "pull_request", 2);

    let events = changes(&conn, 0);
    assert_eq!(events.len(), 2);
    assert_eq!(events[0].entity_type, "pull_request");
    assert_eq!(events[1].entity_id, 2);
}

#[test]
fn poll_incremental() {
    let conn = open_in_memory();
    insert_change(&conn, "branch", 10);
    insert_change(&conn, "branch", 11);

    let first = changes(&conn, 0);
    assert_eq!(first.len(), 2);
    let last_id = next_last_id(&first, 0);
    assert_eq!(last_id, first.last().unwrap().id);

    insert_change(&conn, "notification", 99);
    let second = changes(&conn, last_id);
    assert_eq!(second.len(), 1);
    assert_eq!(second[0].entity_type, "notification");
}

#[test]
fn poll_event_fields() {
    let conn = open_in_memory();
    conn.execute(
        "INSERT INTO change_log (entity_type, entity_id, event, repo_slug, payload_json)
             VALUES ('pull_request', 42, 'updated', 'myorg/backend', '{\"number\":42}')",
        [],
    )
    .unwrap();

    let events = changes(&conn, 0);
    assert_eq!(events.len(), 1);
    let ev = &events[0];
    assert_eq!(ev.event, "updated");
    assert_eq!(ev.repo_slug.as_deref(), Some("myorg/backend"));
    assert_eq!(ev.payload.at("number").as_i64(), Some(42));
}

#[test]
fn change_event_serializes_to_json() {
    let ev = ChangeEvent {
        id: 1,
        entity_type: "pull_request".into(),
        entity_id: 5,
        event: "inserted".into(),
        repo_slug: Some("o/n".into()),
        payload: j("{\"title\": \"Fix bug\"}"),
        occurred_at: "2026-01-01T00:00:00Z".into(),
    };
    let json = ev.to_line();
    let v = j(&json);
    assert_eq!(v.at("entity_type").as_str(), Some("pull_request"));
    assert_eq!(v.at("payload").at("title").as_str(), Some("Fix bug"));
    let frame = event_frame(&ev);
    assert!(frame.starts_with("id: 1\ndata: {"));
    assert!(frame.ends_with("}\n\n"));
}

#[test]
fn follower_receives_every_change_once() {
    let conn = open_in_memory();
    insert_change(&conn, "branch", 1);
    let mut tail = Tail::from_now(&rows(&conn, &Client.latest_change_id()));
    let mut early = Tail::after(0);
    let mut received = Vec::new();
    for batch in [vec![2, 3], vec![], vec![4]] {
        for id in &batch {
            insert_change(&conn, "branch", *id);
        }
        let new = tail.take(changes_from(&rows(&conn, &tail.query())).ok().unwrap());
        assert_eq!(new.is_none(), batch.is_empty());
        received.extend(new.unwrap_or_default().into_iter().map(|ev| ev.entity_id));
    }
    assert_eq!(received, vec![2, 3, 4]);
    let all = early.take(changes(&conn, 0)).unwrap();
    assert_eq!(all.len(), 4);
    assert!(early.take(changes_from(&rows(&conn, &early.query())).ok().unwrap()).is_none());

    // Up to a point, and then from there on, is the same as all at once.
    let joined: Vec<i64> = changes(&conn, 0)
        .iter()
        .filter(|ev| ev.id <= 2)
        .chain(changes(&conn, 2).iter())
        .map(|ev| ev.id)
        .collect();
    assert_eq!(joined, all.iter().map(|ev| ev.id).collect::<Vec<i64>>());
}

/// Runs a subscriber until it rests or stops, and gives what it handed on.
fn until_rest(
    conn: &Connection,
    follow: &mut Follow,
    start: FollowAction,
    fine: bool,
) -> (Vec<Vec<i64>>, Option<Reason>) {
    let mut handed = Vec::new();
    let mut action = start;
    loop {
        let outcome = match action {
            FollowAction::Query(s) => Outcome::Rows(rows(conn, &s)),
            FollowAction::Hand(events) => {
                handed.push(events.iter().map(|ev| ev.entity_id).collect());
                if fine { Outcome::Done } else { Outcome::Failed }
            }
            FollowAction::Sleep(nanos) => {
                assert_eq!(nanos, 1_000);
                return (handed, None);
            }
            FollowAction::Stop(reason) => return (handed, Some(reason)),
        };
        action = follow.step(outcome);
    }
}

#[test]
fn handler_that_fails_ends_the_subscription() {
    let conn = open_in_memory();
    insert_change(&conn, "branch", 1);
    let (mut follow, action) = Subscriber::new("/x/gh.db").interval(1_000).follow();
    // What was logged before is not handed on.
    assert_eq!(until_rest(&conn, &mut follow, action, true), (vec![], None));
    insert_change(&conn, "branch", 2);
    insert_change(&conn, "branch", 3);
    let action = follow.step(Outcome::Done);
    assert_eq!(until_rest(&conn, &mut follow, action, true), (vec![vec![2, 3]], None));
    // Nothing new: the handler is not called.
    let action = follow.step(Outcome::Done);
    assert_eq!(until_rest(&conn, &mut follow, action, true), (vec![], None));
    insert_change(&conn, "branch", 4);
    let action = follow.step(Outcome::Done);
    let failed = Some(Reason::Handler);
    assert_eq!(until_rest(&conn, &mut follow, action, false), (vec![vec![4]], failed));
    insert_change(&conn, "branch", 5);
    for outcome in [Outcome::Done, Outcome::Failed, Outcome::Rows(rows(&conn, &poll(0)))] {
        assert!(matches!(follow.step(outcome), FollowAction::Stop(Reason::Handler)));
    }
}

#[test]
fn log_that_cannot_be_read_ends_the_subscription() {
    let conn = open_in_memory();
    insert_change(&conn, "branch", 1);
    let start = || {
        let (mut follow, action) = Subscriber::new("/x/gh.db").follow();
        assert!(matches!(action, FollowAction::Query(_)));
        // Where the latest change cannot be told, everything is new.
        assert!(matches!(follow.step(Outcome::Failed), FollowAction::Sleep(500_000_000)));
        follow
    };
    let mut follow = start();
    follow.step(Outcome::Done);
    assert!(matches!(follow.step(Outcome::Rows(rows(&conn, &poll(0)))), FollowAction::Hand(e) if e.len() == 1));
    let mut follow = start();
    follow.step(Outcome::Done);
    assert!(matches!(follow.step(Outcome::Failed), FollowAction::Stop(Reason::Query)));
    let mut follow = start();
    follow.step(Outcome::Done);
    let mut found = rows(&conn, &poll(0));
    found.push(vec![SqlValue::Null]);
    assert!(matches!(
        follow.step(Outcome::Rows(found)),
        FollowAction::Stop(Reason::Unreadable { row: 1 })
    ));
}

#[test]
fn what_readers_find_can_be_copied_and_shown() {
    let conn = open_in_memory();
    let repo_id = upsert_repo(&conn, "o", "n", "main");
    upsert_pr_for_test(&conn, repo_id, &make_pr(3, "OPEN", "Three"));
    insert_branches(&conn, repo_id, vec![make_branch("main", "aaa")], &["main"]);
    do_upsert(&conn, &make_thread("t1", "o", "n", true));
    let found = Client.prs(&PrFilter::default()).unwrap();
    let prs = read_all::<PullRequest>(&rows(&conn, &found)).ok().unwrap();
    assert_eq!(prs[0].clone().title, "Three");
    assert!(format!("{:?}", prs[0]).contains("Three"));
    let tips = read_all::<Branch>(&rows(&conn, &Client.branches(None).unwrap())).ok().unwrap();
    assert_eq!(format!("{:?}", tips[0].clone()), format!("{:?}", tips[0]));
    let notes = read_all::<Notification>(&rows(&conn, &Client.notifications(true))).ok().unwrap();
    assert_eq!(format!("{:?}", notes[0].clone()), format!("{:?}", notes[0]));
    insert_change(&conn, "branch", 1);
    let ev = changes(&conn, 0).pop().unwrap();
    assert_eq!(ev.clone().id, ev.id);
    assert!(format!("{ev:?}").contains("branch"));
    assert!(format!("{:?}", PrFilter::default().clone()).contains("needs_review"));
    assert!(format!("{:?}", Subscriber::new("/x/gh.db").clone()).contains("gh.db"));
}

#[test]
fn subscriber_asks_twice_a_second_unless_told_otherwise() {
    let s = Subscriber::new("/x/gh.db");
    assert_eq!(s.interval_nanos(), 500_000_000);
    assert_eq!(s.db_path(), "/x/gh.db");
    let s = s.interval(1_000);
    assert_eq!(s.interval_nanos(), 1_000);
    assert_eq!(s.db_path(), "/x/gh.db");
}

// ---- the socket --------------------------------------------------------------------

fn log_change(
    conn: &Connection,
    entity_type: &str,
    id: i64,
    event: db::ChangeEvent,
    slug: Option<&str>,
    payload: Option<&Json>,
) {
    execute(conn, &db::log_change(entity_type, id, event, slug, payload));
}

fn new_lines(conn: &Connection, last_id: &mut i64) -> Vec<String> {
    let found = rows(conn, &poll(*last_id));
    poll_changes(&found, last_id).ok().unwrap()
}

#[test]
fn default_socket_path_is_absolute() {
    for dir in [None, Some("/run/user/1000")] {
        let p = default_socket_path(dir);
        assert!(std::path::Path::new(&p).is_absolute());
        assert!(p.ends_with(".sock"));
    }
}

#[test]
fn poll_changes_empty() {
    let conn = open_in_memory();
    let mut last_id = 0i64;
    let lines = new_lines(&conn, &mut last_id);
    assert!(lines.is_empty());
    assert_eq!(last_id, 0);
}

#[test]
fn poll_changes_returns_new_rows() {
    let conn = open_in_memory();
    log_change(&conn, "pull_request", 1, db::ChangeEvent::Inserted, Some("o/n"), None);
    log_change(&conn, "notification", 2, db::ChangeEvent::Updated, None, None);

    let mut last_id = 0i64;
    let lines = new_lines(&conn, &mut last_id);
    assert_eq!(lines.len(), 2);
    assert_eq!(last_id, 2);

    // Calling again with updated last_id returns nothing
    assert!(new_lines(&conn, &mut last_id).is_empty());
}

#[test]
fn poll_changes_advances_last_id() {
    let conn = open_in_memory();
    log_change(&conn, "branch", 10, db::ChangeEvent::Inserted, Some("o/n"), None);
    log_change(&conn, "branch", 11, db::ChangeEvent::Updated, Some("o/n"), None);

    let mut last_id = 0i64;
    new_lines(&conn, &mut last_id);
    assert_eq!(last_id, 2); // row id 2

    // Add one more
    log_change(&conn, "branch", 12, db::ChangeEvent::Inserted, None, None);
    let lines = new_lines(&conn, &mut last_id);
    assert_eq!(lines.len(), 1);

    let v = j(&lines[0]);
    assert_eq!(v.at("entity_id").as_i64(), Some(12));
    assert_eq!(v.at("event").as_str(), Some("inserted"));
}

#[test]
fn poll_changes_ndjson_shape() {
    let conn = open_in_memory();
    let payload = j("{\"number\": 5}");
    log_change(
        &conn,
        "pull_request",
        5,
        db::ChangeEvent::Updated,
        Some("myorg/backend"),
        Some(&payload),
    );

    let mut last_id = 0i64;
    let lines = new_lines(&conn, &mut last_id);
    assert_eq!(lines.len(), 1);

    let v = j(&lines[0]);
    assert_eq!(v.at("entity_type").as_str(), Some("pull_request"));
    assert_eq!(v.at("event").as_str(), Some("updated"));
    assert_eq!(v.at("repo_slug").as_str(), Some("myorg/backend"));
    assert_eq!(v.at("payload").at("number").as_i64(), Some(5));
    assert!(v.at("occurred_at").as_str().is_some());
}

// ---- what the command line shows ---------------------------------------------------

fn query_raw(conn: &Connection, sql: &str, format: Format) -> Option<String> {
    let s = Statement { sql: sql.to_owned(), params: Vec::new() };
    query::sql::query_raw(&columns(conn, sql), &rows(conn, &s), format)
}

#[test]
fn query_open_prs() {
    let conn = open_in_memory();
    let repo_id = upsert_repo(&conn, "o", "n", "main");
    upsert_pr_for_test(&conn, repo_id, &make_pr(1, "OPEN", "PR #1"));
    upsert_pr_for_test(&conn, repo_id, &make_pr(2, "OPEN", "PR #2"));

    assert_eq!(count(&conn, "SELECT COUNT(*) FROM pull_request WHERE state='open'"), 2);
    let found = rows(&conn, &query::prs::query(Some("o/n"), "open", false, false));
    assert_eq!(found.len(), 2);
    let shown = query::prs::show(&found, Format::Json).unwrap();
    assert_eq!(shown.lines().count(), 2);
    assert_eq!(j(shown.lines().next().unwrap()).at("approvals").as_i64(), Some(0));
    let table = query::prs::show(&found, Format::Table).unwrap();
    assert_eq!(table.lines().count(), 4);
    assert!(table.starts_with("repo_slug  number  title  author  state  approvals  updated_at"));
    assert!(rows(&conn, &query::prs::query(Some("o/x"), "open", false, false)).is_empty());
    // A name without an owner is no condition.
    assert_eq!(rows(&conn, &query::prs::query(Some("n"), "open", false, true)).len(), 2);
}

#[test]
fn query_needs_review_filter() {
    let conn = open_in_memory();
    let repo_id = upsert_repo(&conn, "o", "n", "main");
    upsert_pr_for_test(&conn, repo_id, &make_pr(1, "OPEN", "PR #1"));

    let mut pr2 = make_pr(2, "OPEN", "PR #2");
    put(
        &mut pr2,
        "reviews",
        j("{\"nodes\":[{ \"databaseId\": 1, \"author\": { \"login\": \"bob\" }, \"state\": \"APPROVED\", \"body\": \"\", \"submittedAt\": \"2026-01-01T00:00:00Z\" }]}"),
    );
    upsert_pr_for_test(&conn, repo_id, &pr2);

    // PR 1 has no approvals, PR 2 has one
    let left = count(
        &conn,
        "SELECT COUNT(*) FROM pull_request pr WHERE pr.state='open'
                 AND (SELECT COUNT(*) FROM pr_review rv WHERE rv.pr_id=pr.id AND rv.state='APPROVED')=0",
    );
    assert_eq!(left, 1);
    let found = rows(&conn, &query::prs::query(None, "open", true, false));
    assert_eq!(found.len(), 1);
    assert_eq!(get_integer(&found[0], 1).unwrap(), 1);
}

fn one_pr(conn: &Connection, number: u32, repo: &str) -> Result<query::prs::PrDetail, PrQueryError> {
    let mut step = query::prs::query_one(number, repo);
    loop {
        match step {
            PrStep::Ask(stage, s) => step = stage.step(&rows(conn, &s)),
            PrStep::Done(detail) => return Ok(detail),
            PrStep::Failed(e) => return Err(e),
        }
    }
}

#[test]
fn one_pull_request_is_shown_with_all_that_belongs_to_it() {
    let conn = open_in_memory();
    let repo_id = upsert_repo(&conn, "o", "n", "main");
    let mut pr = make_pr(7, "OPEN", "Seven");
    put(&mut pr, "labels", j("{\"nodes\":[{\"name\":\"b\"},{\"name\":\"a\"}]}"));
    upsert_pr_for_test(&conn, repo_id, &pr);

    let detail = one_pr(&conn, 7, "o/n").unwrap_or_else(|_| panic!("it is there"));
    assert_eq!(detail.labels, vec!["a".to_owned(), "b".to_owned()]);
    assert!(detail.reviews.is_empty() && detail.comments.is_empty());
    let v = j(&query::prs::show_one(&detail, Format::Json).unwrap());
    assert_eq!(v.at("title").as_str(), Some("Seven"));
    assert_eq!(to_text(v.at("labels")), "[\"a\",\"b\"]");
    let tsv = query::prs::show_one(&detail, Format::Tsv).unwrap();
    assert_eq!(tsv, "repo_slug\tnumber\ttitle\tstate\tauthor\no/n\t7\tSeven\topen\talice\n");

    assert!(matches!(one_pr(&conn, 8, "o/n"), Err(PrQueryError::NotFound)));
    assert!(matches!(one_pr(&conn, 7, "noname"), Err(PrQueryError::BadSlug)));
    let bad: Vec<Row> = vec![vec![SqlValue::Null]];
    match query::prs::query_one(7, "o/n") {
        PrStep::Ask(stage, _) => {
            assert!(matches!(stage.step(&bad), PrStep::Failed(PrQueryError::BadRow)))
        }
        _ => panic!("the first question is for the id"),
    }
}

#[test]
fn query_raw_empty_result() {
    let conn = open_in_memory();
    // Should not panic on empty result
    let shown = query_raw(&conn, "SELECT * FROM repo WHERE 1=0", Format::Json).unwrap();
    assert_eq!(shown, "");
}

#[test]
fn rusqlite_to_json_variants() {
    assert_eq!(to_text(&rusqlite_to_json(&SqlValue::Null)), "null");
    assert_eq!(rusqlite_to_json(&SqlValue::Integer(42)).as_i64(), Some(42));
    assert_eq!(rusqlite_to_json(&SqlValue::Text("hi".into())).as_str(), Some("hi"));
    match rusqlite_to_json(&SqlValue::Blob(vec![1, 2, 3])) {
        Json::Str(s) => {
            assert!(s.contains("blob"));
            assert_eq!(s, "<blob 3 bytes>");
        }
        _ => panic!("expected string"),
    }
    let real = serde_json::Number::from_f64(1.5).unwrap();
    assert_eq!(to_text(&rusqlite_to_json(&SqlValue::Real(real))), "1.5");
}

#[test]
fn json_cell_variants() {
    assert_eq!(json_cell(None), "");
    assert_eq!(json_cell(Some(&Json::Null)), "");
    assert_eq!(json_cell(Some(&j("\"hello\""))), "hello");
    assert_eq!(json_cell(Some(&j("99"))), "99");
}

#[test]
fn query_raw_returns_rows() {
    let conn = open_in_memory();
    upsert_repo(&conn, "o", "n", "main");
    let sql = "SELECT owner, name FROM repo";
    assert_eq!(query_raw(&conn, sql, Format::Json).unwrap(), "{\"name\":\"n\",\"owner\":\"o\"}\n");
    assert_eq!(
        query_raw(&conn, sql, Format::JsonPretty).unwrap(),
        "{\n  \"name\": \"n\",\n  \"owner\": \"o\"\n}\n"
    );
    assert_eq!(query_raw(&conn, sql, Format::Tsv).unwrap(), "owner\tname\no\tn\n");
    assert_eq!(
        query_raw(&conn, sql, Format::Table).unwrap(),
        "owner  name\n-----  ----\no      n   \n"
    );
}

#[test]
fn long_cells_of_a_table_are_cut() {
    let conn = open_in_memory();
    let sql = format!("SELECT '{}' AS c", "x".repeat(70));
    let shown = query_raw(&conn, &sql, Format::Table).unwrap();
    let line = shown.lines().nth(2).unwrap();
    assert_eq!(line, format!("{}…", "x".repeat(59)));
    assert_eq!(shown.lines().nth(1).unwrap(), "-".repeat(60));
    // Here the cut would fall into a character.
    let sql = format!("SELECT '{}' AS c", "é".repeat(40));
    assert!(query_raw(&conn, &sql, Format::Table).is_none());
    assert!(query_raw(&conn, &sql, Format::Tsv).is_some());
}

#[test]
fn unread_notifications_are_shown_from_their_view() {
    let conn = open_in_memory();
    let s = query::notifications::query(false).ok().unwrap();
    assert_eq!(s.sql, "SELECT * FROM v_unread_notifications");
    assert!(rows(&conn, &s).is_empty());
    assert!(query::notifications::query(true).is_err());
}

#[test]
fn configuration_is_shown_line_by_line() {
    assert_eq!(
        report::config_text(&cfg_with_repo("o", "n")),
        "db_path:          :memory:\nstaging_folder:   /tmp\npoll_interval:    60s\nlog_level:        info\ngh_binary:        gh\nrepos (1):\n  o/n\n"
    );
    assert!(report::CONFIG_TEMPLATE.starts_with("[global]\n"));
}

#[test]
fn state_is_shown_with_the_latest_polls() {
    let conn = open_in_memory();
    let statement = |sql: &str| Statement { sql: sql.to_owned(), params: Vec::new() };
    let prs = report::count_or_zero(&rows(&conn, &statement(report::SELECT_PR_COUNT)));
    let unread = report::count_or_zero(&rows(&conn, &statement(report::SELECT_UNREAD_COUNT)));
    assert!(report::count_or_zero(&rows(&conn, &statement(report::SELECT_SIZE))) > 0);
    assert_eq!(report::count_or_zero(&Vec::new()), 0);
    let polls = rows(&conn, &statement(report::SELECT_POLLS));
    assert_eq!(
        report::status_text("/x.db", "4.0", prs, unread, &polls),
        "db:               /x.db (4.0 KB)\npull_requests:    0\nunread notifs:    0\n"
    );
    execute(&conn, &db::set_poll_state("/ep", None, None, None, false, "t1"));
    let polls = rows(&conn, &statement(report::SELECT_POLLS));
    assert!(report::status_text("/x.db", "4.0", 1, 2, &polls)
        .ends_with("\n\nrecent polls:\n  /ep -- polled: t1 changed: never\n"));
}

#[test]
fn calls_and_limits_are_told_as_json_lines() {
    let limits = vec![
        RateLimit {
            api_type: "rest".into(),
            remaining: Some(4800),
            reset_at: None,
            gql_cost: None,
        },
        RateLimit {
            api_type: "graphql".into(),
            remaining: Some(4950),
            reset_at: None,
            gql_cost: Some(1),
        },
    ];
    assert_eq!(
        report::rate_line(&limits, "2026-03-25T10:00:00Z"),
        "{\"gh_points_graphql_remaining\":4950,\"gh_points_rest_remaining\":4800,\"ts\":\"2026-03-25T10:00:00Z\"}"
    );
    let rest = report::CallReport {
        endpoint: "/repos/myorg/backend/events",
        status: 200,
        rate_remaining: Some(4800),
        gql_cost: None,
        duration_ms: 42,
    };
    assert_eq!(
        report::call_line(&rest, "2026-03-25T10:00:00Z"),
        "{\"api_type\":\"rest\",\"duration_ms\":42,\"endpoint\":\"/repos/myorg/backend/events\",\"rate_remaining\":4800,\"status\":200,\"ts\":\"2026-03-25T10:00:00Z\"}"
    );
    let query = report::CallReport {
        endpoint: "graphql:prs:full/myorg/backend",
        status: 200,
        rate_remaining: Some(4950),
        gql_cost: report::gql_cost(&j("{\"rateLimit\":{\"cost\":1}}")),
        duration_ms: 150,
    };
    assert_eq!(
        report::call_line(&query, "2026-03-25T10:00:00Z"),
        "{\"api_type\":\"graphql\",\"duration_ms\":150,\"endpoint\":\"graphql:prs:full/myorg/backend\",\"gql_cost\":1,\"rate_remaining\":4950,\"status\":200,\"ts\":\"2026-03-25T10:00:00Z\"}"
    );
}
