//! The database of the cache: its tables, and the statements that record repositories,
//! polls, API calls and changes.

use vstd::prelude::*;

use crate::json::{to_text, Json, JsonView};
use crate::sql::{
    get_integer, get_opt_integer, get_opt_text, ColumnError, Row, SqlValue, SqlView, Statement,
    StatementView,
};
use crate::text::starts_with;
use crate::{json, sql, text};

verus! {

/// How a connection is set up before anything else is done with it.
pub const PRAGMAS: &'static str = "PRAGMA journal_mode = WAL;
         PRAGMA foreign_keys = ON;
         PRAGMA synchronous = NORMAL;
         PRAGMA cache_size = -8000;";

/// The tables, indexes and views of the cache.
pub const SCHEMA: &'static str = "
CREATE TABLE IF NOT EXISTS repo (
    id              INTEGER PRIMARY KEY AUTOINCREMENT,
    owner           TEXT NOT NULL,
    name            TEXT NOT NULL,
    default_branch  TEXT NOT NULL DEFAULT 'main',
    gh_node_id      TEXT,
    updated_at      TEXT,
    UNIQUE(owner, name)
);

CREATE TABLE IF NOT EXISTS branch (
    id              INTEGER PRIMARY KEY AUTOINCREMENT,
    repo_id         INTEGER NOT NULL REFERENCES repo(id),
    name            TEXT NOT NULL,
    sha             TEXT,
    behind_default  INTEGER,
    ahead_default   INTEGER,
    updated_at      TEXT,
    UNIQUE(repo_id, name)
);

CREATE TABLE IF NOT EXISTS pull_request (
    id              INTEGER PRIMARY KEY AUTOINCREMENT,
    repo_id         INTEGER NOT NULL REFERENCES repo(id),
    number          INTEGER NOT NULL,
    gh_node_id      TEXT,
    state           TEXT NOT NULL,
    title           TEXT NOT NULL,
    author          TEXT,
    head_ref        TEXT,
    head_sha        TEXT,
    base_ref        TEXT,
    mergeable       TEXT,
    draft           INTEGER NOT NULL DEFAULT 0,
    additions       INTEGER,
    deletions       INTEGER,
    changed_files   INTEGER,
    created_at      TEXT NOT NULL,
    updated_at      TEXT NOT NULL,
    merged_at       TEXT,
    closed_at       TEXT,
    body            TEXT,
    raw_json        TEXT,
    UNIQUE(repo_id, number)
);

CREATE TABLE IF NOT EXISTS pr_review (
    id              INTEGER PRIMARY KEY AUTOINCREMENT,
    pr_id           INTEGER NOT NULL REFERENCES pull_request(id),
    gh_id           INTEGER NOT NULL,
    author          TEXT,
    state           TEXT NOT NULL,
    body            TEXT,
    submitted_at    TEXT,
    UNIQUE(pr_id, gh_id)
);

CREATE TABLE IF NOT EXISTS pr_comment (
    id              INTEGER PRIMARY KEY AUTOINCREMENT,
    pr_id           INTEGER NOT NULL REFERENCES pull_request(id),
    gh_id           INTEGER NOT NULL,
    author          TEXT,
    body            TEXT NOT NULL,
    path            TEXT,
    line            INTEGER,
    in_reply_to_id  INTEGER,
    created_at      TEXT NOT NULL,
    updated_at      TEXT NOT NULL,
    UNIQUE(pr_id, gh_id)
);

CREATE TABLE IF NOT EXISTS pr_status_check (
    id              INTEGER PRIMARY KEY AUTOINCREMENT,
    pr_id           INTEGER NOT NULL REFERENCES pull_request(id),
    context         TEXT NOT NULL,
    state           TEXT NOT NULL,
    target_url      TEXT,
    description     TEXT,
    updated_at      TEXT,
    UNIQUE(pr_id, context)
);

CREATE TABLE IF NOT EXISTS pr_label (
    pr_id           INTEGER NOT NULL REFERENCES pull_request(id),
    label           TEXT NOT NULL,
    color           TEXT,
    PRIMARY KEY (pr_id, label)
);

CREATE TABLE IF NOT EXISTS repo_event (
    id              INTEGER PRIMARY KEY AUTOINCREMENT,
    repo_id         INTEGER NOT NULL REFERENCES repo(id),
    gh_id           TEXT NOT NULL,
    type            TEXT NOT NULL,
    actor           TEXT,
    payload_json    TEXT NOT NULL,
    created_at      TEXT NOT NULL,
    UNIQUE(repo_id, gh_id)
);

CREATE TABLE IF NOT EXISTS notification (
    id              INTEGER PRIMARY KEY AUTOINCREMENT,
    gh_id           TEXT NOT NULL UNIQUE,
    repo_id         INTEGER REFERENCES repo(id),
    subject_type    TEXT NOT NULL,
    subject_title   TEXT NOT NULL,
    subject_url     TEXT,
    subject_number  INTEGER,
    html_url        TEXT,
    reason          TEXT NOT NULL,
    unread          INTEGER NOT NULL DEFAULT 1,
    updated_at      TEXT NOT NULL,
    last_read_at    TEXT
);

CREATE TABLE IF NOT EXISTS call_log (
    id              INTEGER PRIMARY KEY AUTOINCREMENT,
    api_type        TEXT NOT NULL DEFAULT 'rest',
    endpoint        TEXT NOT NULL,
    method          TEXT NOT NULL DEFAULT 'GET',
    status_code     INTEGER,
    etag            TEXT,
    last_modified   TEXT,
    rate_remaining  INTEGER,
    rate_reset      INTEGER,
    gql_cost        INTEGER,
    cache_hit       INTEGER NOT NULL DEFAULT 0,
    duration_ms     INTEGER,
    called_at       TEXT NOT NULL DEFAULT (strftime('%Y-%m-%dT%H:%M:%SZ', 'now'))
);

CREATE TABLE IF NOT EXISTS change_log (
    id              INTEGER PRIMARY KEY AUTOINCREMENT,
    entity_type     TEXT NOT NULL,
    entity_id       INTEGER NOT NULL,
    event           TEXT NOT NULL,
    repo_slug       TEXT,
    payload_json    TEXT,
    occurred_at     TEXT NOT NULL DEFAULT (strftime('%Y-%m-%dT%H:%M:%SZ', 'now'))
);

CREATE TABLE IF NOT EXISTS poll_state (
    endpoint        TEXT PRIMARY KEY,
    etag            TEXT,
    last_modified   TEXT,
    poll_interval   INTEGER,
    last_polled_at  TEXT,
    last_changed_at TEXT
);

CREATE TABLE IF NOT EXISTS checkout (
    id              INTEGER PRIMARY KEY AUTOINCREMENT,
    repo_id         INTEGER NOT NULL REFERENCES repo(id),
    branch          TEXT NOT NULL,
    local_path      TEXT NOT NULL,
    sha             TEXT,
    checked_out_at  TEXT NOT NULL,
    UNIQUE(repo_id, branch)
);

CREATE INDEX IF NOT EXISTS idx_pr_repo_state   ON pull_request(repo_id, state);
CREATE INDEX IF NOT EXISTS idx_pr_updated      ON pull_request(updated_at);
CREATE INDEX IF NOT EXISTS idx_event_repo_type ON repo_event(repo_id, type);
CREATE INDEX IF NOT EXISTS idx_event_created   ON repo_event(created_at);
CREATE INDEX IF NOT EXISTS idx_notif_unread    ON notification(unread, updated_at);
CREATE INDEX IF NOT EXISTS idx_call_endpoint   ON call_log(endpoint, called_at);
CREATE INDEX IF NOT EXISTS idx_branch_repo     ON branch(repo_id);

CREATE VIEW IF NOT EXISTS v_open_prs AS
SELECT
    r.owner || '/' || r.name AS repo_slug,
    pr.number, pr.title, pr.author, pr.head_ref,
    pr.draft, pr.mergeable, pr.additions, pr.deletions,
    pr.created_at, pr.updated_at,
    (SELECT COUNT(*) FROM pr_review rv WHERE rv.pr_id = pr.id AND rv.state = 'APPROVED') AS approvals,
    (SELECT COUNT(*) FROM pr_review rv WHERE rv.pr_id = pr.id AND rv.state = 'CHANGES_REQUESTED') AS changes_requested,
    (SELECT COUNT(*) FROM pr_comment c WHERE c.pr_id = pr.id) AS comment_count
FROM pull_request pr
JOIN repo r ON r.id = pr.repo_id
WHERE pr.state = 'open';

CREATE VIEW IF NOT EXISTS v_unread_notifications AS
SELECT
    n.gh_id, n.subject_type, n.subject_title, n.reason,
    n.updated_at,
    r.owner || '/' || r.name AS repo_slug
FROM notification n
LEFT JOIN repo r ON r.id = n.repo_id
WHERE n.unread = 1
ORDER BY n.updated_at DESC;

CREATE VIEW IF NOT EXISTS v_recent_events AS
SELECT
    r.owner || '/' || r.name AS repo_slug,
    e.type, e.actor, e.created_at,
    json_extract(e.payload_json, '$.action') AS action,
    CASE e.type
        WHEN 'PullRequestEvent' THEN json_extract(e.payload_json, '$.pull_request.title')
        WHEN 'PushEvent'        THEN json_extract(e.payload_json, '$.ref')
        WHEN 'IssuesEvent'      THEN json_extract(e.payload_json, '$.issue.title')
        ELSE NULL
    END AS subject
FROM repo_event e
JOIN repo r ON r.id = e.repo_id
ORDER BY e.created_at DESC
LIMIT 100;

CREATE VIEW IF NOT EXISTS v_rate_limit AS
SELECT
    endpoint,
    status_code,
    cache_hit,
    rate_remaining,
    datetime(rate_reset, 'unixepoch') AS rate_resets_at,
    duration_ms,
    called_at
FROM call_log
ORDER BY called_at DESC
LIMIT 50;
";

// ---- repositories ------------------------------------------------------------------
/// Records a repository, or the default branch of one that is recorded already.
pub const UPSERT_REPO: &'static str = "INSERT INTO repo (owner, name, default_branch)
         VALUES (?1, ?2, ?3)
         ON CONFLICT(owner, name) DO UPDATE SET
             default_branch = excluded.default_branch";

/// Finds the id of a repository.
pub const SELECT_REPO_ID: &'static str = "SELECT id FROM repo WHERE owner = ?1 AND name = ?2";

/// The statement that records a repository.
pub open spec fn repo_record(
    owner: Seq<char>,
    name: Seq<char>,
    default_branch: Seq<char>,
) -> StatementView {
    StatementView {
        sql: UPSERT_REPO@,
        params: seq![SqlView::Text(owner), SqlView::Text(name), SqlView::Text(default_branch)],
    }
}

/// The two statements that record a repository: the first writes it, the second gives
/// its id.
pub fn upsert_repo(owner: &str, name: &str, default_branch: &str) -> (r: (Statement, Statement))
    ensures
        r.0.deep_view() == repo_record(owner@, name@, default_branch@),
        r.1.deep_view() == repo_id_query(owner@, name@),
{
    let params: Vec<SqlValue> = vec![
        SqlValue::text(owner),
        SqlValue::text(name),
        SqlValue::text(default_branch),
    ];
    assert(params.deep_view() =~= seq![
        SqlView::Text(owner@),
        SqlView::Text(name@),
        SqlView::Text(default_branch@),
    ]);
    (Statement { sql: UPSERT_REPO.to_owned(), params }, get_repo_id(owner, name))
}

/// The query for the id of a repository.
pub open spec fn repo_id_query(owner: Seq<char>, name: Seq<char>) -> StatementView {
    StatementView {
        sql: SELECT_REPO_ID@,
        params: seq![SqlView::Text(owner), SqlView::Text(name)],
    }
}

/// The query for the id of a repository.
pub fn get_repo_id(owner: &str, name: &str) -> (r: Statement)
    ensures
        r.deep_view() == repo_id_query(owner@, name@),
{
    let params: Vec<SqlValue> = vec![SqlValue::text(owner), SqlValue::text(name)];
    assert(params.deep_view() =~= seq![SqlView::Text(owner@), SqlView::Text(name@)]);
    Statement { sql: SELECT_REPO_ID.to_owned(), params }
}

/// The id in the first row of an answer; none where the answer has no row, or no id in it.
pub open spec fn id_in(rows: Seq<Seq<SqlView>>) -> Option<i64> {
    if rows.len() == 0 {
        None
    } else {
        sql::integer_in(rows[0], 0)
    }
}

/// The id in the first row of an answer, if the answer has a row.
pub fn first_id(rows: &Vec<Row>) -> (r: Result<Option<i64>, ColumnError>)
    ensures
        match r {
            Ok(None) => rows@.len() == 0,
            Ok(Some(id)) => rows@.len() > 0 && sql::integer_in(rows.deep_view()[0], 0) == Some(id),
            Err(e) => rows@.len() > 0 && sql::integer_in(rows.deep_view()[0], 0) is None && e.column
                == 0,
        },
{
    if rows.len() == 0 {
        return Ok(None);
    }
    match get_integer(&rows[0], 0) {
        Ok(id) => Ok(Some(id)),
        Err(e) => Err(e),
    }
}

/// A row of the table of repositories, but for the owner and the name.
pub struct RepoRow {
    pub id: i64,
    pub default_branch: SqlView,
}

/// The table of repositories, by owner and name, after a statement that records one: a row that
/// is there keeps its id, and a new one has the id that the database gives it.
pub open spec fn repos_after(
    table: Map<(SqlView, SqlView), RepoRow>,
    s: StatementView,
    new_id: i64,
) -> Map<(SqlView, SqlView), RepoRow> {
    let p = s.params;
    if s.sql != UPSERT_REPO@ || p.len() != 3 {
        table
    } else {
        let key = (p[0], p[1]);
        let id = if table.dom().contains(key) {
            table[key].id
        } else {
            new_id
        };
        table.insert(key, RepoRow { id, default_branch: p[2] })
    }
}

/// The rows of the table of repositories that the query for an id gives.
pub open spec fn repos_found(
    table: Map<(SqlView, SqlView), RepoRow>,
    s: StatementView,
) -> Seq<Seq<SqlView>> {
    if s.sql == SELECT_REPO_ID@ && s.params.len() == 2 && table.dom().contains(
        (s.params[0], s.params[1]),
    ) {
        seq![seq![SqlView::Integer(table[(s.params[0], s.params[1])].id)]]
    } else {
        Seq::empty()
    }
}

/// A repository has one row, under its owner and its name, however often it is recorded. Its
/// default branch is the one that was recorded last. Its id is the one that it had, else a new
/// one, and is what the query for its id gives. Of other repositories nothing changes.
pub proof fn repo_is_recorded_once(
    table: Map<(SqlView, SqlView), RepoRow>,
    owner: Seq<char>,
    name: Seq<char>,
    first: Seq<char>,
    later: Seq<char>,
    new_id: i64,
    unused: i64,
    other: (Seq<char>, Seq<char>),
)
    ensures
        ({
            let key = (SqlView::Text(owner), SqlView::Text(name));
            let once = repos_after(table, repo_record(owner, name, first), new_id);
            let twice = repos_after(once, repo_record(owner, name, later), unused);
            let id = if table.dom().contains(key) {
                table[key].id
            } else {
                new_id
            };
            &&& once == table.insert(key, RepoRow { id, default_branch: SqlView::Text(first) })
            &&& twice == table.insert(key, RepoRow { id, default_branch: SqlView::Text(later) })
            &&& id_in(repos_found(once, repo_id_query(owner, name))) == Some(id)
            &&& id_in(repos_found(twice, repo_id_query(owner, name))) == Some(id)
            &&& other != (owner, name) ==> repos_found(twice, repo_id_query(other.0, other.1))
                == repos_found(table, repo_id_query(other.0, other.1))
        }),
{
    let key = (SqlView::Text(owner), SqlView::Text(name));
    let once = repos_after(table, repo_record(owner, name, first), new_id);
    let twice = repos_after(once, repo_record(owner, name, later), unused);
    assert(repo_id_query(owner, name).params[0] == key.0);
    assert(repo_id_query(owner, name).params[1] == key.1);
    assert(repo_id_query(other.0, other.1).params[0] == SqlView::Text(other.0));
    assert(repo_id_query(other.0, other.1).params[1] == SqlView::Text(other.1));
    assert(once.dom().contains(key) && once[key].default_branch == SqlView::Text(first));
    assert(twice =~= table.insert(
        key,
        RepoRow { id: once[key].id, default_branch: SqlView::Text(later) },
    ));
    if other != (owner, name) {
        assert((SqlView::Text(other.0), SqlView::Text(other.1)) != key);
    }
}

// ---- poll state --------------------------------------------------------------------
/// What is known of the last poll of an endpoint.
pub struct PollState {
    pub etag: Option<String>,
    pub last_modified: Option<String>,
    pub poll_interval: Option<i64>,
    pub last_polled_at: Option<String>,
}

/// What a poll state is.
#[verifier::ext_equal]
pub struct PollStateView {
    pub etag: Option<Seq<char>>,
    pub last_modified: Option<Seq<char>>,
    pub poll_interval: Option<i64>,
    pub last_polled_at: Option<Seq<char>>,
}

impl DeepView for PollState {
    type V = PollStateView;

    open spec fn deep_view(&self) -> PollStateView {
        PollStateView {
            etag: self.etag.deep_view(),
            last_modified: self.last_modified.deep_view(),
            poll_interval: self.poll_interval,
            last_polled_at: self.last_polled_at.deep_view(),
        }
    }
}

/// Finds the poll state of an endpoint.
pub const SELECT_POLL_STATE: &'static str =
    "SELECT etag, last_modified, poll_interval, last_polled_at FROM poll_state WHERE endpoint = ?1";

/// Records a poll of an endpoint. An interval that the answer did not name is kept, and
/// so is the time of the last change where nothing changed.
pub const UPSERT_POLL_STATE: &'static str = "INSERT INTO poll_state (endpoint, etag, last_modified, poll_interval, last_polled_at, last_changed_at)
         VALUES (?1, ?2, ?3, ?4, ?5, ?6)
         ON CONFLICT(endpoint) DO UPDATE SET
             etag            = excluded.etag,
             last_modified   = excluded.last_modified,
             poll_interval   = COALESCE(excluded.poll_interval, poll_state.poll_interval),
             last_polled_at  = excluded.last_polled_at,
             last_changed_at = CASE WHEN ?6 IS NOT NULL THEN excluded.last_changed_at ELSE poll_state.last_changed_at END";

/// The query for the poll state of an endpoint.
pub open spec fn poll_query(endpoint: Seq<char>) -> StatementView {
    StatementView { sql: SELECT_POLL_STATE@, params: seq![SqlView::Text(endpoint)] }
}

/// The query for the poll state of an endpoint.
pub fn get_poll_state(endpoint: &str) -> (r: Statement)
    ensures
        r.deep_view() == poll_query(endpoint@),
{
    let params: Vec<SqlValue> = vec![SqlValue::text(endpoint)];
    assert(params.deep_view() =~= seq![SqlView::Text(endpoint@)]);
    Statement { sql: SELECT_POLL_STATE.to_owned(), params }
}

/// The poll state in a row.
pub open spec fn poll_state_in(row: Seq<SqlView>) -> Option<PollStateView> {
    match (
        sql::opt_text_in(row, 0),
        sql::opt_text_in(row, 1),
        sql::opt_integer_in(row, 2),
        sql::opt_text_in(row, 3),
    ) {
        (Some(etag), Some(last_modified), Some(poll_interval), Some(last_polled_at)) => Some(
            PollStateView { etag, last_modified, poll_interval, last_polled_at },
        ),
        _ => None,
    }
}

/// The poll state of an endpoint that was never polled.
pub open spec fn never_polled() -> PollStateView {
    PollStateView { etag: None, last_modified: None, poll_interval: None, last_polled_at: None }
}

/// The poll state in the answer to the query for it. An answer without rows is that of an
/// endpoint that was never polled.
pub open spec fn polled_state(rows: Seq<Seq<SqlView>>) -> Option<PollStateView> {
    if rows.len() == 0 {
        Some(never_polled())
    } else {
        poll_state_in(rows[0])
    }
}

/// Reads the poll state of an endpoint from the answer to its query. An answer without
/// rows is that of an endpoint that was never polled.
pub fn poll_state_from(rows: &Vec<Row>) -> (r: Result<PollState, ColumnError>)
    ensures
        match r {
            Ok(p) => polled_state(rows.deep_view()) == Some(p.deep_view()),
            Err(_) => polled_state(rows.deep_view()) is None,
        },
{
    if rows.len() == 0 {
        return Ok(
            PollState {
                etag: None,
                last_modified: None,
                poll_interval: None,
                last_polled_at: None,
            },
        );
    }
    let row: &Row = &rows[0];
    let etag: Option<String> = get_opt_text(row, 0)?;
    let last_modified: Option<String> = get_opt_text(row, 1)?;
    let poll_interval: Option<i64> = get_opt_integer(row, 2)?;
    let last_polled_at: Option<String> = get_opt_text(row, 3)?;
    Ok(PollState { etag, last_modified, poll_interval, last_polled_at })
}

/// The statement that records a poll.
pub open spec fn poll_record(
    endpoint: Seq<char>,
    etag: Option<Seq<char>>,
    last_modified: Option<Seq<char>>,
    poll_interval: Option<i64>,
    changed: bool,
    now: Seq<char>,
) -> StatementView {
    StatementView {
        sql: UPSERT_POLL_STATE@,
        params: seq![
            SqlView::Text(endpoint),
            sql::text_or_null(etag),
            sql::text_or_null(last_modified),
            sql::integer_or_null(poll_interval),
            SqlView::Text(now),
            if changed {
                SqlView::Text(now)
            } else {
                SqlView::Null
            },
        ],
    }
}

/// The statement that records a poll of `endpoint` at the time `now`, with what the
/// answer said of itself and whether it brought anything new.
pub fn set_poll_state(
    endpoint: &str,
    etag: Option<&str>,
    last_modified: Option<&str>,
    poll_interval: Option<i64>,
    changed: bool,
    now: &str,
) -> (r: Statement)
    ensures
        r.deep_view() == poll_record(
            endpoint@,
            etag.deep_view(),
            last_modified.deep_view(),
            poll_interval,
            changed,
            now@,
        ),
{
    let params: Vec<SqlValue> = vec![
        SqlValue::text(endpoint),
        SqlValue::opt_text(etag),
        SqlValue::opt_text(last_modified),
        SqlValue::opt_integer(poll_interval),
        SqlValue::text(now),
        if changed {
            SqlValue::text(now)
        } else {
            SqlValue::Null
        },
    ];
    let r: Statement = Statement { sql: UPSERT_POLL_STATE.to_owned(), params };
    assert(r.deep_view() =~= poll_record(
        endpoint@,
        etag.deep_view(),
        last_modified.deep_view(),
        poll_interval,
        changed,
        now@,
    ));
    r
}

/// A row of the table of polls, but for the endpoint.
pub struct RecordedPoll {
    pub etag: SqlView,
    pub last_modified: SqlView,
    pub poll_interval: SqlView,
    pub last_polled_at: SqlView,
    pub last_changed_at: SqlView,
}

/// The table of polls, by endpoint, after a statement that records a poll: a row that is there
/// keeps its interval and the time of its last change where none are given.
pub open spec fn polls_after(table: Map<SqlView, RecordedPoll>, s: StatementView) -> Map<
    SqlView,
    RecordedPoll,
> {
    let p = s.params;
    if s.sql != UPSERT_POLL_STATE@ || p.len() != 6 {
        table
    } else {
        let given = RecordedPoll {
            etag: p[1],
            last_modified: p[2],
            poll_interval: p[3],
            last_polled_at: p[4],
            last_changed_at: p[5],
        };
        let old = if table.dom().contains(p[0]) {
            table[p[0]]
        } else {
            given
        };
        table.insert(
            p[0],
            RecordedPoll {
                poll_interval: if p[3] is Null {
                    old.poll_interval
                } else {
                    p[3]
                },
                last_changed_at: if p[5] is Null {
                    old.last_changed_at
                } else {
                    p[5]
                },
                ..given
            },
        )
    }
}

/// The rows of the table of polls that the query for a poll state gives.
pub open spec fn polls_found(table: Map<SqlView, RecordedPoll>, s: StatementView) -> Seq<Seq<SqlView>> {
    if s.sql == SELECT_POLL_STATE@ && s.params.len() == 1 && table.dom().contains(s.params[0]) {
        let row = table[s.params[0]];
        seq![seq![row.etag, row.last_modified, row.poll_interval, row.last_polled_at]]
    } else {
        Seq::empty()
    }
}

/// What is recorded of a poll is what is read of it. The tags are those that were given, also
/// where none were; the interval is the one that was given, else the one before. The time of
/// the last change moves where something changed and only there. Of other endpoints nothing
/// changes.
pub proof fn poll_state_reads_back(
    table: Map<SqlView, RecordedPoll>,
    old: PollStateView,
    endpoint: Seq<char>,
    etag: Option<Seq<char>>,
    last_modified: Option<Seq<char>>,
    poll_interval: Option<i64>,
    changed: bool,
    now: Seq<char>,
    other: Seq<char>,
)
    requires
        polled_state(polls_found(table, poll_query(endpoint))) == Some(old),
    ensures
        ({
            let record = poll_record(endpoint, etag, last_modified, poll_interval, changed, now);
            let after = polls_after(table, record);
            let key = SqlView::Text(endpoint);
            &&& polled_state(polls_found(after, poll_query(endpoint))) == Some(
                PollStateView {
                    etag,
                    last_modified,
                    poll_interval: if poll_interval is Some {
                        poll_interval
                    } else {
                        old.poll_interval
                    },
                    last_polled_at: Some(now),
                },
            )
            &&& after[key].last_changed_at == (if changed {
                SqlView::Text(now)
            } else if table.dom().contains(key) {
                table[key].last_changed_at
            } else {
                SqlView::Null
            })
            &&& other != endpoint ==> polls_found(after, poll_query(other)) == polls_found(
                table,
                poll_query(other),
            )
        }),
{
    let record = poll_record(endpoint, etag, last_modified, poll_interval, changed, now);
    let after = polls_after(table, record);
    assert(after.dom().contains(SqlView::Text(endpoint)));
    assert(poll_query(endpoint).params[0] == SqlView::Text(endpoint));
    assert(poll_query(other).params[0] == SqlView::Text(other));
}

// ---- API calls ---------------------------------------------------------------------
/// One API call, as it is logged.
pub struct CallLogEntry<'a> {
    pub endpoint: &'a str,
    pub method: &'a str,
    pub status_code: Option<u16>,
    pub etag: Option<&'a str>,
    pub last_modified: Option<&'a str>,
    pub rate_remaining: Option<i64>,
    pub rate_reset: Option<i64>,
    pub cache_hit: bool,
    pub duration_ms: Option<i64>,
}

/// What a logged call is.
#[verifier::ext_equal]
pub struct CallLogView {
    pub endpoint: Seq<char>,
    pub method: Seq<char>,
    pub status_code: Option<u16>,
    pub etag: Option<Seq<char>>,
    pub last_modified: Option<Seq<char>>,
    pub rate_remaining: Option<i64>,
    pub rate_reset: Option<i64>,
    pub cache_hit: bool,
    pub duration_ms: Option<i64>,
}

impl<'a> DeepView for CallLogEntry<'a> {
    type V = CallLogView;

    open spec fn deep_view(&self) -> CallLogView {
        CallLogView {
            endpoint: self.endpoint@,
            method: self.method@,
            status_code: self.status_code,
            etag: self.etag.deep_view(),
            last_modified: self.last_modified.deep_view(),
            rate_remaining: self.rate_remaining,
            rate_reset: self.rate_reset,
            cache_hit: self.cache_hit,
            duration_ms: self.duration_ms,
        }
    }
}

/// Logs an API call.
pub const INSERT_CALL: &'static str = "INSERT INTO call_log
         (endpoint, method, status_code, etag, last_modified, rate_remaining, rate_reset, cache_hit, duration_ms, api_type, gql_cost)
         VALUES (?1, ?2, ?3, ?4, ?5, ?6, ?7, ?8, ?9, ?10, ?11)";

/// The pool of rate-limit points that a call to an endpoint draws on.
pub open spec fn api_type(endpoint: Seq<char>) -> Seq<char> {
    if text::begins_with(endpoint, "graphql"@) {
        "graphql"@
    } else {
        "rest"@
    }
}

/// The statement that logs a call that cost no points for queries.
pub open spec fn call_record(e: CallLogView) -> StatementView {
    costed_record(e, None)
}

/// The statement that logs a call, with the points that it cost.
pub open spec fn costed_record(e: CallLogView, gql_cost: Option<i64>) -> StatementView {
    StatementView {
        sql: INSERT_CALL@,
        params: seq![
            SqlView::Text(e.endpoint),
            SqlView::Text(e.method),
            match e.status_code {
                Some(c) => SqlView::Integer(c as i64),
                None => SqlView::Null,
            },
            sql::text_or_null(e.etag),
            sql::text_or_null(e.last_modified),
            sql::integer_or_null(e.rate_remaining),
            sql::integer_or_null(e.rate_reset),
            sql::flag(e.cache_hit),
            sql::integer_or_null(e.duration_ms),
            SqlView::Text(api_type(e.endpoint)),
            sql::integer_or_null(gql_cost),
        ],
    }
}

/// The statement that logs a call that cost no points for queries.
pub fn log_call(entry: &CallLogEntry) -> (r: Statement)
    ensures
        r.deep_view() == call_record(entry.deep_view()),
{
    log_costed_call(entry, None)
}

/// The statement that logs a call, with the points that GitHub says it cost.
pub fn log_costed_call(entry: &CallLogEntry, gql_cost: Option<i64>) -> (r: Statement)
    ensures
        r.deep_view() == costed_record(entry.deep_view(), gql_cost),
{
    let params: Vec<SqlValue> = vec![
        SqlValue::text(entry.endpoint),
        SqlValue::text(entry.method),
        match entry.status_code {
            Some(c) => SqlValue::Integer(c as i64),
            None => SqlValue::Null,
        },
        SqlValue::opt_text(entry.etag),
        SqlValue::opt_text(entry.last_modified),
        SqlValue::opt_integer(entry.rate_remaining),
        SqlValue::opt_integer(entry.rate_reset),
        SqlValue::flag(entry.cache_hit),
        SqlValue::opt_integer(entry.duration_ms),
        SqlValue::text(
            if starts_with(entry.endpoint, "graphql") {
                "graphql"
            } else {
                "rest"
            },
        ),
        SqlValue::opt_integer(gql_cost),
    ];
    let r: Statement = Statement { sql: INSERT_CALL.to_owned(), params };
    assert(r.deep_view() =~= costed_record(entry.deep_view(), gql_cost));
    r
}

// ---- changes -----------------------------------------------------------------------
/// What happened to a row of the cache.
#[derive(Clone, Copy, PartialEq, Eq, Structural, Debug)]
pub enum ChangeEvent {
    Inserted,
    Updated,
}

impl ChangeEvent {
    /// The name under which an event is logged.
    pub open spec fn name(self) -> Seq<char> {
        match self {
            ChangeEvent::Inserted => "inserted"@,
            ChangeEvent::Updated => "updated"@,
        }
    }

    /// The event of a row that is new or not.
    pub open spec fn of(is_new: bool) -> ChangeEvent {
        if is_new {
            ChangeEvent::Inserted
        } else {
            ChangeEvent::Updated
        }
    }

    /// The name under which an event is logged.
    pub fn as_str(&self) -> (r: &'static str)
        ensures
            r@ == self.name(),
    {
        match self {
            ChangeEvent::Inserted => "inserted",
            ChangeEvent::Updated => "updated",
        }
    }

    /// The event of a row that is new or not.
    pub fn for_row(is_new: bool) -> (r: ChangeEvent)
        ensures
            r == ChangeEvent::of(is_new),
    {
        if is_new {
            ChangeEvent::Inserted
        } else {
            ChangeEvent::Updated
        }
    }
}

/// Logs a change of a row of the cache.
pub const INSERT_CHANGE: &'static str = "INSERT INTO change_log (entity_type, entity_id, event, repo_slug, payload_json)
         VALUES (?1, ?2, ?3, ?4, ?5)";

/// The statement that logs a change.
pub open spec fn change_record(
    entity_type: Seq<char>,
    entity_id: i64,
    event: ChangeEvent,
    repo_slug: Option<Seq<char>>,
    payload: Option<JsonView>,
) -> StatementView {
    StatementView {
        sql: INSERT_CHANGE@,
        params: seq![
            SqlView::Text(entity_type),
            SqlView::Integer(entity_id),
            SqlView::Text(event.name()),
            sql::text_or_null(repo_slug),
            match payload {
                Some(j) => SqlView::Text(json::compact_text(j)),
                None => SqlView::Null,
            },
        ],
    }
}

/// The statement that logs a change of the row `entity_id` of a table.
pub fn log_change(
    entity_type: &str,
    entity_id: i64,
    event: ChangeEvent,
    repo_slug: Option<&str>,
    payload: Option<&Json>,
) -> (r: Statement)
    ensures
        r.deep_view() == change_record(
            entity_type@,
            entity_id,
            event,
            repo_slug.deep_view(),
            payload.deep_view(),
        ),
{
    let params: Vec<SqlValue> = vec![
        SqlValue::text(entity_type),
        SqlValue::Integer(entity_id),
        SqlValue::text(event.as_str()),
        SqlValue::opt_text(repo_slug),
        match payload {
            Some(j) => SqlValue::Text(to_text(j)),
            None => SqlValue::Null,
        },
    ];
    let r: Statement = Statement { sql: INSERT_CHANGE.to_owned(), params };
    assert(r.deep_view() =~= change_record(
        entity_type@,
        entity_id,
        event,
        repo_slug.deep_view(),
        payload.deep_view(),
    ));
    r
}

} // verus!
