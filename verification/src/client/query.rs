//! Queries of the cache.

use vstd::prelude::*;

use crate::client::tail::{poll, SELECT_LATEST};
use crate::client::types::PrFilter;
use crate::number::u64_text;
use crate::sql::{
    plain_statement, quote, FromRow, Row, RowError, SqlValue, SqlView, Statement, StatementView,
};
use crate::text::{cat, cat3, cut, join};
use crate::client::tail;
use crate::{number, sql, text};

verus! {

// ---- names -------------------------------------------------------------------------
/// The name of a repository that does not name its owner.
#[derive(Clone, Copy, PartialEq, Eq, Structural, Debug)]
pub struct MissingName;

/// The owner and the name in the full name of a repository: what stands before the first
/// slash and what stands after it.
pub fn split_slug<'a>(slug: &'a str) -> (r: Result<(&'a str, &'a str), MissingName>)
    ensures
        match r {
            Ok((owner, name)) => text::cut_at(slug@, '/') == Some((owner@, name@)),
            Err(_) => text::cut_at(slug@, '/') is None,
        },
{
    match cut(slug, '/') {
        Some(parts) => Ok(parts),
        None => Err(MissingName),
    }
}

// ---- conditions --------------------------------------------------------------------
/// That a pull request has no approving review.
pub const NOT_APPROVED: &'static str =
    "(SELECT COUNT(*) FROM pr_review rv WHERE rv.pr_id = pr.id AND rv.state = 'APPROVED') = 0";

/// That a column holds a text.
pub open spec fn column_is(column: Seq<char>, value: Seq<char>) -> Seq<char> {
    column + " = "@ + sql::literal(value)
}

/// That the repository is the one of that owner and name.
pub open spec fn repo_is(owner: Seq<char>, name: Seq<char>) -> Seq<char> {
    column_is("r.owner"@, owner) + " AND "@ + column_is("r.name"@, name)
}

/// That a column holds a text.
pub fn equals(column: &str, value: &str) -> (r: String)
    ensures
        r@ == column_is(column@, value@),
{
    let v: String = quote(value);
    cat3(column, " = ", v.as_str())
}

/// That the repository is the one of that owner and name.
pub fn in_repo(owner: &str, name: &str) -> (r: String)
    ensures
        r@ == repo_is(owner@, name@),
{
    let a: String = equals("r.owner", owner);
    let b: String = equals("r.name", name);
    cat3(a.as_str(), " AND ", b.as_str())
}

/// A list of conditions with one more, if there is one.
pub open spec fn and_also(conditions: Seq<Seq<char>>, more: Option<Seq<char>>) -> Seq<Seq<char>> {
    match more {
        Some(c) => conditions.push(c),
        None => conditions,
    }
}

/// Adds a condition to a list.
pub fn push_condition(conditions: &mut Vec<String>, more: String)
    ensures
        final(conditions).deep_view() == old(conditions).deep_view().push(more@),
{
    conditions.push(more);
    assert(conditions.deep_view() =~= old(conditions).deep_view().push(more@));
}

// ---- texts -------------------------------------------------------------------------
/// The columns of pull requests, and where they come from.
pub const SELECT_PRS: &'static str =
    "SELECT pr.id, r.owner || '/' || r.name, pr.number, pr.title, pr.author,
                    pr.head_ref, pr.base_ref, pr.state, pr.draft, pr.mergeable,
                    pr.additions, pr.deletions, pr.changed_files,
                    pr.created_at, pr.updated_at, pr.merged_at, pr.body
             FROM pull_request pr
             JOIN repo r ON r.id = pr.repo_id
             WHERE ";

/// The order of pull requests.
pub const ORDER_PRS: &'static str = "
             ORDER BY pr.updated_at DESC";

/// The condition that picks one pull request.
pub const ONE_PR: &'static str = "r.owner = ?1 AND r.name = ?2 AND pr.number = ?3";

/// Gives the reviews of a pull request.
pub const SELECT_REVIEWS: &'static str =
    "SELECT id, pr_id, author, state, body, submitted_at
             FROM pr_review WHERE pr_id = ?1 ORDER BY submitted_at";

/// Gives the comments on a pull request.
pub const SELECT_COMMENTS: &'static str =
    "SELECT id, pr_id, author, body, path, line, created_at
             FROM pr_comment WHERE pr_id = ?1 ORDER BY created_at";

/// The columns of notifications, and where they come from.
pub const SELECT_NOTIFICATIONS: &'static str =
    "SELECT n.id, n.gh_id, r.owner || '/' || r.name, n.subject_type,
                    n.subject_title, n.subject_url, n.reason, n.unread, n.updated_at
             FROM notification n
             LEFT JOIN repo r ON r.id = n.repo_id
             ";

/// The condition that picks the notifications that are not read.
pub const UNREAD: &'static str = "WHERE n.unread = 1";

/// The order of notifications.
pub const ORDER_NOTIFICATIONS: &'static str = "
             ORDER BY n.updated_at DESC";

/// The columns of branches, and where they come from.
pub const SELECT_BRANCHES: &'static str =
    "SELECT b.id, r.owner || '/' || r.name, b.name, b.sha,
                    b.behind_default, b.ahead_default, b.updated_at
             FROM branch b JOIN repo r ON r.id = b.repo_id
             ";

/// The order of branches.
pub const ORDER_BRANCHES: &'static str = "
             ORDER BY r.owner, r.name, b.name";

/// The columns of events, and where they come from.
pub const SELECT_EVENTS: &'static str =
    "SELECT e.id, r.owner || '/' || r.name, e.gh_id, e.type, e.actor,
                    e.payload_json, e.created_at
             FROM repo_event e JOIN repo r ON r.id = e.repo_id
             WHERE ";

/// The order of events, and how many there are at most.
pub const ORDER_EVENTS: &'static str = "
             ORDER BY e.created_at DESC LIMIT ";

/// Gives what is left of each rate limit, as it was last reported.
pub const SELECT_RATE_LIMIT: &'static str = "SELECT api_type,
                    rate_remaining,
                    datetime(rate_reset, 'unixepoch') AS reset_at,
                    gql_cost
             FROM call_log
             WHERE id IN (
                 SELECT MAX(id) FROM call_log WHERE rate_remaining IS NOT NULL GROUP BY api_type
             )";

// ---- the queries -------------------------------------------------------------------
/// What a filter asks for.
pub struct PrFilterView {
    pub repo: Option<Seq<char>>,
    pub state: Option<Seq<char>>,
    pub needs_review: bool,
    pub author: Option<Seq<char>>,
}

impl<'a> DeepView for PrFilter<'a> {
    type V = PrFilterView;

    open spec fn deep_view(&self) -> PrFilterView {
        PrFilterView {
            repo: self.repo.deep_view(),
            state: self.state.deep_view(),
            needs_review: self.needs_review,
            author: self.author.deep_view(),
        }
    }
}

/// The condition on the repository that a full name asks for. A name that does not name the
/// owner asks for none.
pub open spec fn repo_condition(slug: Option<Seq<char>>) -> Result<Option<Seq<char>>, MissingName> {
    match slug {
        None => Ok(None),
        Some(s) => match text::cut_at(s, '/') {
            Some((owner, name)) => Ok(Some(repo_is(owner, name))),
            None => Err(MissingName),
        },
    }
}

/// The conditions that a filter asks for, beside those on the repository.
pub open spec fn filter_conditions(
    filter: PrFilterView,
    repo: Option<Seq<char>>,
) -> Seq<Seq<char>> {
    let state = match filter.state {
        Some(s) => s,
        None => "open"@,
    };
    let author = match filter.author {
        Some(a) => Some(column_is("pr.author"@, a)),
        None => None,
    };
    let review = if filter.needs_review {
        Some(NOT_APPROVED@)
    } else {
        None
    };
    and_also(and_also(and_also(seq![column_is("pr.state"@, state)], repo), author), review)
}

/// The query for the pull requests that a filter asks for.
pub open spec fn prs_query(filter: PrFilterView) -> Result<StatementView, MissingName> {
    match repo_condition(filter.repo) {
        Err(e) => Err(e),
        Ok(repo) => Ok(
            StatementView {
                sql: SELECT_PRS@ + text::joined(filter_conditions(filter, repo), " AND "@)
                    + ORDER_PRS@,
                params: Seq::empty(),
            },
        ),
    }
}

/// The query for one pull request.
pub open spec fn pr_query(repo: Seq<char>, number: i64) -> Result<StatementView, MissingName> {
    match text::cut_at(repo, '/') {
        Some((owner, name)) => Ok(
            StatementView {
                sql: SELECT_PRS@ + ONE_PR@,
                params: seq![
                    SqlView::Text(owner),
                    SqlView::Text(name),
                    SqlView::Integer(number),
                ],
            },
        ),
        None => Err(MissingName),
    }
}

/// The query for the notifications, or for those that are not read.
pub open spec fn notifications_query(unread_only: bool) -> StatementView {
    StatementView {
        sql: SELECT_NOTIFICATIONS@ + (if unread_only {
            UNREAD@
        } else {
            ""@
        }) + ORDER_NOTIFICATIONS@,
        params: Seq::empty(),
    }
}

/// The query for the branches of a repository, or of all.
pub open spec fn branches_query(repo: Option<Seq<char>>) -> Result<StatementView, MissingName> {
    match repo_condition(repo) {
        Err(e) => Err(e),
        Ok(condition) => Ok(
            StatementView {
                sql: SELECT_BRANCHES@ + (match condition {
                    Some(c) => "WHERE "@ + c,
                    None => ""@,
                }) + ORDER_BRANCHES@,
                params: Seq::empty(),
            },
        ),
    }
}

/// The query for the latest events of a repository, or of all, of one type, or of all.
pub open spec fn events_query(
    repo: Option<Seq<char>>,
    event_type: Option<Seq<char>>,
    limit: usize,
) -> Result<StatementView, MissingName> {
    match repo_condition(repo) {
        Err(e) => Err(e),
        Ok(condition) => {
            let of_type = match event_type {
                Some(t) => Some(column_is("e.type"@, t)),
                None => None,
            };
            Ok(
                StatementView {
                    sql: SELECT_EVENTS@ + text::joined(
                        and_also(and_also(seq!["1=1"@], condition), of_type),
                        " AND "@,
                    ) + ORDER_EVENTS@ + number::int_text(limit as int),
                    params: Seq::empty(),
                },
            )
        },
    }
}

/// The query with an id as its only parameter.
pub open spec fn by_id(sql: Seq<char>, id: i64) -> StatementView {
    StatementView { sql, params: seq![SqlView::Integer(id)] }
}

/// The query with an id as its only parameter.
pub fn with_id(sql: &str, id: i64) -> (r: Statement)
    ensures
        r.deep_view() == by_id(sql@, id),
{
    let params: Vec<SqlValue> = vec![SqlValue::Integer(id)];
    assert(params.deep_view() =~= seq![SqlView::Integer(id)]);
    Statement { sql: sql.to_owned(), params }
}

fn condition_on(slug: Option<&str>) -> (r: Result<Option<String>, MissingName>)
    ensures
        match r {
            Ok(c) => repo_condition(slug.deep_view()) == Ok::<_, MissingName>(c.deep_view()),
            Err(e) => repo_condition(slug.deep_view()) == Err::<Option<Seq<char>>, _>(e),
        },
{
    match slug {
        None => Ok(None),
        Some(s) => match split_slug(s) {
            Ok((owner, name)) => Ok(Some(in_repo(owner, name))),
            Err(e) => Err(e),
        },
    }
}

/// Reads what the first row holds, if there is a row.
pub fn first_of<T: FromRow>(rows: &Vec<Row>) -> (r: Result<Option<T>, RowError>)
    ensures
        match r {
            Ok(None) => rows@.len() == 0,
            Ok(Some(v)) => rows@.len() > 0 && T::in_row(rows.deep_view()[0]) == Some(v.deep_view()),
            Err(e) => rows@.len() > 0 && T::in_row(rows.deep_view()[0]) is None && e.row == 0,
        },
{
    if rows.len() == 0 {
        return Ok(None);
    }
    match T::from_row(&rows[0]) {
        Some(v) => Ok(Some(v)),
        None => Err(RowError { row: 0 }),
    }
}

/// A reader of the cache: what it asks the database.
pub struct Client;

impl Client {
    /// The query for the pull requests that a filter asks for.
    pub fn prs(&self, filter: &PrFilter) -> (r: Result<Statement, MissingName>)
        ensures
            match r {
                Ok(s) => prs_query(filter.deep_view()) == Ok::<_, MissingName>(s.deep_view()),
                Err(e) => prs_query(filter.deep_view()) == Err::<StatementView, _>(e),
            },
    {
        let state: &str = match filter.state {
            Some(s) => s,
            None => "open",
        };
        let mut conditions: Vec<String> = vec![equals("pr.state", state)];
        assert(conditions.deep_view() =~= seq![column_is("pr.state"@, state@)]);
        match condition_on(filter.repo) {
            Ok(Some(c)) => {
                push_condition(&mut conditions, c);
            },
            Ok(None) => {},
            Err(e) => {
                return Err(e);
            },
        }
        if let Some(a) = filter.author {
            push_condition(&mut conditions, equals("pr.author", a));
        }
        if filter.needs_review {
            push_condition(&mut conditions, NOT_APPROVED.to_owned());
        }
        let all: String = join(&conditions, " AND ");
        let sql: String = cat3(SELECT_PRS, all.as_str(), ORDER_PRS);
        Ok(plain_statement(sql.as_str()))
    }

    /// The query for one pull request of a repository.
    pub fn pr(&self, repo: &str, number: i64) -> (r: Result<Statement, MissingName>)
        ensures
            match r {
                Ok(s) => pr_query(repo@, number) == Ok::<_, MissingName>(s.deep_view()),
                Err(e) => pr_query(repo@, number) == Err::<StatementView, _>(e),
            },
            match r {
                Ok(s) => text::cut_at(repo@, '/') matches Some((owner, name)) && s.deep_view() == (
                StatementView {
                    sql: SELECT_PRS@ + ONE_PR@,
                    params: seq![
                        SqlView::Text(owner),
                        SqlView::Text(name),
                        SqlView::Integer(number),
                    ],
                }),
                Err(_) => text::cut_at(repo@, '/') is None,
            },
    {
        match split_slug(repo) {
            Ok((owner, name)) => {
                let params: Vec<SqlValue> = vec![
                    SqlValue::text(owner),
                    SqlValue::text(name),
                    SqlValue::Integer(number),
                ];
                assert(params.deep_view() =~= seq![
                    SqlView::Text(owner@),
                    SqlView::Text(name@),
                    SqlView::Integer(number),
                ]);
                Ok(Statement { sql: cat(SELECT_PRS, ONE_PR), params })
            },
            Err(e) => Err(e),
        }
    }

    /// The query for the reviews of a pull request.
    pub fn reviews(&self, pr_id: i64) -> (r: Statement)
        ensures
            r.deep_view() == by_id(SELECT_REVIEWS@, pr_id),
    {
        with_id(SELECT_REVIEWS, pr_id)
    }

    /// The query for the comments on a pull request.
    pub fn comments(&self, pr_id: i64) -> (r: Statement)
        ensures
            r.deep_view() == by_id(SELECT_COMMENTS@, pr_id),
    {
        with_id(SELECT_COMMENTS, pr_id)
    }

    /// The query for the notifications that are not read.
    pub fn unread_notifications(&self) -> (r: Statement)
        ensures
            r.deep_view() == notifications_query(true),
    {
        self.notifications(true)
    }

    /// The query for the notifications, or for those that are not read.
    pub fn notifications(&self, unread_only: bool) -> (r: Statement)
        ensures
            r.deep_view() == notifications_query(unread_only),
    {
        let filter: &str = if unread_only {
            UNREAD
        } else {
            ""
        };
        let sql: String = cat3(SELECT_NOTIFICATIONS, filter, ORDER_NOTIFICATIONS);
        plain_statement(sql.as_str())
    }

    /// The query for the branches of a repository, or of all.
    pub fn branches(&self, repo: Option<&str>) -> (r: Result<Statement, MissingName>)
        ensures
            match r {
                Ok(s) => branches_query(repo.deep_view()) == Ok::<_, MissingName>(s.deep_view()),
                Err(e) => branches_query(repo.deep_view()) == Err::<StatementView, _>(e),
            },
    {
        let filter: String = match condition_on(repo) {
            Ok(Some(c)) => cat("WHERE ", c.as_str()),
            Ok(None) => "".to_owned(),
            Err(e) => {
                return Err(e);
            },
        };
        let sql: String = cat3(SELECT_BRANCHES, filter.as_str(), ORDER_BRANCHES);
        Ok(plain_statement(sql.as_str()))
    }

    /// The query for the latest events of a repository, or of all, of one type, or of all.
    pub fn events(&self, repo: Option<&str>, event_type: Option<&str>, limit: usize) -> (r: Result<
        Statement,
        MissingName,
    >)
        ensures
            match r {
                Ok(s) => events_query(repo.deep_view(), event_type.deep_view(), limit) == Ok::<
                    _,
                    MissingName,
                >(s.deep_view()),
                Err(e) => events_query(repo.deep_view(), event_type.deep_view(), limit) == Err::<
                    StatementView,
                    _,
                >(e),
            },
    {
        let mut conditions: Vec<String> = vec!["1=1".to_owned()];
        assert(conditions.deep_view() =~= seq!["1=1"@]);
        match condition_on(repo) {
            Ok(Some(c)) => {
                push_condition(&mut conditions, c);
            },
            Ok(None) => {},
            Err(e) => {
                return Err(e);
            },
        }
        if let Some(t) = event_type {
            push_condition(&mut conditions, equals("e.type", t));
        }
        let all: String = join(&conditions, " AND ");
        let mut sql: String = cat3(SELECT_EVENTS, all.as_str(), ORDER_EVENTS);
        let n: String = u64_text(limit as u64);
        sql.append(n.as_str());
        Ok(plain_statement(sql.as_str()))
    }

    /// The query for what is left of each rate limit.
    pub fn rate_limit(&self) -> (r: Statement)
        ensures
            r.deep_view() == (StatementView { sql: SELECT_RATE_LIMIT@, params: Seq::empty() }),
    {
        plain_statement(SELECT_RATE_LIMIT)
    }

    /// The query for the changes that were logged after a given one.
    pub fn changes_since(&self, last_id: i64) -> (r: Statement)
        ensures
            r.deep_view() == tail::changes_query(last_id),
    {
        poll(last_id)
    }

    /// The query for the id of the change that was logged last.
    pub fn latest_change_id(&self) -> (r: Statement)
        ensures
            r.deep_view() == (StatementView { sql: SELECT_LATEST@, params: Seq::empty() }),
    {
        plain_statement(SELECT_LATEST)
    }
}

} // verus!
