//! Pull requests: the query for those of a repository, or for some of them, and what is
//! recorded of each.

use vstd::prelude::*;

use crate::db::{first_id, log_change, ChangeEvent};
use crate::json::{to_text, Json, JsonView};
use crate::number::i64_text;
use crate::sql::{read_integers, SqlValue, SqlView, Statement, StatementView};
use crate::sync::step::{
    push_statement, take_first, Action, ActionView, Now, NowView, Pool, RepoJob, RepoJobView, Reply,
    ReplyView, Step, StepView,
};
use crate::text::{cat, cat3, join, same};
use crate::{db, json, number, sql, text};

verus! {

/// What is asked of a pull request.
pub const PR_FIELDS: &'static str = "number title state isDraft body
              headRefName headRefOid baseRefName mergeable
              additions deletions changedFiles
              createdAt updatedAt mergedAt closedAt
              databaseId id
              author { login }
              reviews(last: 20) {
                nodes { databaseId author { login } state body submittedAt }
              }
              labels(first: 10) {
                nodes { name color }
              }
              commits(last: 1) {
                nodes {
                  commit {
                    statusCheckRollup {
                      contexts(first: 50) {
                        nodes {
                          __typename
                          ... on StatusContext { context state targetUrl description }
                          ... on CheckRun { name conclusion detailsUrl }
                        }
                      }
                    }
                  }
                }
              }";

/// Records a pull request and gives its id.
pub const UPSERT_PR: &'static str = "INSERT INTO pull_request
         (repo_id, number, gh_node_id, state, title, author, head_ref, head_sha,
          base_ref, mergeable, draft, additions, deletions, changed_files,
          created_at, updated_at, merged_at, closed_at, body, raw_json)
         VALUES (?1,?2,?3,?4,?5,?6,?7,?8,?9,?10,?11,?12,?13,?14,?15,?16,?17,?18,?19,?20)
         ON CONFLICT(repo_id, number) DO UPDATE SET
             gh_node_id    = excluded.gh_node_id,
             state         = excluded.state,
             title         = excluded.title,
             author        = excluded.author,
             head_ref      = excluded.head_ref,
             head_sha      = excluded.head_sha,
             base_ref      = excluded.base_ref,
             mergeable     = excluded.mergeable,
             draft         = excluded.draft,
             additions     = excluded.additions,
             deletions     = excluded.deletions,
             changed_files = excluded.changed_files,
             updated_at    = excluded.updated_at,
             merged_at     = excluded.merged_at,
             closed_at     = excluded.closed_at,
             body          = excluded.body,
             raw_json      = excluded.raw_json
         RETURNING id";

/// Records a review of a pull request.
pub const UPSERT_REVIEW: &'static str = "INSERT INTO pr_review (pr_id, gh_id, author, state, body, submitted_at)
         VALUES (?1,?2,?3,?4,?5,?6)
         ON CONFLICT(pr_id, gh_id) DO UPDATE SET
             state        = excluded.state,
             body         = excluded.body,
             submitted_at = excluded.submitted_at";

/// Forgets the labels of a pull request.
pub const DELETE_LABELS: &'static str = "DELETE FROM pr_label WHERE pr_id = ?1";

/// Records a label of a pull request.
pub const INSERT_LABEL: &'static str =
    "INSERT OR IGNORE INTO pr_label (pr_id, label, color) VALUES (?1, ?2, ?3)";

/// Records a status check of a pull request.
pub const UPSERT_CHECK: &'static str = "INSERT INTO pr_status_check (pr_id, context, state, target_url, description, updated_at)
         VALUES (?1,?2,?3,?4,?5,?6)
         ON CONFLICT(pr_id, context) DO UPDATE SET
             state       = excluded.state,
             target_url  = excluded.target_url,
             description = excluded.description,
             updated_at  = excluded.updated_at";

/// Gives the numbers of the pull requests of a repository that are recorded.
pub const SELECT_NUMBERS: &'static str = "SELECT number FROM pull_request WHERE repo_id=?1";

// ---- one pull request --------------------------------------------------------------
/// The elements of an array; none for any other value.
pub open spec fn elements(v: JsonView) -> Seq<JsonView> {
    match v {
        JsonView::Array(a) => a,
        _ => Seq::empty(),
    }
}

/// The number of a pull request, or zero where it has none.
pub open spec fn number_of(pr: JsonView) -> i64 {
    match pr.at("number"@).as_i64() {
        Some(n) => n,
        None => 0,
    }
}

/// The state of a pull request as it is recorded: `merged`, `closed`, or else `open`.
pub open spec fn state_of(pr: JsonView) -> Seq<char> {
    let state = pr.at("state"@).str_or("OPEN"@);
    if state == "MERGED"@ {
        "merged"@
    } else if state == "CLOSED"@ {
        "closed"@
    } else {
        "open"@
    }
}

/// Whether a flag is set; one that is missing is not.
pub open spec fn is_set(v: JsonView) -> bool {
    v.as_bool() == Some(true)
}

/// The statement that records a pull request and gives its id.
pub open spec fn pr_record(repo_id: i64, pr: JsonView) -> StatementView {
    StatementView {
        sql: UPSERT_PR@,
        params: seq![
            SqlView::Integer(repo_id),
            SqlView::Integer(number_of(pr)),
            sql::text_or_null(pr.at("id"@).as_str()),
            SqlView::Text(state_of(pr)),
            SqlView::Text(pr.at("title"@).str_or(""@)),
            sql::text_or_null(pr.at("author"@).at("login"@).as_str()),
            sql::text_or_null(pr.at("headRefName"@).as_str()),
            sql::text_or_null(pr.at("headRefOid"@).as_str()),
            sql::text_or_null(pr.at("baseRefName"@).as_str()),
            sql::text_or_null(pr.at("mergeable"@).as_str()),
            sql::flag(is_set(pr.at("isDraft"@))),
            sql::integer_or_null(pr.at("additions"@).as_i64()),
            sql::integer_or_null(pr.at("deletions"@).as_i64()),
            sql::integer_or_null(pr.at("changedFiles"@).as_i64()),
            SqlView::Text(pr.at("createdAt"@).str_or(""@)),
            SqlView::Text(pr.at("updatedAt"@).str_or(""@)),
            sql::text_or_null(pr.at("mergedAt"@).as_str()),
            sql::text_or_null(pr.at("closedAt"@).as_str()),
            sql::text_or_null(pr.at("body"@).as_str()),
            SqlView::Text(json::compact_text(pr)),
        ],
    }
}

/// The number of a pull request, or zero where it has none.
pub fn pr_number(pr: &Json) -> (r: i64)
    ensures
        r == number_of(pr.deep_view()),
{
    match pr.at("number").as_i64() {
        Some(n) => n,
        None => 0,
    }
}

/// The state of a pull request as it is recorded.
pub fn pr_state(pr: &Json) -> (r: &'static str)
    ensures
        r@ == state_of(pr.deep_view()),
{
    let state: &str = pr.at("state").str_or("OPEN");
    if same(state, "MERGED") {
        "merged"
    } else if same(state, "CLOSED") {
        "closed"
    } else {
        "open"
    }
}

fn set(v: &Json) -> (r: bool)
    ensures
        r == is_set(v.deep_view()),
{
    match v.as_bool() {
        Some(b) => b,
        None => false,
    }
}

/// The statement that records a pull request and gives its id.
pub fn upsert_pr(repo_id: i64, pr: &Json) -> (r: Statement)
    ensures
        r.deep_view() == pr_record(repo_id, pr.deep_view()),
{
    let params: Vec<SqlValue> = vec![
        SqlValue::Integer(repo_id),
        SqlValue::Integer(pr_number(pr)),
        SqlValue::opt_text(pr.at("id").as_str()),
        SqlValue::text(pr_state(pr)),
        SqlValue::text(pr.at("title").str_or("")),
        SqlValue::opt_text(pr.at("author").at("login").as_str()),
        SqlValue::opt_text(pr.at("headRefName").as_str()),
        SqlValue::opt_text(pr.at("headRefOid").as_str()),
        SqlValue::opt_text(pr.at("baseRefName").as_str()),
        SqlValue::opt_text(pr.at("mergeable").as_str()),
        SqlValue::flag(set(pr.at("isDraft"))),
        SqlValue::opt_integer(pr.at("additions").as_i64()),
        SqlValue::opt_integer(pr.at("deletions").as_i64()),
        SqlValue::opt_integer(pr.at("changedFiles").as_i64()),
        SqlValue::text(pr.at("createdAt").str_or("")),
        SqlValue::text(pr.at("updatedAt").str_or("")),
        SqlValue::opt_text(pr.at("mergedAt").as_str()),
        SqlValue::opt_text(pr.at("closedAt").as_str()),
        SqlValue::opt_text(pr.at("body").as_str()),
        SqlValue::Text(to_text(pr)),
    ];
    let r: Statement = Statement { sql: UPSERT_PR.to_owned(), params };
    assert(r.deep_view() =~= pr_record(repo_id, pr.deep_view()));
    r
}

/// The statement that records a review.
pub open spec fn review_record(pr_id: i64, rv: JsonView) -> StatementView {
    StatementView {
        sql: UPSERT_REVIEW@,
        params: seq![
            SqlView::Integer(pr_id),
            SqlView::Integer(
                match rv.at("databaseId"@).as_i64() {
                    Some(n) => n,
                    None => 0,
                },
            ),
            sql::text_or_null(rv.at("author"@).at("login"@).as_str()),
            SqlView::Text(rv.at("state"@).str_or(""@)),
            sql::text_or_null(rv.at("body"@).as_str()),
            sql::text_or_null(rv.at("submittedAt"@).as_str()),
        ],
    }
}

/// The statement that records a review.
pub fn upsert_review(pr_id: i64, rv: &Json) -> (r: Statement)
    ensures
        r.deep_view() == review_record(pr_id, rv.deep_view()),
{
    let gh_id: i64 = match rv.at("databaseId").as_i64() {
        Some(n) => n,
        None => 0,
    };
    let params: Vec<SqlValue> = vec![
        SqlValue::Integer(pr_id),
        SqlValue::Integer(gh_id),
        SqlValue::opt_text(rv.at("author").at("login").as_str()),
        SqlValue::text(rv.at("state").str_or("")),
        SqlValue::opt_text(rv.at("body").as_str()),
        SqlValue::opt_text(rv.at("submittedAt").as_str()),
    ];
    let r: Statement = Statement { sql: UPSERT_REVIEW.to_owned(), params };
    assert(r.deep_view() =~= review_record(pr_id, rv.deep_view()));
    r
}

/// The statement that forgets the labels of a pull request.
pub open spec fn labels_removal(pr_id: i64) -> StatementView {
    StatementView { sql: DELETE_LABELS@, params: seq![SqlView::Integer(pr_id)] }
}

/// The statement that records a label.
pub open spec fn label_record(pr_id: i64, label: JsonView) -> StatementView {
    StatementView {
        sql: INSERT_LABEL@,
        params: seq![
            SqlView::Integer(pr_id),
            sql::text_or_null(label.at("name"@).as_str()),
            sql::text_or_null(label.at("color"@).as_str()),
        ],
    }
}

fn delete_labels(pr_id: i64) -> (r: Statement)
    ensures
        r.deep_view() == labels_removal(pr_id),
{
    let r: Statement = Statement {
        sql: DELETE_LABELS.to_owned(),
        params: vec![SqlValue::Integer(pr_id)],
    };
    assert(r.deep_view() =~= labels_removal(pr_id));
    r
}

fn insert_label(pr_id: i64, label: &Json) -> (r: Statement)
    ensures
        r.deep_view() == label_record(pr_id, label.deep_view()),
{
    let params: Vec<SqlValue> = vec![
        SqlValue::Integer(pr_id),
        SqlValue::opt_text(label.at("name").as_str()),
        SqlValue::opt_text(label.at("color").as_str()),
    ];
    let r: Statement = Statement { sql: INSERT_LABEL.to_owned(), params };
    assert(r.deep_view() =~= label_record(pr_id, label.deep_view()));
    r
}

/// The statement that records a status check: the status of a context, or the conclusion
/// of a check run, which is pending while there is none. Nothing else is recorded.
pub open spec fn check_record(pr_id: i64, ctx: JsonView, now: Seq<char>) -> Option<StatementView> {
    if ctx.at("__typename"@).as_str() == Some("StatusContext"@) {
        Some(
            check_statement(
                pr_id,
                ctx.at("context"@).str_or(""@),
                ctx.at("state"@).str_or(""@),
                ctx.at("targetUrl"@).as_str(),
                ctx.at("description"@).as_str(),
                now,
            ),
        )
    } else if ctx.at("__typename"@).as_str() == Some("CheckRun"@) {
        Some(
            check_statement(
                pr_id,
                ctx.at("name"@).str_or(""@),
                ctx.at("conclusion"@).str_or("pending"@),
                ctx.at("detailsUrl"@).as_str(),
                None,
                now,
            ),
        )
    } else {
        None
    }
}

/// The statement that records a status check, from its parts.
pub open spec fn check_statement(
    pr_id: i64,
    context: Seq<char>,
    state: Seq<char>,
    target_url: Option<Seq<char>>,
    description: Option<Seq<char>>,
    now: Seq<char>,
) -> StatementView {
    StatementView {
        sql: UPSERT_CHECK@,
        params: seq![
            SqlView::Integer(pr_id),
            SqlView::Text(context),
            SqlView::Text(state),
            sql::text_or_null(target_url),
            sql::text_or_null(description),
            SqlView::Text(now),
        ],
    }
}

fn upsert_check(
    pr_id: i64,
    context: &str,
    state: &str,
    target_url: Option<&str>,
    description: Option<&str>,
    now: &str,
) -> (r: Statement)
    ensures
        r.deep_view() == check_statement(
            pr_id,
            context@,
            state@,
            target_url.deep_view(),
            description.deep_view(),
            now@,
        ),
{
    let params: Vec<SqlValue> = vec![
        SqlValue::Integer(pr_id),
        SqlValue::text(context),
        SqlValue::text(state),
        SqlValue::opt_text(target_url),
        SqlValue::opt_text(description),
        SqlValue::text(now),
    ];
    let r: Statement = Statement { sql: UPSERT_CHECK.to_owned(), params };
    assert(r.deep_view() =~= check_statement(
        pr_id,
        context@,
        state@,
        target_url.deep_view(),
        description.deep_view(),
        now@,
    ));
    r
}

/// The statement that records a status check, if it is of a kind that is recorded.
pub fn upsert_status_check(pr_id: i64, ctx: &Json, now: &str) -> (r: Option<Statement>)
    ensures
        r.deep_view() == check_record(pr_id, ctx.deep_view(), now@),
{
    match ctx.at("__typename").as_str() {
        Some(kind) => {
            if same(kind, "StatusContext") {
                Some(
                    upsert_check(
                        pr_id,
                        ctx.at("context").str_or(""),
                        ctx.at("state").str_or(""),
                        ctx.at("targetUrl").as_str(),
                        ctx.at("description").as_str(),
                        now,
                    ),
                )
            } else if same(kind, "CheckRun") {
                Some(
                    upsert_check(
                        pr_id,
                        ctx.at("name").str_or(""),
                        ctx.at("conclusion").str_or("pending"),
                        ctx.at("detailsUrl").as_str(),
                        None,
                        now,
                    ),
                )
            } else {
                None
            }
        },
        None => None,
    }
}

/// The statements that record the status checks among `contexts`.
pub open spec fn check_records(pr_id: i64, contexts: Seq<JsonView>, now: Seq<char>) -> Seq<
    StatementView,
>
    decreases contexts.len(),
{
    if contexts.len() == 0 {
        Seq::empty()
    } else {
        let before = check_records(pr_id, contexts.drop_last(), now);
        match check_record(pr_id, contexts.last(), now) {
            Some(s) => before.push(s),
            None => before,
        }
    }
}

/// The reviews of a pull request.
pub open spec fn reviews_of(pr: JsonView) -> Seq<JsonView> {
    elements(pr.at("reviews"@).at("nodes"@))
}

/// The labels of a pull request.
pub open spec fn labels_of(pr: JsonView) -> Seq<JsonView> {
    elements(pr.at("labels"@).at("nodes"@))
}

/// The contexts of the status checks of a pull request: those of the first commit that is
/// given.
pub open spec fn contexts_of(pr: JsonView) -> Seq<JsonView> {
    let commits = elements(pr.at("commits"@).at("nodes"@));
    if commits.len() == 0 {
        Seq::empty()
    } else {
        elements(
            commits[0].at("commit"@).at("statusCheckRollup"@).at("contexts"@).at("nodes"@),
        )
    }
}

/// The statements that follow when a pull request is recorded under an id: the change is
/// logged, the reviews are recorded, the labels are replaced, and the status checks are
/// recorded.
pub open spec fn follow_ups(
    pr_id: i64,
    slug: Seq<char>,
    pr: JsonView,
    is_new: bool,
    now: Seq<char>,
) -> Seq<StatementView> {
    seq![
        db::change_record("pull_request"@, pr_id, ChangeEvent::of(is_new), Some(slug), None),
    ] + reviews_of(pr).map_values(|rv: JsonView| review_record(pr_id, rv)) + seq![
        labels_removal(pr_id),
    ] + labels_of(pr).map_values(|l: JsonView| label_record(pr_id, l)) + check_records(
        pr_id,
        contexts_of(pr),
        now,
    )
}

fn push_reviews(out: &mut Vec<Statement>, pr_id: i64, pr: &Json)
    ensures
        final(out).deep_view() == old(out).deep_view() + reviews_of(pr.deep_view()).map_values(
            |rv: JsonView| review_record(pr_id, rv),
        ),
{
    let ghost f = |rv: JsonView| review_record(pr_id, rv);
    let ghost all = reviews_of(pr.deep_view());
    if let Some(reviews) = pr.at("reviews").at("nodes").as_array() {
        let mut i: usize = 0;
        assert(out.deep_view() =~= old(out).deep_view() + all.take(0).map_values(f));
        while i < reviews.len()
            invariant
                i <= reviews.len(),
                all == reviews.deep_view(),
                f == (|rv: JsonView| review_record(pr_id, rv)),
                out.deep_view() == old(out).deep_view() + all.take(i as int).map_values(f),
            decreases reviews.len() - i,
        {
            push_statement(out, upsert_review(pr_id, &reviews[i]));
            assert(out.deep_view() =~= old(out).deep_view() + all.take(i + 1).map_values(f));
            i += 1;
        }
        assert(all.take(i as int) =~= all);
    } else {
        assert(out.deep_view() =~= old(out).deep_view() + all.map_values(f));
    }
}

fn push_labels(out: &mut Vec<Statement>, pr_id: i64, pr: &Json)
    ensures
        final(out).deep_view() == old(out).deep_view() + labels_of(pr.deep_view()).map_values(
            |l: JsonView| label_record(pr_id, l),
        ),
{
    let ghost f = |l: JsonView| label_record(pr_id, l);
    let ghost all = labels_of(pr.deep_view());
    if let Some(labels) = pr.at("labels").at("nodes").as_array() {
        let mut i: usize = 0;
        assert(out.deep_view() =~= old(out).deep_view() + all.take(0).map_values(f));
        while i < labels.len()
            invariant
                i <= labels.len(),
                all == labels.deep_view(),
                f == (|l: JsonView| label_record(pr_id, l)),
                out.deep_view() == old(out).deep_view() + all.take(i as int).map_values(f),
            decreases labels.len() - i,
        {
            push_statement(out, insert_label(pr_id, &labels[i]));
            assert(out.deep_view() =~= old(out).deep_view() + all.take(i + 1).map_values(f));
            i += 1;
        }
        assert(all.take(i as int) =~= all);
    } else {
        assert(out.deep_view() =~= old(out).deep_view() + all.map_values(f));
    }
}

fn push_checks(out: &mut Vec<Statement>, pr_id: i64, contexts: &Vec<Json>, now: &str)
    ensures
        final(out).deep_view() == old(out).deep_view() + check_records(
            pr_id,
            contexts.deep_view(),
            now@,
        ),
{
    let ghost all = contexts.deep_view();
    let mut i: usize = 0;
    assert(all.take(0) =~= Seq::empty());
    assert(out.deep_view() =~= old(out).deep_view() + Seq::<StatementView>::empty());
    while i < contexts.len()
        invariant
            i <= contexts.len(),
            all == contexts.deep_view(),
            out.deep_view() == old(out).deep_view() + check_records(
                pr_id,
                all.take(i as int),
                now@,
            ),
        decreases contexts.len() - i,
    {
        proof {
            assert(all.take(i + 1).drop_last() =~= all.take(i as int));
            assert(all.take(i + 1).last() == contexts@[i as int].deep_view());
        }
        if let Some(s) = upsert_status_check(pr_id, &contexts[i], now) {
            push_statement(out, s);
        }
        assert(out.deep_view() =~= old(out).deep_view() + check_records(
            pr_id,
            all.take(i + 1),
            now@,
        ));
        i += 1;
    }
    assert(all.take(i as int) =~= all);
}

/// The statements that follow when a pull request is recorded under the id `pr_id`.
pub fn follow_up(pr_id: i64, slug: &str, pr: &Json, is_new: bool, now: &str) -> (r: Vec<Statement>)
    ensures
        r.deep_view() == follow_ups(pr_id, slug@, pr.deep_view(), is_new, now@),
{
    let change: Statement = log_change(
        "pull_request",
        pr_id,
        ChangeEvent::for_row(is_new),
        Some(slug),
        None,
    );
    let mut out: Vec<Statement> = vec![change];
    assert(out.deep_view() =~= seq![change.deep_view()]);
    push_reviews(&mut out, pr_id, pr);
    let ghost with_reviews = out.deep_view();
    push_statement(&mut out, delete_labels(pr_id));
    assert(out.deep_view() =~= with_reviews + seq![labels_removal(pr_id)]);
    push_labels(&mut out, pr_id, pr);
    let ghost with_labels = out.deep_view();
    if let Some(commits) = pr.at("commits").at("nodes").as_array() {
        if commits.len() > 0 {
            let nodes: &Json = commits[0].at("commit").at("statusCheckRollup").at("contexts").at(
                "nodes",
            );
            if let Some(contexts) = nodes.as_array() {
                push_checks(&mut out, pr_id, contexts, now);
            }
        }
    }
    assert(out.deep_view() =~= with_labels + check_records(
        pr_id,
        contexts_of(pr.deep_view()),
        now@,
    ));
    out
}

// ---- the queries -------------------------------------------------------------------
/// What a sync of pull requests fetches.
pub enum PrScope {
    /// All open pull requests.
    Full,
    /// Those with the given numbers.
    Targeted(Vec<i64>),
}

/// What a sync of pull requests fetches.
pub enum PrScopeView {
    Full,
    Targeted(Seq<i64>),
}

impl DeepView for PrScope {
    type V = PrScopeView;

    open spec fn deep_view(&self) -> PrScopeView {
        match self {
            PrScope::Full => PrScopeView::Full,
            PrScope::Targeted(numbers) => PrScopeView::Targeted(numbers.deep_view()),
        }
    }
}

/// The end of a query, which asks how many points the query costs.
pub const COST_FIELDS: &'static str = "\n        rateLimit { cost } }";

/// The name under which a pull request is asked for.
pub open spec fn alias(number: i64) -> Seq<char> {
    "pr_"@ + number::int_text(number as int)
}

/// The part of a query that asks for one pull request.
pub open spec fn alias_query(number: i64) -> Seq<char> {
    "  "@ + alias(number) + ": pullRequest(number: "@ + number::int_text(number as int)
        + ") {\n    "@ + PR_FIELDS@ + "\n  }"@
}

/// The beginning of a query about a repository.
pub open spec fn repository_query(job: RepoJobView) -> Seq<char> {
    "{ repository(owner: \""@ + job.owner + "\", name: \""@ + job.name + "\") {\n"@
}

/// The query for what a sync fetches. Pull requests with given numbers are asked for
/// together, each under a name of its own.
pub open spec fn query_for(job: RepoJobView, scope: PrScopeView) -> Seq<char> {
    match scope {
        PrScopeView::Full => repository_query(job)
            + "          pullRequests(first: 100, states: OPEN, orderBy: {field: UPDATED_AT, direction: DESC}) {\n            nodes { "@
            + PR_FIELDS@ + " }\n          }\n        }"@ + COST_FIELDS@,
        PrScopeView::Targeted(numbers) => repository_query(job) + text::joined(
            numbers.map_values(|n: i64| alias_query(n)),
            "\n"@,
        ) + "\n        }"@ + COST_FIELDS@,
    }
}

/// The name under which the query is recorded.
pub open spec fn endpoint_for(job: RepoJobView, scope: PrScopeView) -> Seq<char> {
    (match scope {
        PrScopeView::Full => "graphql:prs:full/"@,
        PrScopeView::Targeted(_) => "graphql:prs:targeted/"@,
    }) + job.slug()
}

fn alias_text(number: i64) -> (r: String)
    ensures
        r@ == alias(number),
{
    let n: String = i64_text(number);
    cat("pr_", n.as_str())
}

fn alias_query_text(number: i64) -> (r: String)
    ensures
        r@ == alias_query(number),
{
    let n: String = i64_text(number);
    let a: String = alias_text(number);
    let mut r: String = cat3("  ", a.as_str(), ": pullRequest(number: ");
    r.append(n.as_str());
    r.append(") {\n    ");
    r.append(PR_FIELDS);
    r.append("\n  }");
    r
}

/// The query for what a sync fetches.
pub fn query_text(job: &RepoJob, scope: &PrScope) -> (r: String)
    ensures
        r@ == query_for(job.deep_view(), scope.deep_view()),
{
    let mut r: String = cat3("{ repository(owner: \"", job.owner.as_str(), "\", name: \"");
    r.append(job.name.as_str());
    r.append("\") {\n");
    match scope {
        PrScope::Full => {
            r.append(
                "          pullRequests(first: 100, states: OPEN, orderBy: {field: UPDATED_AT, direction: DESC}) {\n            nodes { ",
            );
            r.append(PR_FIELDS);
            r.append(" }\n          }\n        }");
        },
        PrScope::Targeted(numbers) => {
            let ghost all = numbers.deep_view();
            let ghost f = |n: i64| alias_query(n);
            let mut parts: Vec<String> = Vec::new();
            let mut i: usize = 0;
            assert(parts.deep_view() =~= all.take(0).map_values(f));
            while i < numbers.len()
                invariant
                    i <= numbers.len(),
                    all == numbers.deep_view(),
                    f == (|n: i64| alias_query(n)),
                    parts.deep_view() == all.take(i as int).map_values(f),
                decreases numbers.len() - i,
            {
                let ghost before = parts.deep_view();
                parts.push(alias_query_text(numbers[i]));
                assert(parts.deep_view() =~= before.push(f(all[i as int])));
                assert(parts.deep_view() =~= all.take(i + 1).map_values(f));
                i += 1;
            }
            assert(all.take(i as int) =~= all);
            let aliases: String = join(&parts, "\n");
            r.append(aliases.as_str());
            r.append("\n        }");
        },
    }
    r.append(COST_FIELDS);
    r
}

fn endpoint_text(job: &RepoJob, scope: &PrScope) -> (r: String)
    ensures
        r@ == endpoint_for(job.deep_view(), scope.deep_view()),
{
    let name: String = job.slug();
    match scope {
        PrScope::Full => cat("graphql:prs:full/", name.as_str()),
        PrScope::Targeted(_) => cat("graphql:prs:targeted/", name.as_str()),
    }
}

// ---- what comes back ---------------------------------------------------------------
/// The pull requests in the answer to a full query, each with its number.
pub open spec fn full_work(nodes: Seq<JsonView>) -> Seq<(JsonView, i64)> {
    nodes.map_values(|pr: JsonView| (pr, number_of(pr)))
}

/// The pull requests in the answer to a targeted query, each with the number under which
/// it was asked for. One that is missing or null is left out.
pub open spec fn targeted_work(repository: JsonView, numbers: Seq<i64>) -> Seq<(JsonView, i64)>
    decreases numbers.len(),
{
    if numbers.len() == 0 {
        Seq::empty()
    } else {
        let n = numbers.last();
        let before = targeted_work(repository, numbers.drop_last());
        let pr = repository.at(alias(n));
        if pr is Null {
            before
        } else {
            before.push((pr, n))
        }
    }
}

/// The pull requests in the answer to a query; none at all where the answer to a full
/// query holds no list of them.
pub open spec fn work_of(scope: PrScopeView, data: JsonView) -> Option<Seq<(JsonView, i64)>> {
    match scope {
        PrScopeView::Full => match data.at("repository"@).at("pullRequests"@).at(
            "nodes"@,
        ).as_array() {
            Some(nodes) => Some(full_work(nodes)),
            None => None,
        },
        PrScopeView::Targeted(numbers) => Some(targeted_work(data.at("repository"@), numbers)),
    }
}

fn read_full(nodes: &Vec<Json>) -> (r: Vec<(Json, i64)>)
    ensures
        r.deep_view() == full_work(nodes.deep_view()),
{
    let ghost all = nodes.deep_view();
    let mut out: Vec<(Json, i64)> = Vec::new();
    let mut i: usize = 0;
    assert(out.deep_view() =~= full_work(all.take(0)));
    while i < nodes.len()
        invariant
            i <= nodes.len(),
            all == nodes.deep_view(),
            out.deep_view() == full_work(all.take(i as int)),
        decreases nodes.len() - i,
    {
        let pr: Json = nodes[i].copy();
        let number: i64 = pr_number(&pr);
        let ghost before = out.deep_view();
        out.push((pr, number));
        assert(out.deep_view() =~= before.push((all[i as int], number_of(all[i as int]))));
        assert(out.deep_view() =~= full_work(all.take(i + 1)));
        i += 1;
    }
    assert(all.take(i as int) =~= all);
    out
}

fn read_targeted(repository: &Json, numbers: &Vec<i64>) -> (r: Vec<(Json, i64)>)
    ensures
        r.deep_view() == targeted_work(repository.deep_view(), numbers.deep_view()),
{
    let ghost all = numbers.deep_view();
    let mut out: Vec<(Json, i64)> = Vec::new();
    let mut i: usize = 0;
    assert(all.take(0) =~= Seq::empty());
    assert(out.deep_view() =~= Seq::<(JsonView, i64)>::empty());
    while i < numbers.len()
        invariant
            i <= numbers.len(),
            all == numbers.deep_view(),
            out.deep_view() == targeted_work(repository.deep_view(), all.take(i as int)),
        decreases numbers.len() - i,
    {
        let n: i64 = numbers[i];
        let key: String = alias_text(n);
        let pr: &Json = repository.at(key.as_str());
        let ghost before = out.deep_view();
        proof {
            assert(all.take(i + 1).drop_last() =~= all.take(i as int));
            assert(all.take(i + 1).last() == n);
        }
        if !pr.is_null() {
            out.push((pr.copy(), n));
            assert(out.deep_view() =~= before.push((pr.deep_view(), n)));
        }
        i += 1;
    }
    assert(all.take(i as int) =~= all);
    out
}

/// Reads the pull requests in the answer to a query.
pub fn read_work(scope: &PrScope, data: &Json) -> (r: Option<Vec<(Json, i64)>>)
    ensures
        r.deep_view() == work_of(scope.deep_view(), data.deep_view()),
{
    match scope {
        PrScope::Full => match data.at("repository").at("pullRequests").at("nodes").as_array() {
            Some(nodes) => Some(read_full(nodes)),
            None => None,
        },
        PrScope::Targeted(numbers) => Some(read_targeted(data.at("repository"), numbers)),
    }
}

fn holds(numbers: &Vec<i64>, number: i64) -> (r: bool)
    ensures
        r == numbers.deep_view().contains(number),
{
    let mut i: usize = 0;
    while i < numbers.len()
        invariant
            i <= numbers.len(),
            forall|k: int| 0 <= k < i ==> numbers.deep_view()[k] != number,
        decreases numbers.len() - i,
    {
        if numbers[i] == number {
            assert(numbers.deep_view()[i as int] == number);
            return true;
        }
        i += 1;
    }
    false
}

// ---- the sync ----------------------------------------------------------------------
/// A sync of the pull requests of a repository.
pub struct PrSync {
    job: RepoJob,
    stage: PrStage,
}

/// The pull requests that are still to be recorded, those from `next` on, and the numbers
/// of those that were recorded before.
struct PrWork {
    prs: Vec<(Json, i64)>,
    next: usize,
    existing: Vec<i64>,
}

/// What a sync of pull requests waits for.
enum PrStage {
    /// That there are points left in the pool.
    Throttle(PrScope),
    /// The answer to the query.
    Query(PrScope),
    /// The numbers of the pull requests that are recorded already.
    Existing(Vec<(Json, i64)>),
    /// The id of a pull request.
    Upsert { pr: Json, is_new: bool, work: PrWork },
    /// That what follows for a pull request is done, with what is still left of it.
    Follow { rest: Vec<Statement>, work: PrWork },
}

/// What a sync of pull requests is.
pub struct PrSyncView {
    pub job: RepoJobView,
    pub stage: PrStageView,
}

/// The pull requests that are still to be recorded, and the numbers of those that were
/// recorded before.
pub struct PrWorkView {
    pub prs: Seq<(JsonView, i64)>,
    pub next: int,
    pub existing: Seq<i64>,
}

/// What a sync of pull requests waits for.
pub enum PrStageView {
    Throttle(PrScopeView),
    Query(PrScopeView),
    Existing(Seq<(JsonView, i64)>),
    Upsert { pr: JsonView, is_new: bool, work: PrWorkView },
    Follow { rest: Seq<StatementView>, work: PrWorkView },
}

/// How a sync of pull requests goes on.
pub type PrStep = StepView<PrSyncView, ()>;

impl DeepView for PrWork {
    type V = PrWorkView;

    closed spec fn deep_view(&self) -> PrWorkView {
        PrWorkView {
            prs: self.prs.deep_view(),
            next: self.next as int,
            existing: self.existing.deep_view(),
        }
    }
}

impl DeepView for PrSync {
    type V = PrSyncView;

    closed spec fn deep_view(&self) -> PrSyncView {
        PrSyncView {
            job: self.job.deep_view(),
            stage: match self.stage {
                PrStage::Throttle(scope) => PrStageView::Throttle(scope.deep_view()),
                PrStage::Query(scope) => PrStageView::Query(scope.deep_view()),
                PrStage::Existing(prs) => PrStageView::Existing(prs.deep_view()),
                PrStage::Upsert { pr, is_new, work } => PrStageView::Upsert {
                    pr: pr.deep_view(),
                    is_new,
                    work: work.deep_view(),
                },
                PrStage::Follow { rest, work } => PrStageView::Follow {
                    rest: rest.deep_view(),
                    work: work.deep_view(),
                },
            },
        }
    }
}

impl PrSyncView {
    /// The first step of a sync. Where no pull request is asked for, it is at its end.
    pub open spec fn start(job: RepoJobView, scope: PrScopeView) -> PrStep {
        if scope == PrScopeView::Targeted(Seq::empty()) {
            StepView::Finished(())
        } else {
            StepView::Do(
                PrSyncView { job, stage: PrStageView::Throttle(scope) },
                ActionView::Throttle(Pool::Graphql),
            )
        }
    }

    /// The step to the next pull request, or to the end.
    pub open spec fn advance(job: RepoJobView, work: PrWorkView) -> PrStep {
        if work.next < 0 || work.next >= work.prs.len() {
            StepView::Finished(())
        } else {
            let (pr, number) = work.prs[work.next];
            StepView::Do(
                PrSyncView {
                    job,
                    stage: PrStageView::Upsert {
                        pr,
                        is_new: !work.existing.contains(number),
                        work: PrWorkView { next: work.next + 1, ..work },
                    },
                },
                ActionView::Query(pr_record(job.repo_id, pr)),
            )
        }
    }

    /// The step to the next statement that follows for a pull request, or to the next
    /// pull request.
    pub open spec fn follow(job: RepoJobView, rest: Seq<StatementView>, work: PrWorkView) -> PrStep {
        if rest.len() == 0 {
            Self::advance(job, work)
        } else {
            StepView::Do(
                PrSyncView { job, stage: PrStageView::Follow { rest: rest.skip(1), work } },
                ActionView::Execute(rest[0]),
            )
        }
    }

    /// The step that a sync takes when it is told what came of its last action.
    pub open spec fn next(self, reply: ReplyView, now: NowView) -> PrStep {
        let job = self.job;
        match (self.stage, reply) {
            (PrStageView::Throttle(scope), ReplyView::Done) => StepView::Do(
                PrSyncView { job, stage: PrStageView::Query(scope) },
                ActionView::Graphql {
                    endpoint: endpoint_for(job, scope),
                    query: query_for(job, scope),
                },
            ),
            (PrStageView::Query(scope), ReplyView::Data(data)) => match work_of(scope, data) {
                Some(prs) => StepView::Do(
                    PrSyncView { job, stage: PrStageView::Existing(prs) },
                    ActionView::Query(
                        StatementView {
                            sql: SELECT_NUMBERS@,
                            params: seq![SqlView::Integer(job.repo_id)],
                        },
                    ),
                ),
                None => StepView::Finished(()),
            },
            (PrStageView::Existing(prs), ReplyView::Rows(rows)) => match sql::integers_of(rows) {
                Some(existing) => Self::advance(job, PrWorkView { prs, next: 0, existing }),
                None => StepView::Failed,
            },
            (PrStageView::Upsert { pr, is_new, work }, ReplyView::Rows(rows)) => {
                match db::id_in(rows) {
                    Some(pr_id) => Self::follow(
                        job,
                        follow_ups(pr_id, job.slug(), pr, is_new, now.text),
                        work,
                    ),
                    None => StepView::Failed,
                }
            },
            (PrStageView::Follow { rest, work }, ReplyView::Executed { changed, row_id }) => {
                Self::follow(job, rest, work)
            },
            _ => StepView::Failed,
        }
    }
}

fn select_numbers(repo_id: i64) -> (r: Statement)
    ensures
        r.deep_view() == (StatementView {
            sql: SELECT_NUMBERS@,
            params: seq![SqlView::Integer(repo_id)],
        }),
{
    let params: Vec<SqlValue> = vec![SqlValue::Integer(repo_id)];
    assert(params.deep_view() =~= seq![SqlView::Integer(repo_id)]);
    Statement { sql: SELECT_NUMBERS.to_owned(), params }
}

/// The first step of a sync of all open pull requests of a repository.
pub fn sync(job: RepoJob) -> (r: Step<PrSync, ()>)
    ensures
        r.deep_view() == PrSyncView::start(job.deep_view(), PrScopeView::Full),
{
    PrSync::start(job, PrScope::Full)
}

/// The first step of a sync of the pull requests of a repository that have the given
/// numbers.
pub fn sync_targeted(job: RepoJob, numbers: Vec<i64>) -> (r: Step<PrSync, ()>)
    ensures
        r.deep_view() == PrSyncView::start(
            job.deep_view(),
            PrScopeView::Targeted(numbers.deep_view()),
        ),
{
    if numbers.len() == 0 {
        assert(numbers.deep_view() =~= Seq::empty());
        return Step::Finished(());
    }
    assert(numbers.deep_view().len() > 0);
    PrSync::start(job, PrScope::Targeted(numbers))
}

impl PrSync {
    fn start(job: RepoJob, scope: PrScope) -> (r: Step<PrSync, ()>)
        requires
            scope.deep_view() != PrScopeView::Targeted(Seq::empty()),
        ensures
            r.deep_view() == PrSyncView::start(job.deep_view(), scope.deep_view()),
    {
        Step::Do(
            PrSync { job, stage: PrStage::Throttle(scope) },
            Action::Throttle(Pool::Graphql),
        )
    }

    fn advance(job: RepoJob, mut work: PrWork) -> (r: Step<PrSync, ()>)
        ensures
            r.deep_view() == PrSyncView::advance(job.deep_view(), work.deep_view()),
    {
        let i: usize = work.next;
        if i >= work.prs.len() {
            return Step::Finished(());
        }
        let pr: Json = work.prs[i].0.copy();
        let is_new: bool = !holds(&work.existing, work.prs[i].1);
        let record: Statement = upsert_pr(job.repo_id, &pr);
        work.next = i + 1;
        Step::Do(
            PrSync { job, stage: PrStage::Upsert { pr, is_new, work } },
            Action::Query(record),
        )
    }

    fn follow(job: RepoJob, mut rest: Vec<Statement>, work: PrWork) -> (r: Step<PrSync, ()>)
        ensures
            r.deep_view() == PrSyncView::follow(
                job.deep_view(),
                rest.deep_view(),
                work.deep_view(),
            ),
    {
        match take_first(&mut rest) {
            Some(s) => Step::Do(
                PrSync { job, stage: PrStage::Follow { rest, work } },
                Action::Execute(s),
            ),
            None => PrSync::advance(job, work),
        }
    }

    /// Goes on with what came of the last action.
    pub fn step(self, reply: Reply, now: &Now) -> (r: Step<PrSync, ()>)
        ensures
            r.deep_view() == self.deep_view().next(reply.deep_view(), now.deep_view()),
    {
        let job: RepoJob = self.job;
        match (self.stage, reply) {
            (PrStage::Throttle(scope), Reply::Done) => {
                let endpoint: String = endpoint_text(&job, &scope);
                let query: String = query_text(&job, &scope);
                Step::Do(
                    PrSync { job, stage: PrStage::Query(scope) },
                    Action::Graphql { endpoint, query },
                )
            },
            (PrStage::Query(scope), Reply::Data(data)) => match read_work(&scope, &data) {
                Some(prs) => {
                    let query: Statement = select_numbers(job.repo_id);
                    Step::Do(
                        PrSync { job, stage: PrStage::Existing(prs) },
                        Action::Query(query),
                    )
                },
                None => Step::Finished(()),
            },
            (PrStage::Existing(prs), Reply::Rows(rows)) => match read_integers(&rows) {
                Some(existing) => PrSync::advance(job, PrWork { prs, next: 0, existing }),
                None => Step::Failed,
            },
            (PrStage::Upsert { pr, is_new, work }, Reply::Rows(rows)) => match first_id(&rows) {
                Ok(Some(pr_id)) => {
                    let slug: String = job.slug();
                    let rest: Vec<Statement> = follow_up(
                        pr_id,
                        slug.as_str(),
                        &pr,
                        is_new,
                        now.text.as_str(),
                    );
                    PrSync::follow(job, rest, work)
                },
                _ => Step::Failed,
            },
            (PrStage::Follow { rest, work }, Reply::Executed { .. }) => {
                PrSync::follow(job, rest, work)
            },
            _ => Step::Failed,
        }
    }
}

// ---- what holds of every sync ------------------------------------------------------
/// The step that a sync has reached when it was told `replies`, one after the other.
pub open spec fn reached(
    job: RepoJobView,
    scope: PrScopeView,
    replies: Seq<(ReplyView, NowView)>,
) -> PrStep
    decreases replies.len(),
{
    if replies.len() == 0 {
        PrSyncView::start(job, scope)
    } else {
        match reached(job, scope, replies.drop_last()) {
            StepView::Do(sync, action) => sync.next(replies.last().0, replies.last().1),
            end => end,
        }
    }
}

/// How many queries a step asks for.
pub open spec fn queries_in(step: PrStep) -> int {
    match step {
        StepView::Do(_, ActionView::Graphql { endpoint, query }) => 1,
        _ => 0,
    }
}

/// How many queries a sync has asked for when it was told `replies`.
pub open spec fn queries_asked(
    job: RepoJobView,
    scope: PrScopeView,
    replies: Seq<(ReplyView, NowView)>,
) -> int
    decreases replies.len(),
{
    if replies.len() == 0 {
        queries_in(reached(job, scope, replies))
    } else {
        let before = queries_asked(job, scope, replies.drop_last());
        if reached(job, scope, replies.drop_last()) is Do {
            before + queries_in(reached(job, scope, replies))
        } else {
            before
        }
    }
}

/// However a sync goes, it asks for one query at most, and that is the query for its scope.
/// One that comes to its end has asked for exactly one, unless it had nothing to fetch:
/// that one asks for none.
pub proof fn one_query_per_sync(
    job: RepoJobView,
    scope: PrScopeView,
    replies: Seq<(ReplyView, NowView)>,
)
    ensures
        queries_asked(job, scope, replies) <= 1,
        reached(job, scope, replies) matches StepView::Finished(_) ==> queries_asked(
            job,
            scope,
            replies,
        ) == (if scope == PrScopeView::Targeted(Seq::empty()) {
            0int
        } else {
            1int
        }),
        reached(job, scope, replies) matches StepView::Do(sync, action) ==> {
            &&& sync.job == job
            &&& scope != PrScopeView::Targeted(Seq::empty())
            &&& sync.stage matches PrStageView::Throttle(s) ==> s == scope
            &&& sync.stage matches PrStageView::Query(s) ==> s == scope
            &&& queries_asked(job, scope, replies) == (if sync.stage is Throttle {
                0int
            } else {
                1int
            })
            &&& action matches ActionView::Graphql { endpoint, query } ==> endpoint == endpoint_for(
                job,
                scope,
            ) && query == query_for(job, scope)
        },
    decreases replies.len(),
{
    if replies.len() > 0 {
        one_query_per_sync(job, scope, replies.drop_last());
    }
}

pub(crate) proof fn lemma_joined_part(parts: Seq<Seq<char>>, sep: Seq<char>, i: int) -> (r: (
    Seq<char>,
    Seq<char>,
))
    requires
        0 <= i < parts.len(),
    ensures
        text::joined(parts, sep) == r.0 + parts[i] + r.1,
    decreases parts.len(),
{
    let empty = Seq::<char>::empty();
    if parts.len() == 1 {
        assert(parts[0] =~= empty + parts[0] + empty);
        (empty, empty)
    } else {
        let before = text::joined(parts.drop_last(), sep) + sep;
        if i == parts.len() - 1 {
            assert(text::joined(parts, sep) =~= before + parts[i] + empty);
            (before, empty)
        } else {
            let (a, b) = lemma_joined_part(parts.drop_last(), sep, i);
            assert(parts.drop_last()[i] == parts[i]);
            assert(text::joined(parts, sep) =~= a + parts[i] + (b + sep + parts.last()));
            (a, b + sep + parts.last())
        }
    }
}

/// The one query of a targeted sync asks for every pull request of its list.
pub proof fn every_number_is_asked_for(job: RepoJobView, numbers: Seq<i64>, i: int)
    requires
        0 <= i < numbers.len(),
    ensures
        exists|before: Seq<char>, after: Seq<char>|
            query_for(job, PrScopeView::Targeted(numbers)) == #[trigger] (before + alias_query(
                numbers[i],
            ) + after),
{
    let f = |n: i64| alias_query(n);
    let parts = numbers.map_values(f);
    assert(parts[i] == alias_query(numbers[i]));
    let (a, b) = lemma_joined_part(parts, "\n"@, i);
    let before = repository_query(job) + a;
    let after = b + "\n        }"@ + COST_FIELDS@;
    assert(query_for(job, PrScopeView::Targeted(numbers)) =~= before + alias_query(numbers[i])
        + after);
}

/// Every query asks how many points it costs.
pub proof fn every_query_asks_for_its_cost(job: RepoJobView, scope: PrScopeView)
    ensures
        exists|asked: Seq<char>| query_for(job, scope) == #[trigger] (asked + COST_FIELDS@),
{
    match scope {
        PrScopeView::Full => {
            let asked = repository_query(job)
                + "          pullRequests(first: 100, states: OPEN, orderBy: {field: UPDATED_AT, direction: DESC}) {\n            nodes { "@
                + PR_FIELDS@ + " }\n          }\n        }"@;
            assert(query_for(job, scope) == asked + COST_FIELDS@);
        },
        PrScopeView::Targeted(numbers) => {
            let asked = repository_query(job) + text::joined(
                numbers.map_values(|n: i64| alias_query(n)),
                "\n"@,
            ) + "\n        }"@;
            assert(query_for(job, scope) == asked + COST_FIELDS@);
        },
    }
}

/// Where a pull request is recorded, its labels are replaced: they are all forgotten, and
/// right after that those that it has now are recorded. Nothing else touches the labels.
pub proof fn labels_are_replaced(
    pr_id: i64,
    slug: Seq<char>,
    pr: JsonView,
    is_new: bool,
    now: Seq<char>,
)
    ensures
        ({
            let all = follow_ups(pr_id, slug, pr, is_new, now);
            let k = 1 + reviews_of(pr).len();
            let n = labels_of(pr).len();
            &&& k + 1 + n <= all.len()
            &&& all[k as int] == labels_removal(pr_id)
            &&& forall|i: int|
                0 <= i < n ==> all[k + 1 + i] == label_record(pr_id, #[trigger] labels_of(pr)[i])
            &&& forall|i: int|
                0 <= i < all.len() && !(k <= i <= k + n) ==> (#[trigger] all[i]).sql
                    != DELETE_LABELS@ && all[i].sql != INSERT_LABEL@
        }),
{
    let all = follow_ups(pr_id, slug, pr, is_new, now);
    let k = 1 + reviews_of(pr).len();
    let n = labels_of(pr).len();
    let checks = check_records(pr_id, contexts_of(pr), now);
    reveal_strlit("DELETE FROM pr_label WHERE pr_id = ?1");
    reveal_strlit("INSERT OR IGNORE INTO pr_label (pr_id, label, color) VALUES (?1, ?2, ?3)");
    lemma_check_sql(pr_id, contexts_of(pr), now);
    lemma_other_sql();
    assert(all.len() == k + 1 + n + checks.len());
    assert forall|i: int| 0 <= i < all.len() && !(k <= i <= k + n) implies (#[trigger] all[i]).sql
        != DELETE_LABELS@ && all[i].sql != INSERT_LABEL@ by {
        if i == 0 {
            assert(all[0].sql == db::INSERT_CHANGE@);
        } else if i < k {
            assert(all[i] == review_record(pr_id, reviews_of(pr)[i - 1]));
        } else {
            assert(all[i] == checks[i - k - 1 - n]);
        }
    }
}

proof fn lemma_check_sql(pr_id: i64, contexts: Seq<JsonView>, now: Seq<char>)
    ensures
        forall|i: int|
            0 <= i < check_records(pr_id, contexts, now).len() ==> (#[trigger] check_records(
                pr_id,
                contexts,
                now,
            )[i]).sql == UPSERT_CHECK@,
    decreases contexts.len(),
{
    if contexts.len() > 0 {
        let before = check_records(pr_id, contexts.drop_last(), now);
        let all = check_records(pr_id, contexts, now);
        lemma_check_sql(pr_id, contexts.drop_last(), now);
        assert forall|i: int| 0 <= i < all.len() implies (#[trigger] all[i]).sql
            == UPSERT_CHECK@ by {
            if i < before.len() {
                assert(all[i] == before[i]);
            }
        }
    }
}

proof fn lemma_other_sql()
    ensures
        db::INSERT_CHANGE@ != DELETE_LABELS@,
        db::INSERT_CHANGE@ != INSERT_LABEL@,
        UPSERT_REVIEW@ != DELETE_LABELS@,
        UPSERT_REVIEW@ != INSERT_LABEL@,
        UPSERT_CHECK@ != DELETE_LABELS@,
        UPSERT_CHECK@ != INSERT_LABEL@,
{
    reveal_strlit("DELETE FROM pr_label WHERE pr_id = ?1");
    reveal_strlit("INSERT OR IGNORE INTO pr_label (pr_id, label, color) VALUES (?1, ?2, ?3)");
    reveal_strlit("INSERT INTO change_log (entity_type, entity_id, event, repo_slug, payload_json)
         VALUES (?1, ?2, ?3, ?4, ?5)");
    reveal_strlit("INSERT INTO pr_review (pr_id, gh_id, author, state, body, submitted_at)
         VALUES (?1,?2,?3,?4,?5,?6)
         ON CONFLICT(pr_id, gh_id) DO UPDATE SET
             state        = excluded.state,
             body         = excluded.body,
             submitted_at = excluded.submitted_at");
    reveal_strlit("INSERT INTO pr_status_check (pr_id, context, state, target_url, description, updated_at)
         VALUES (?1,?2,?3,?4,?5,?6)
         ON CONFLICT(pr_id, context) DO UPDATE SET
             state       = excluded.state,
             target_url  = excluded.target_url,
             description = excluded.description,
             updated_at  = excluded.updated_at");
    assert(db::INSERT_CHANGE@.len() != DELETE_LABELS@.len());
    assert(db::INSERT_CHANGE@.len() != INSERT_LABEL@.len());
    assert(UPSERT_REVIEW@.len() != DELETE_LABELS@.len());
    assert(UPSERT_REVIEW@.len() != INSERT_LABEL@.len());
    assert(UPSERT_CHECK@.len() != DELETE_LABELS@.len());
    assert(UPSERT_CHECK@.len() != INSERT_LABEL@.len());
}

} // verus!
