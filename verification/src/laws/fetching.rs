//! What is asked of GitHub for pull requests, and what of the answers is written to the cache.

use vstd::prelude::*;

use crate::json::JsonView;
use crate::laws::values;
use crate::sql::{SqlView, StatementView};
use crate::sync::prs;
use crate::sync::prs::{PrScopeView, PrStageView, PrSyncView, PrWorkView, COST_FIELDS, PR_FIELDS};
use crate::sync::step::{ActionView, NowView, Pool, RepoJobView, ReplyView, StepView};
use crate::{json, laws, number, sql, text};

verus! {

// ---- the queries -------------------------------------------------------------------
/// The query of a full sync asks GitHub for the open pull requests of the repository, the hundred
/// that changed last, and for what is recorded of each of them.
pub proof fn full_query_asks_for_open_prs(job: RepoJobView)
    ensures
        ({
            let query = prs::query_for(job, PrScopeView::Full);
            &&& laws::opens(
                query,
                "{ repository(owner: \""@ + job.owner + "\", name: \""@ + job.name + "\") {"@,
            )
            &&& laws::says(
                query,
                "pullRequests(first: 100, states: OPEN, orderBy: {field: UPDATED_AT, direction: DESC}) {"@,
            )
            &&& query == "{ repository(owner: \""@ + job.owner + "\", name: \""@ + job.name
                + "\") {\n          pullRequests(first: 100, states: OPEN, orderBy: {field: UPDATED_AT, direction: DESC}) {\n            nodes { "@
                + PR_FIELDS@ + " }\n          }\n        }\n        rateLimit { cost } }"@
        }),
{
    let query = prs::query_for(job, PrScopeView::Full);
    let phrase =
        "pullRequests(first: 100, states: OPEN, orderBy: {field: UPDATED_AT, direction: DESC}) {"@;
    let middle =
        "          pullRequests(first: 100, states: OPEN, orderBy: {field: UPDATED_AT, direction: DESC}) {\n            nodes { "@;
    let whole =
        "\") {\n          pullRequests(first: 100, states: OPEN, orderBy: {field: UPDATED_AT, direction: DESC}) {\n            nodes { "@;
    let front = "{ repository(owner: \""@ + job.owner + "\", name: \""@ + job.name;
    let end = " }\n          }\n        }\n        rateLimit { cost } }"@;
    let rest = PR_FIELDS@ + end;
    lemma_full_literals();
    assert(query =~= front + "\") {\n"@ + middle + PR_FIELDS@ + " }\n          }\n        }"@
        + COST_FIELDS@);
    assert(query =~= front + ("\") {\n"@ + middle) + PR_FIELDS@ + (" }\n          }\n        }"@
        + COST_FIELDS@));
    assert(query == front + whole + PR_FIELDS@ + end);
    let (a, b) = (whole.skip(4), whole.skip(15int + phrase.len()));
    assert(query =~= (front + "\") {"@) + (a + rest)) by {
        assert(front + whole + PR_FIELDS@ + end =~= front + whole + rest);
        assert(front + ("\") {"@ + a) + rest =~= (front + "\") {"@) + (a + rest));
    }
    laws::lemma_opens(query, front + "\") {"@, a + rest);
    assert(query =~= (front + whole.take(15)) + phrase + (b + rest)) by {
        assert(front + whole + PR_FIELDS@ + end =~= front + whole + rest);
        assert(front + (whole.take(15) + phrase + b) + rest =~= (front + whole.take(15)) + phrase
            + (b + rest));
    }
    laws::lemma_says(query, front + whole.take(15), phrase, b + rest);
}

proof fn lemma_full_literals()
    ensures
        ({
            let phrase =
                "pullRequests(first: 100, states: OPEN, orderBy: {field: UPDATED_AT, direction: DESC}) {"@;
            let middle =
                "          pullRequests(first: 100, states: OPEN, orderBy: {field: UPDATED_AT, direction: DESC}) {\n            nodes { "@;
            let whole =
                "\") {\n          pullRequests(first: 100, states: OPEN, orderBy: {field: UPDATED_AT, direction: DESC}) {\n            nodes { "@;
            &&& whole == "\") {\n"@ + middle
            &&& whole == "\") {"@ + whole.skip(4)
            &&& whole == whole.take(15) + phrase + whole.skip(15int + phrase.len())
            &&& " }\n          }\n        }\n        rateLimit { cost } }"@
                == " }\n          }\n        }"@ + "\n        rateLimit { cost } }"@
        }),
{
    reveal_strlit("\") {\n");
    reveal_strlit("\") {");
    reveal_strlit(
        "          pullRequests(first: 100, states: OPEN, orderBy: {field: UPDATED_AT, direction: DESC}) {\n            nodes { ",
    );
    reveal_strlit(
        "\") {\n          pullRequests(first: 100, states: OPEN, orderBy: {field: UPDATED_AT, direction: DESC}) {\n            nodes { ",
    );
    reveal_strlit(
        "pullRequests(first: 100, states: OPEN, orderBy: {field: UPDATED_AT, direction: DESC}) {",
    );
    reveal_strlit(" }\n          }\n        }");
    reveal_strlit(" }\n          }\n        }\n        rateLimit { cost } }");
    reveal_strlit("\n        rateLimit { cost } }");
}

/// What a query asks of every pull request: all that is recorded of it, of its reviews, of its
/// labels, and of the checks of its last commit.
pub proof fn everything_that_is_recorded_is_asked_for()
    ensures
        PR_FIELDS@ == "number title state isDraft body
              headRefName headRefOid baseRefName mergeable
              additions deletions changedFiles
              createdAt updatedAt mergedAt closedAt
              databaseId id
              author { login }
              reviews(last: 20) {
                nodes { databaseId author { login } state body submittedAt }
              }
              labels(first: 10) {
                nodes { name color }
              }
              commits(last: 1) {
                nodes {
                  commit {
                    statusCheckRollup {
                      contexts(first: 50) {
                        nodes {
                          __typename
                          ... on StatusContext { context state targetUrl description }
                          ... on CheckRun { name conclusion detailsUrl }
                        }
                      }
                    }
                  }
                }
              }"@,
        COST_FIELDS@ == "\n        rateLimit { cost } }"@,
{
}

/// The part of a targeted query for a pull request: under the name `pr_` and its number, the pull
/// request of the repository that has this number.
pub open spec fn part_for(n: i64) -> Seq<char> {
    "  pr_"@ + number::int_text(n as int) + ": pullRequest(number: "@ + number::int_text(n as int)
        + ") {\n    "@ + PR_FIELDS@ + "\n  }"@
}

/// The query of a targeted sync asks, for each number, for the pull request with that very number,
/// under a name that has the number in it.
pub proof fn targeted_query_asks_for_each_number(job: RepoJobView, numbers: Seq<i64>, i: int)
    requires
        0 <= i < numbers.len(),
    ensures
        laws::says(
            prs::query_for(job, PrScopeView::Targeted(numbers)),
            "pr_"@ + number::int_text(numbers[i] as int) + ": pullRequest(number: "@
                + number::int_text(numbers[i] as int) + ") {"@,
        ),
{
    let query = prs::query_for(job, PrScopeView::Targeted(numbers));
    let parts = numbers.map_values(|n: i64| part_for(n));
    targeted_query_asks_for_nothing_else(job, numbers);
    let front = "{ repository(owner: \""@ + job.owner + "\", name: \""@ + job.name + "\") {\n"@;
    let end = "\n        }\n        rateLimit { cost } }"@;
    let (a, b) = prs::lemma_joined_part(parts, "\n"@, i);
    let n = number::int_text(numbers[i] as int);
    let phrase = "pr_"@ + n + ": pullRequest(number: "@ + n + ") {"@;
    let rest = "\n    "@ + PR_FIELDS@ + "\n  }"@;
    lemma_part(numbers[i]);
    assert(parts[i] == part_for(numbers[i]));
    lemma_within(front, a, "  "@, phrase, rest, b, end);
    laws::lemma_says(query, front + a + "  "@, phrase, rest + b + end);
}

proof fn lemma_within(
    front: Seq<char>,
    a: Seq<char>,
    x: Seq<char>,
    y: Seq<char>,
    z: Seq<char>,
    b: Seq<char>,
    end: Seq<char>,
)
    ensures
        front + (a + (x + y + z) + b) + end == (front + a + x) + y + (z + b + end),
{
    assert(front + (a + (x + y + z) + b) + end =~= (front + a + x) + y + (z + b + end));
}

/// The query of a targeted sync is about the repository, and asks for the pull requests of its
/// list, one after the other, and for nothing else but its cost.
pub proof fn targeted_query_asks_for_nothing_else(job: RepoJobView, numbers: Seq<i64>)
    ensures
        prs::query_for(job, PrScopeView::Targeted(numbers)) == "{ repository(owner: \""@ + job.owner
            + "\", name: \""@ + job.name + "\") {\n"@ + text::joined(
            numbers.map_values(|n: i64| part_for(n)),
            "\n"@,
        ) + "\n        }\n        rateLimit { cost } }"@,
{
    let f = |n: i64| part_for(n);
    let g = |n: i64| prs::alias_query(n);
    assert forall|n: i64| #[trigger] part_for(n) == prs::alias_query(n) by {
        lemma_part(n);
    }
    assert(numbers.map_values(f) =~= numbers.map_values(g));
    let front = "{ repository(owner: \""@ + job.owner + "\", name: \""@ + job.name + "\") {\n"@;
    let all = text::joined(numbers.map_values(g), "\n"@);
    lemma_targeted_literals();
    assert(front + all + "\n        }"@ + COST_FIELDS@ =~= front + all + ("\n        }"@
        + COST_FIELDS@));
}

proof fn lemma_targeted_literals()
    ensures
        "  pr_"@ == "  "@ + "pr_"@,
        ") {\n    "@ == ") {"@ + "\n    "@,
        "\n        }\n        rateLimit { cost } }"@ == "\n        }"@
            + "\n        rateLimit { cost } }"@,
{
    reveal_strlit("  pr_");
    reveal_strlit("  ");
    reveal_strlit("pr_");
    reveal_strlit(") {\n    ");
    reveal_strlit(") {");
    reveal_strlit("\n    ");
    reveal_strlit("\n        }");
    reveal_strlit("\n        rateLimit { cost } }");
    reveal_strlit("\n        }\n        rateLimit { cost } }");
    assert("  pr_"@ =~= "  "@ + "pr_"@);
    assert(") {\n    "@ =~= ") {"@ + "\n    "@);
    assert("\n        }\n        rateLimit { cost } }"@ =~= "\n        }"@
        + "\n        rateLimit { cost } }"@);
}

proof fn lemma_part(n: i64)
    ensures
        part_for(n) == prs::alias_query(n),
        part_for(n) == "  "@ + ("pr_"@ + number::int_text(n as int) + ": pullRequest(number: "@
            + number::int_text(n as int) + ") {"@) + ("\n    "@ + PR_FIELDS@ + "\n  }"@),
{
    lemma_targeted_literals();
    let d = number::int_text(n as int);
    let asked = ": pullRequest(number: "@;
    assert(("  "@ + "pr_"@) + d + asked + d + (") {"@ + "\n    "@) + PR_FIELDS@ + "\n  }"@ =~= "  "@
        + ("pr_"@ + d + asked + d + ") {"@) + ("\n    "@ + PR_FIELDS@ + "\n  }"@));
    assert(("  "@ + "pr_"@) + d + asked + d + ") {\n    "@ + PR_FIELDS@ + "\n  }"@ =~= "  "@ + ("pr_"@
        + d) + asked + d + ") {\n    "@ + PR_FIELDS@ + "\n  }"@);
}

/// The queries for two pull requests differ.
pub proof fn different_numbers_are_asked_for_differently(a: i64, b: i64)
    requires
        a != b,
    ensures
        prs::alias(a) != prs::alias(b),
        prs::alias(a) == "pr_"@ + number::int_text(a as int),
{
    if prs::alias(a) == prs::alias(b) {
        let k = "pr_"@.len() as int;
        assert(number::int_text(a as int) =~= prs::alias(a).skip(k));
        assert(number::int_text(b as int) =~= prs::alias(b).skip(k));
        values::numbers_are_told_apart(a, b);
    }
}

/// A sync of everything is recorded under another name than one of some pull requests, and each
/// under the full name of the repository.
pub proof fn queries_are_recorded_under_the_repository(job: RepoJobView, numbers: Seq<i64>)
    ensures
        prs::endpoint_for(job, PrScopeView::Full) == "graphql:prs:full/"@ + (job.owner.push('/')
            + job.name),
        prs::endpoint_for(job, PrScopeView::Targeted(numbers)) == "graphql:prs:targeted/"@ + (
        job.owner.push('/') + job.name),
{
    values::full_name_is_owner_slash_name(job.owner, job.name);
}

// ---- the answers -------------------------------------------------------------------
/// Every pull request in the answer to a full query is taken up, in the order of the answer, under
/// its own number; an answer without a list is passed over.
pub proof fn every_open_pr_of_the_answer_is_taken_up(
    data: JsonView,
    repository: JsonView,
    list: JsonView,
    nodes: Seq<JsonView>,
    i: int,
    n: i64,
)
    requires
        data.get("repository"@) == Some(repository),
        repository.get("pullRequests"@) == Some(list),
        list.get("nodes"@) == Some(JsonView::Array(nodes)),
        0 <= i < nodes.len(),
    ensures
        prs::work_of(PrScopeView::Full, data) matches Some(work) && work.len() == nodes.len()
            && work[i].0 == nodes[i] && (nodes[i].get("number"@) == Some(JsonView::Int(n))
            ==> work[i].1 == n),
{
}

/// Of the answer to a targeted query, each pull request that was asked for is taken up under the
/// number that it was asked for by, where the answer has it, and no other.
pub proof fn every_pr_that_was_asked_for_is_taken_up(
    data: JsonView,
    repository: JsonView,
    numbers: Seq<i64>,
    pr: JsonView,
    n: i64,
)
    requires
        data.get("repository"@) == Some(repository),
    ensures
        prs::work_of(PrScopeView::Targeted(numbers), data) matches Some(work) && (work.contains(
            (pr, n),
        ) <==> numbers.contains(n) && !(pr is Null) && repository.get(
            "pr_"@ + number::int_text(n as int),
        ) == Some(pr)),
{
    lemma_targeted(repository, numbers, pr, n);
}

proof fn lemma_targeted(repository: JsonView, numbers: Seq<i64>, pr: JsonView, n: i64)
    ensures
        prs::targeted_work(repository, numbers).contains((pr, n)) <==> numbers.contains(n) && !(
        pr is Null) && repository.get("pr_"@ + number::int_text(n as int)) == Some(pr),
    decreases numbers.len(),
{
    let work = prs::targeted_work(repository, numbers);
    if numbers.len() > 0 {
        let fewer = numbers.drop_last();
        let before = prs::targeted_work(repository, fewer);
        lemma_targeted(repository, fewer, pr, n);
        if numbers.contains(n) {
            let k = choose|k: int| 0 <= k < numbers.len() && numbers[k] == n;
            if k < fewer.len() {
                assert(fewer[k] == n);
            }
        }
        if fewer.contains(n) {
            let k = choose|k: int| 0 <= k < fewer.len() && fewer[k] == n;
            assert(numbers[k] == n);
        }
        assert(numbers[numbers.len() - 1] == numbers.last());
        if work.contains((pr, n)) {
            let k = choose|k: int| 0 <= k < work.len() && work[k] == (pr, n);
            if k < before.len() {
                assert(before[k] == (pr, n));
            }
        }
        if before.contains((pr, n)) {
            let k = choose|k: int| 0 <= k < before.len() && before[k] == (pr, n);
            assert(work[k] == (pr, n));
        }
        if numbers.last() == n && !(pr is Null) && repository.get(
            "pr_"@ + number::int_text(n as int),
        ) == Some(pr) {
            assert(work[work.len() - 1] == (pr, n));
        }
    }
}

// ---- what is written ---------------------------------------------------------------
/// The statement that records a pull request: each column has what the pull request says of
/// itself under the member that stands for it.
pub proof fn columns_of_a_recorded_pr(repo_id: i64, pr: JsonView)
    ensures
        ({
            let s = prs::pr_record(repo_id, pr);
            let p = s.params;
            &&& s.sql == "INSERT INTO pull_request
         (repo_id, number, gh_node_id, state, title, author, head_ref, head_sha,
          base_ref, mergeable, draft, additions, deletions, changed_files,
          created_at, updated_at, merged_at, closed_at, body, raw_json)
         VALUES (?1,?2,?3,?4,?5,?6,?7,?8,?9,?10,?11,?12,?13,?14,?15,?16,?17,?18,?19,?20)
         ON CONFLICT(repo_id, number) DO UPDATE SET
             gh_node_id    = excluded.gh_node_id,
             state         = excluded.state,
             title         = excluded.title,
             author        = excluded.author,
             head_ref      = excluded.head_ref,
             head_sha      = excluded.head_sha,
             base_ref      = excluded.base_ref,
             mergeable     = excluded.mergeable,
             draft         = excluded.draft,
             additions     = excluded.additions,
             deletions     = excluded.deletions,
             changed_files = excluded.changed_files,
             updated_at    = excluded.updated_at,
             merged_at     = excluded.merged_at,
             closed_at     = excluded.closed_at,
             body          = excluded.body,
             raw_json      = excluded.raw_json
         RETURNING id"@
            &&& p.len() == 20
            &&& p[0] == SqlView::Integer(repo_id)
            &&& pr.at("number"@) matches JsonView::Int(n) ==> p[1] == SqlView::Integer(n)
            &&& p[2] == sql::text_or_null(pr.at("id"@).as_str())
            &&& p[4] == SqlView::Text(pr.at("title"@).str_or(""@))
            &&& p[5] == sql::text_or_null(pr.at("author"@).at("login"@).as_str())
            &&& p[6] == sql::text_or_null(pr.at("headRefName"@).as_str())
            &&& p[7] == sql::text_or_null(pr.at("headRefOid"@).as_str())
            &&& p[8] == sql::text_or_null(pr.at("baseRefName"@).as_str())
            &&& p[9] == sql::text_or_null(pr.at("mergeable"@).as_str())
            &&& p[10] == SqlView::Integer(
                if pr.at("isDraft"@) == JsonView::Bool(true) {
                    1
                } else {
                    0
                },
            )
            &&& p[11] == sql::integer_or_null(pr.at("additions"@).as_i64())
            &&& p[12] == sql::integer_or_null(pr.at("deletions"@).as_i64())
            &&& p[13] == sql::integer_or_null(pr.at("changedFiles"@).as_i64())
            &&& p[14] == SqlView::Text(pr.at("createdAt"@).str_or(""@))
            &&& p[15] == SqlView::Text(pr.at("updatedAt"@).str_or(""@))
            &&& p[16] == sql::text_or_null(pr.at("mergedAt"@).as_str())
            &&& p[17] == sql::text_or_null(pr.at("closedAt"@).as_str())
            &&& p[18] == sql::text_or_null(pr.at("body"@).as_str())
            &&& p[19] == SqlView::Text(json::json_text(pr))
        }),
{
}

/// A pull request that GitHub calls merged is recorded as merged, one that it calls closed as
/// closed, and any other as open.
pub proof fn recorded_state_is_that_of_github(repo_id: i64, pr: JsonView)
    ensures
        prs::pr_record(repo_id, pr).params[3] == SqlView::Text(
            if pr.at("state"@) == JsonView::Str("MERGED"@) {
                "merged"@
            } else if pr.at("state"@) == JsonView::Str("CLOSED"@) {
                "closed"@
            } else {
                "open"@
            },
        ),
{
    reveal_strlit("OPEN");
    reveal_strlit("MERGED");
    reveal_strlit("CLOSED");
    assert("OPEN"@.len() != "MERGED"@.len() && "OPEN"@.len() != "CLOSED"@.len());
}

/// The columns of a recorded review.
pub proof fn columns_of_a_recorded_review(pr_id: i64, rv: JsonView)
    ensures
        ({
            let s = prs::review_record(pr_id, rv);
            let p = s.params;
            &&& s.sql == "INSERT INTO pr_review (pr_id, gh_id, author, state, body, submitted_at)
         VALUES (?1,?2,?3,?4,?5,?6)
         ON CONFLICT(pr_id, gh_id) DO UPDATE SET
             state        = excluded.state,
             body         = excluded.body,
             submitted_at = excluded.submitted_at"@
            &&& p.len() == 6
            &&& p[0] == SqlView::Integer(pr_id)
            &&& rv.at("databaseId"@) matches JsonView::Int(n) ==> p[1] == SqlView::Integer(n)
            &&& !(rv.at("databaseId"@) is Int) ==> p[1] == SqlView::Integer(0)
            &&& p[2] == sql::text_or_null(rv.at("author"@).at("login"@).as_str())
            &&& p[3] == SqlView::Text(rv.at("state"@).str_or(""@))
            &&& p[4] == sql::text_or_null(rv.at("body"@).as_str())
            &&& p[5] == sql::text_or_null(rv.at("submittedAt"@).as_str())
        }),
{
}

/// The columns of a recorded label, and the statement that forgets the labels.
pub proof fn columns_of_a_recorded_label(pr_id: i64, label: JsonView)
    ensures
        prs::label_record(pr_id, label).sql == "INSERT OR IGNORE INTO pr_label (pr_id, label, color) VALUES (?1, ?2, ?3)"@,
        prs::label_record(pr_id, label).params == seq![
            SqlView::Integer(pr_id),
            sql::text_or_null(label.at("name"@).as_str()),
            sql::text_or_null(label.at("color"@).as_str()),
        ],
        prs::labels_removal(pr_id).sql == "DELETE FROM pr_label WHERE pr_id = ?1"@,
        prs::labels_removal(pr_id).params == seq![SqlView::Integer(pr_id)],
{
}

/// The columns of a recorded status check: of a status its context and state, of a run of checks
/// its name and conclusion, which is pending while there is none. Nothing else is recorded.
pub proof fn columns_of_a_recorded_check(pr_id: i64, ctx: JsonView, now: Seq<char>)
    ensures
        ({
            let r = prs::check_record(pr_id, ctx, now);
            let status = ctx.at("__typename"@) == JsonView::Str("StatusContext"@);
            let run = ctx.at("__typename"@) == JsonView::Str("CheckRun"@);
            &&& r is Some <==> status || run
            &&& r matches Some(s) ==> s.sql == "INSERT INTO pr_status_check (pr_id, context, state, target_url, description, updated_at)
         VALUES (?1,?2,?3,?4,?5,?6)
         ON CONFLICT(pr_id, context) DO UPDATE SET
             state       = excluded.state,
             target_url  = excluded.target_url,
             description = excluded.description,
             updated_at  = excluded.updated_at"@
                && s.params.len() == 6 && s.params[0] == SqlView::Integer(pr_id) && s.params[5]
                == SqlView::Text(now)
            &&& status ==> (r matches Some(s) && s.params[1] == SqlView::Text(
                ctx.at("context"@).str_or(""@),
            ) && s.params[2] == SqlView::Text(ctx.at("state"@).str_or(""@)) && s.params[3]
                == sql::text_or_null(ctx.at("targetUrl"@).as_str()) && s.params[4]
                == sql::text_or_null(ctx.at("description"@).as_str()))
            &&& run ==> (r matches Some(s) && s.params[1] == SqlView::Text(
                ctx.at("name"@).str_or(""@),
            ) && s.params[2] == SqlView::Text(ctx.at("conclusion"@).str_or("pending"@))
                && s.params[3] == sql::text_or_null(ctx.at("detailsUrl"@).as_str()) && s.params[4]
                == SqlView::Null)
        }),
{
    reveal_strlit("StatusContext");
    reveal_strlit("CheckRun");
    assert("StatusContext"@.len() != "CheckRun"@.len());
}

/// What is done for a pull request once it is recorded under an id: the change is logged, as an
/// insertion where it was not there and as an update where it was; each of its reviews is
/// recorded; its labels are forgotten, and each that it has is recorded; and so is each check of
/// the first commit that the answer has. All of it goes under that id.
pub proof fn what_follows_a_recorded_pr(
    pr_id: i64,
    slug: Seq<char>,
    pr: JsonView,
    is_new: bool,
    now: Seq<char>,
    reviews: Seq<JsonView>,
    labels: Seq<JsonView>,
    commits: Seq<JsonView>,
    checks: Seq<JsonView>,
)
    requires
        pr.at("reviews"@).at("nodes"@) == JsonView::Array(reviews),
        pr.at("labels"@).at("nodes"@) == JsonView::Array(labels),
        pr.at("commits"@).at("nodes"@) == JsonView::Array(commits),
        commits.len() > 0,
        commits[0].at("commit"@).at("statusCheckRollup"@).at("contexts"@).at("nodes"@)
            == JsonView::Array(checks),
    ensures
        ({
            let all = prs::follow_ups(pr_id, slug, pr, is_new, now);
            let n = reviews.len() as int;
            let m = labels.len() as int;
            &&& all.len() >= 2 + n + m
            &&& all[0].sql == "INSERT INTO change_log (entity_type, entity_id, event, repo_slug, payload_json)
         VALUES (?1, ?2, ?3, ?4, ?5)"@
            &&& all[0].params == seq![
                SqlView::Text("pull_request"@),
                SqlView::Integer(pr_id),
                SqlView::Text(
                    if is_new {
                        "inserted"@
                    } else {
                        "updated"@
                    },
                ),
                SqlView::Text(slug),
                SqlView::Null,
            ]
            &&& forall|i: int|
                0 <= i < n ==> #[trigger] all[1 + i] == prs::review_record(pr_id, reviews[i])
            &&& all[1 + n] == prs::labels_removal(pr_id)
            &&& forall|i: int|
                0 <= i < m ==> #[trigger] all[2 + n + i] == prs::label_record(pr_id, labels[i])
            &&& forall|i: int|
                0 <= i < checks.len() && prs::check_record(pr_id, #[trigger] checks[i], now) is Some
                    ==> all.skip(2 + n + m).contains(
                    prs::check_record(pr_id, checks[i], now)->Some_0,
                )
        }),
{
    let all = prs::follow_ups(pr_id, slug, pr, is_new, now);
    let n = reviews.len() as int;
    let m = labels.len() as int;
    let records = prs::check_records(pr_id, checks, now);
    assert(all.len() == 2 + n + m + records.len());
    assert(all.skip(2 + n + m) =~= records);
    assert(all[0].params =~= seq![
        SqlView::Text("pull_request"@),
        SqlView::Integer(pr_id),
        SqlView::Text(
            if is_new {
                "inserted"@
            } else {
                "updated"@
            },
        ),
        SqlView::Text(slug),
        SqlView::Null,
    ]);
    assert forall|i: int|
        0 <= i < checks.len() && prs::check_record(
            pr_id,
            #[trigger] checks[i],
            now,
        ) is Some implies records.contains(prs::check_record(pr_id, checks[i], now)->Some_0) by {
        lemma_check_is_there(pr_id, checks, now, i);
    }
}

proof fn lemma_check_is_there(pr_id: i64, checks: Seq<JsonView>, now: Seq<char>, i: int)
    requires
        0 <= i < checks.len(),
        prs::check_record(pr_id, checks[i], now) is Some,
    ensures
        prs::check_records(pr_id, checks, now).contains(
            prs::check_record(pr_id, checks[i], now)->Some_0,
        ),
    decreases checks.len(),
{
    let all = prs::check_records(pr_id, checks, now);
    let one = prs::check_record(pr_id, checks[i], now)->Some_0;
    if i == checks.len() - 1 {
        assert(all[all.len() - 1] == one);
    } else {
        let fewer = checks.drop_last();
        assert(fewer[i] == checks[i]);
        lemma_check_is_there(pr_id, fewer, now, i);
        let before = prs::check_records(pr_id, fewer, now);
        let k = choose|k: int| 0 <= k < before.len() && before[k] == one;
        assert(all[k] == one);
    }
}

// ---- the sync as a whole -----------------------------------------------------------
/// A sync waits until there are points left for queries, then asks its query, then asks which
/// pull requests of the repository are recorded.
pub proof fn query_comes_once_there_are_points(
    job: RepoJobView,
    scope: PrScopeView,
    data: JsonView,
    now: NowView,
)
    requires
        scope != PrScopeView::Targeted(Seq::empty()),
        prs::work_of(scope, data) is Some,
    ensures
        ({
            let waiting = PrSyncView { job, stage: PrStageView::Throttle(scope) };
            let asking = PrSyncView { job, stage: PrStageView::Query(scope) };
            let looking = PrSyncView {
                job,
                stage: PrStageView::Existing(prs::work_of(scope, data)->Some_0),
            };
            &&& PrSyncView::start(job, scope) == StepView::<PrSyncView, ()>::Do(
                waiting,
                ActionView::Throttle(Pool::Graphql),
            )
            &&& waiting.next(ReplyView::Done, now) == StepView::<PrSyncView, ()>::Do(
                asking,
                ActionView::Graphql {
                    endpoint: prs::endpoint_for(job, scope),
                    query: prs::query_for(job, scope),
                },
            )
            &&& asking.next(ReplyView::Data(data), now) == StepView::<PrSyncView, ()>::Do(
                looking,
                ActionView::Query(
                    StatementView {
                        sql: "SELECT number FROM pull_request WHERE repo_id=?1"@,
                        params: seq![SqlView::Integer(job.repo_id)],
                    },
                ),
            )
        }),
{
}

/// The statements that a sync runs for the pull requests from the `i`-th on, where the database
/// gives the ids `ids` to them: for each the one that records it, then all that follow under the
/// id that it was given.
pub open spec fn statements_for(
    job: RepoJobView,
    prs: Seq<(JsonView, i64)>,
    existing: Seq<i64>,
    ids: Seq<i64>,
    now: Seq<char>,
    i: int,
) -> Seq<StatementView>
    decreases prs.len() - i,
{
    if i < 0 || i >= prs.len() {
        Seq::empty()
    } else {
        let (pr, number) = prs[i];
        seq![prs::pr_record(job.repo_id, pr)] + prs::follow_ups(
            ids[i],
            job.owner.push('/') + job.name,
            pr,
            !existing.contains(number),
            now,
        ) + statements_for(job, prs, existing, ids, now, i + 1)
    }
}

/// The statements that a sync runs from a step on, when each that records a pull request is
/// answered with the id for it and each other one succeeds.
pub open spec fn statements_run(
    step: StepView<PrSyncView, ()>,
    ids: Seq<i64>,
    now: NowView,
    n: nat,
) -> Seq<StatementView>
    decreases n,
{
    if n == 0 {
        Seq::empty()
    } else {
        match step {
            StepView::Do(sync, ActionView::Query(s)) => seq![s] + statements_run(
                sync.next(ReplyView::Rows(seq![seq![SqlView::Integer(ids[0])]]), now),
                ids.skip(1),
                now,
                (n - 1) as nat,
            ),
            StepView::Do(sync, ActionView::Execute(s)) => seq![s] + statements_run(
                sync.next(ReplyView::Executed { changed: 1, row_id: 0 }, now),
                ids,
                now,
                (n - 1) as nat,
            ),
            _ => Seq::empty(),
        }
    }
}

/// Every pull request of the answer is written to the cache, with all that belongs to it, one
/// after the other and each under its own id; and nothing else is.
pub proof fn every_pr_is_written(
    job: RepoJobView,
    prs: Seq<(JsonView, i64)>,
    existing: Seq<i64>,
    ids: Seq<i64>,
    now: NowView,
    n: nat,
)
    requires
        ids.len() == prs.len(),
        n > statements_for(job, prs, existing, ids, now.text, 0).len(),
    ensures
        statements_run(
            PrSyncView { job, stage: PrStageView::Existing(prs) }.next(
                ReplyView::Rows(existing.map_values(|k: i64| seq![SqlView::Integer(k)])),
                now,
            ),
            ids,
            now,
            n,
        ) == statements_for(job, prs, existing, ids, now.text, 0),
{
    values::every_row_is_read(existing, Seq::empty());
    lemma_written_from(job, prs, existing, ids, now, n, 0);
    assert(ids.skip(0) =~= ids);
}

proof fn lemma_written_from(
    job: RepoJobView,
    prs: Seq<(JsonView, i64)>,
    existing: Seq<i64>,
    ids: Seq<i64>,
    now: NowView,
    n: nat,
    i: int,
)
    requires
        ids.len() == prs.len(),
        0 <= i <= prs.len(),
        n > statements_for(job, prs, existing, ids, now.text, i).len(),
    ensures
        statements_run(
            PrSyncView::advance(job, PrWorkView { prs, next: i, existing }),
            ids.skip(i),
            now,
            n,
        ) == statements_for(job, prs, existing, ids, now.text, i),
    decreases prs.len() - i, 0nat,
{
    if i < prs.len() {
        let (pr, number) = prs[i];
        let is_new = !existing.contains(number);
        let work = PrWorkView { prs, next: i + 1, existing };
        values::full_name_is_owner_slash_name(job.owner, job.name);
        let slug = job.owner.push('/') + job.name;
        let rest = prs::follow_ups(ids[i], slug, pr, is_new, now.text);
        let upserting = PrSyncView { job, stage: PrStageView::Upsert { pr, is_new, work } };
        let rows = seq![seq![SqlView::Integer(ids.skip(i)[0])]];
        assert(rows[0][0] == SqlView::Integer(ids[i]));
        assert(upserting.next(ReplyView::Rows(rows), now) == PrSyncView::follow(job, rest, work));
        let after = statements_for(job, prs, existing, ids, now.text, i + 1);
        let all = statements_for(job, prs, existing, ids, now.text, i);
        assert(all.len() == 1 + rest.len() + after.len());
        lemma_followed(job, rest, prs, existing, ids, now, (n - 1) as nat, i + 1);
        assert(ids.skip(i).skip(1) =~= ids.skip(i + 1));
        assert(all =~= seq![prs::pr_record(job.repo_id, pr)] + (rest + after));
    }
}

proof fn lemma_followed(
    job: RepoJobView,
    rest: Seq<StatementView>,
    prs: Seq<(JsonView, i64)>,
    existing: Seq<i64>,
    ids: Seq<i64>,
    now: NowView,
    n: nat,
    i: int,
)
    requires
        ids.len() == prs.len(),
        0 <= i <= prs.len(),
        n > rest.len() + statements_for(job, prs, existing, ids, now.text, i).len(),
    ensures
        statements_run(
            PrSyncView::follow(job, rest, PrWorkView { prs, next: i, existing }),
            ids.skip(i),
            now,
            n,
        ) == rest + statements_for(job, prs, existing, ids, now.text, i),
    decreases prs.len() - i, rest.len() + 1,
{
    let after = statements_for(job, prs, existing, ids, now.text, i);
    if rest.len() == 0 {
        lemma_written_from(job, prs, existing, ids, now, n, i);
        assert(rest + after =~= after);
    } else {
        lemma_followed(job, rest.skip(1), prs, existing, ids, now, (n - 1) as nat, i);
        assert(rest + after =~= seq![rest[0]] + (rest.skip(1) + after));
    }
}

} // verus!
