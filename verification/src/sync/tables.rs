//! What the tables of pull requests hold after the statements that record one, and what holds of
//! them however often that is done.

use vstd::prelude::*;

use crate::json::JsonView;
use crate::sql::{SqlView, StatementView};
use crate::sync::prs;
use crate::sync::prs::{DELETE_LABELS, INSERT_LABEL, UPSERT_CHECK, UPSERT_PR, UPSERT_REVIEW};
use crate::{db, sql};

verus! {

// ---- the tables --------------------------------------------------------------------
/// A row of the table of pull requests, but for the repository and the number.
pub struct PrRow {
    pub id: i64,
    pub gh_node_id: SqlView,
    pub state: SqlView,
    pub title: SqlView,
    pub author: SqlView,
    pub head_ref: SqlView,
    pub head_sha: SqlView,
    pub base_ref: SqlView,
    pub mergeable: SqlView,
    pub draft: SqlView,
    pub additions: SqlView,
    pub deletions: SqlView,
    pub changed_files: SqlView,
    pub created_at: SqlView,
    pub updated_at: SqlView,
    pub merged_at: SqlView,
    pub closed_at: SqlView,
    pub body: SqlView,
    pub raw_json: SqlView,
}

/// A row of the table of reviews, but for the ids.
pub struct ReviewRow {
    pub author: SqlView,
    pub state: SqlView,
    pub body: SqlView,
    pub submitted_at: SqlView,
}

/// A row of the table of status checks, but for the pull request and the context.
pub struct CheckRow {
    pub state: SqlView,
    pub target_url: SqlView,
    pub description: SqlView,
    pub updated_at: SqlView,
}

/// The tables: pull requests by repository and number, and what belongs to them by the id of the
/// pull request and what tells it apart there, together with the changes that were logged.
#[verifier::ext_equal]
pub struct PrTables {
    pub prs: Map<(SqlView, SqlView), PrRow>,
    pub reviews: Map<(SqlView, SqlView), ReviewRow>,
    pub labels: Map<(SqlView, SqlView), SqlView>,
    pub checks: Map<(SqlView, SqlView), CheckRow>,
    pub logged: Seq<StatementView>,
}

/// The row for a pull request: one that is there keeps its id and the time of its creation.
/// A new one has the id that the database gives it.
pub open spec fn pr_row(old: Option<PrRow>, p: Seq<SqlView>, new_id: i64) -> PrRow {
    let given = PrRow {
        id: new_id,
        gh_node_id: p[2],
        state: p[3],
        title: p[4],
        author: p[5],
        head_ref: p[6],
        head_sha: p[7],
        base_ref: p[8],
        mergeable: p[9],
        draft: p[10],
        additions: p[11],
        deletions: p[12],
        changed_files: p[13],
        created_at: p[14],
        updated_at: p[15],
        merged_at: p[16],
        closed_at: p[17],
        body: p[18],
        raw_json: p[19],
    };
    match old {
        Some(row) => PrRow { id: row.id, created_at: row.created_at, ..given },
        None => given,
    }
}

/// The row for a review: one that is there keeps its author.
pub open spec fn review_row(old: Option<ReviewRow>, p: Seq<SqlView>) -> ReviewRow {
    ReviewRow {
        author: match old {
            Some(row) => row.author,
            None => p[2],
        },
        state: p[3],
        body: p[4],
        submitted_at: p[5],
    }
}

/// What a table holds under a key, if it holds anything.
pub open spec fn held<K, R>(table: Map<K, R>, key: K) -> Option<R> {
    if table.dom().contains(key) {
        Some(table[key])
    } else {
        None
    }
}

/// The tables after a statement. A label that is there already, and one without a name, is passed
/// over.
pub open spec fn written(t: PrTables, s: StatementView, new_id: i64) -> PrTables {
    let p = s.params;
    let key = (p[0], p[1]);
    if s.sql == UPSERT_PR@ {
        PrTables { prs: t.prs.insert(key, pr_row(held(t.prs, key), p, new_id)), ..t }
    } else if s.sql == UPSERT_REVIEW@ {
        PrTables { reviews: t.reviews.insert(key, review_row(held(t.reviews, key), p)), ..t }
    } else if s.sql == DELETE_LABELS@ {
        PrTables {
            labels: t.labels.restrict(t.labels.dom().filter(|k: (SqlView, SqlView)| k.0 != p[0])),
            ..t
        }
    } else if s.sql == INSERT_LABEL@ {
        if t.labels.dom().contains(key) || p[1] is Null {
            t
        } else {
            PrTables { labels: t.labels.insert(key, p[2]), ..t }
        }
    } else if s.sql == UPSERT_CHECK@ {
        PrTables {
            checks: t.checks.insert(
                key,
                CheckRow { state: p[2], target_url: p[3], description: p[4], updated_at: p[5] },
            ),
            ..t
        }
    } else {
        PrTables { logged: t.logged.push(s), ..t }
    }
}

/// The tables after several statements, one after the other.
pub open spec fn all_written(t: PrTables, statements: Seq<StatementView>, new_id: i64) -> PrTables
    decreases statements.len(),
{
    if statements.len() == 0 {
        t
    } else {
        written(all_written(t, statements.drop_last(), new_id), statements.last(), new_id)
    }
}

// ---- recording twice ---------------------------------------------------------------
proof fn lemma_statements_differ()
    ensures
        UPSERT_PR@ != UPSERT_REVIEW@,
        UPSERT_PR@ != UPSERT_CHECK@,
        UPSERT_PR@ != INSERT_LABEL@,
        UPSERT_PR@ != DELETE_LABELS@,
        UPSERT_PR@ != db::INSERT_CHANGE@,
        UPSERT_REVIEW@ != UPSERT_CHECK@,
        UPSERT_REVIEW@ != INSERT_LABEL@,
        UPSERT_REVIEW@ != DELETE_LABELS@,
        UPSERT_REVIEW@ != db::INSERT_CHANGE@,
        UPSERT_CHECK@ != INSERT_LABEL@,
        UPSERT_CHECK@ != DELETE_LABELS@,
        UPSERT_CHECK@ != db::INSERT_CHANGE@,
        INSERT_LABEL@ != DELETE_LABELS@,
        INSERT_LABEL@ != db::INSERT_CHANGE@,
        DELETE_LABELS@ != db::INSERT_CHANGE@,
{
    reveal_strlit(
        "INSERT INTO pull_request
         (repo_id, number, gh_node_id, state, title, author, head_ref, head_sha,
          base_ref, mergeable, draft, additions, deletions, changed_files,
          created_at, updated_at, merged_at, closed_at, body, raw_json)
         VALUES (?1,?2,?3,?4,?5,?6,?7,?8,?9,?10,?11,?12,?13,?14,?15,?16,?17,?18,?19,?20)
         ON CONFLICT(repo_id, number) DO UPDATE SET
             gh_node_id    = excluded.gh_node_id,
             state         = excluded.state,
             title         = excluded.title,
             author        = excluded.author,
             head_ref      = excluded.head_ref,
             head_sha      = excluded.head_sha,
             base_ref      = excluded.base_ref,
             mergeable     = excluded.mergeable,
             draft         = excluded.draft,
             additions     = excluded.additions,
             deletions     = excluded.deletions,
             changed_files = excluded.changed_files,
             updated_at    = excluded.updated_at,
             merged_at     = excluded.merged_at,
             closed_at     = excluded.closed_at,
             body          = excluded.body,
             raw_json      = excluded.raw_json
         RETURNING id",
    );
    reveal_strlit(
        "INSERT INTO pr_review (pr_id, gh_id, author, state, body, submitted_at)
         VALUES (?1,?2,?3,?4,?5,?6)
         ON CONFLICT(pr_id, gh_id) DO UPDATE SET
             state        = excluded.state,
             body         = excluded.body,
             submitted_at = excluded.submitted_at",
    );
    reveal_strlit(
        "DELETE FROM pr_label WHERE pr_id = ?1",
    );
    reveal_strlit(
        "INSERT OR IGNORE INTO pr_label (pr_id, label, color) VALUES (?1, ?2, ?3)",
    );
    reveal_strlit(
        "INSERT INTO pr_status_check (pr_id, context, state, target_url, description, updated_at)
         VALUES (?1,?2,?3,?4,?5,?6)
         ON CONFLICT(pr_id, context) DO UPDATE SET
             state       = excluded.state,
             target_url  = excluded.target_url,
             description = excluded.description,
             updated_at  = excluded.updated_at",
    );
    reveal_strlit(
        "INSERT INTO change_log (entity_type, entity_id, event, repo_slug, payload_json)
         VALUES (?1, ?2, ?3, ?4, ?5)",
    );
    assert(UPSERT_PR@[7] == 'I' && UPSERT_PR@[12] == 'p' && UPSERT_PR@[13] == 'u');
    assert(UPSERT_REVIEW@[7] == 'I' && UPSERT_REVIEW@[12] == 'p' && UPSERT_REVIEW@[13] == 'r'
        && UPSERT_REVIEW@[15] == 'r');
    assert(UPSERT_CHECK@[7] == 'I' && UPSERT_CHECK@[12] == 'p' && UPSERT_CHECK@[13] == 'r'
        && UPSERT_CHECK@[15] == 's');
    assert(db::INSERT_CHANGE@[7] == 'I' && db::INSERT_CHANGE@[12] == 'c');
    assert(INSERT_LABEL@[0] == 'I' && INSERT_LABEL@[7] == 'O');
    assert(DELETE_LABELS@[0] == 'D');
    assert(UPSERT_PR@[0] == 'I' && UPSERT_REVIEW@[0] == 'I' && UPSERT_CHECK@[0] == 'I'
        && db::INSERT_CHANGE@[0] == 'I');
}

/// A pull request has one row, under its repository and its number, however often it is recorded.
/// What the row tells is what was recorded last; its id and the time of its creation are those
/// that it had, else those of the first time. Of other pull requests, and of reviews, labels and
/// status checks, nothing changes.
pub proof fn pr_is_recorded_once(
    t: PrTables,
    repo_id: i64,
    first: JsonView,
    later: JsonView,
    new_id: i64,
    unused: i64,
)
    requires
        prs::number_of(first) == prs::number_of(later),
    ensures
        ({
            let key = (SqlView::Integer(repo_id), SqlView::Integer(prs::number_of(first)));
            let once = written(t, prs::pr_record(repo_id, first), new_id);
            let twice = written(once, prs::pr_record(repo_id, later), unused);
            let row = twice.prs[key];
            &&& once == (PrTables { prs: t.prs.insert(key, once.prs[key]), ..t })
            &&& twice == (PrTables { prs: t.prs.insert(key, row), ..t })
            &&& match held(t.prs, key) {
                Some(old) => row.id == old.id && row.created_at == old.created_at,
                None => row.id == new_id && row.created_at == SqlView::Text(
                    first.at("createdAt"@).str_or(""@),
                ),
            }
            &&& row == (PrRow {
                id: row.id,
                created_at: row.created_at,
                ..pr_row(None, prs::pr_record(repo_id, later).params, unused)
            })
            &&& row.state == SqlView::Text(prs::state_of(later))
            &&& row.title == SqlView::Text(later.at("title"@).str_or(""@))
            &&& row.updated_at == SqlView::Text(later.at("updatedAt"@).str_or(""@))
        }),
{
    let key = (SqlView::Integer(repo_id), SqlView::Integer(prs::number_of(first)));
    let once = written(t, prs::pr_record(repo_id, first), new_id);
    let twice = written(once, prs::pr_record(repo_id, later), unused);
    assert(prs::pr_record(repo_id, first).params[0] == key.0);
    assert(prs::pr_record(repo_id, first).params[1] == key.1);
    assert(prs::pr_record(repo_id, later).params[1] == key.1);
    assert(twice.prs =~= t.prs.insert(key, twice.prs[key]));
}

// ---- what follows ------------------------------------------------------------------
/// Whether a statement is about what belongs to one pull request, or logs a change.
pub open spec fn is_about(s: StatementView, pr_id: i64) -> bool {
    &&& s.sql != UPSERT_PR@
    &&& s.sql == db::INSERT_CHANGE@ || s.params.len() > 0 && s.params[0] == SqlView::Integer(pr_id)
}

/// Whether a table holds the same in both states for every pull request but one.
pub open spec fn same_but_for<R>(
    a: Map<(SqlView, SqlView), R>,
    b: Map<(SqlView, SqlView), R>,
    pr_id: i64,
) -> bool {
    forall|key: (SqlView, SqlView)|
        key.0 != SqlView::Integer(pr_id) ==> #[trigger] held(a, key) == held(b, key)
}

proof fn lemma_frame(t: PrTables, statements: Seq<StatementView>, pr_id: i64, new_id: i64)
    requires
        forall|i: int| 0 <= i < statements.len() ==> is_about(#[trigger] statements[i], pr_id),
    ensures
        ({
            let after = all_written(t, statements, new_id);
            &&& after.prs == t.prs
            &&& same_but_for(after.reviews, t.reviews, pr_id)
            &&& same_but_for(after.labels, t.labels, pr_id)
            &&& same_but_for(after.checks, t.checks, pr_id)
        }),
    decreases statements.len(),
{
    if statements.len() > 0 {
        let fewer = statements.drop_last();
        let s = statements.last();
        assert(is_about(statements[statements.len() - 1], pr_id));
        assert forall|i: int| 0 <= i < fewer.len() implies is_about(
            #[trigger] fewer[i],
            pr_id,
        ) by {
            assert(is_about(statements[i], pr_id));
        }
        lemma_frame(t, fewer, pr_id, new_id);
        lemma_statements_differ();
        let before = all_written(t, fewer, new_id);
        let after = written(before, s, new_id);
        assert forall|key: (SqlView, SqlView)|
            key.0 != SqlView::Integer(pr_id) implies #[trigger] held(after.reviews, key) == held(
            t.reviews,
            key,
        ) by {
            assert(held(before.reviews, key) == held(t.reviews, key));
        }
        assert forall|key: (SqlView, SqlView)|
            key.0 != SqlView::Integer(pr_id) implies #[trigger] held(after.labels, key) == held(
            t.labels,
            key,
        ) by {
            assert(held(before.labels, key) == held(t.labels, key));
        }
        assert forall|key: (SqlView, SqlView)|
            key.0 != SqlView::Integer(pr_id) implies #[trigger] held(after.checks, key) == held(
            t.checks,
            key,
        ) by {
            assert(held(before.checks, key) == held(t.checks, key));
        }
    }
}

/// The key under which a review of a pull request is recorded.
pub open spec fn review_key(pr_id: i64, rv: JsonView) -> (SqlView, SqlView) {
    let p = prs::review_record(pr_id, rv).params;
    (p[0], p[1])
}

/// Whether a statement records a review under a key.
pub open spec fn writes_review(s: StatementView, key: (SqlView, SqlView)) -> bool {
    s.sql == UPSERT_REVIEW@ && (s.params[0], s.params[1]) == key
}

proof fn lemma_review_kept(
    t: PrTables,
    statements: Seq<StatementView>,
    key: (SqlView, SqlView),
    new_id: i64,
)
    requires
        forall|i: int| 0 <= i < statements.len() ==> !writes_review(#[trigger] statements[i], key),
    ensures
        held(all_written(t, statements, new_id).reviews, key) == held(t.reviews, key),
    decreases statements.len(),
{
    if statements.len() > 0 {
        let fewer = statements.drop_last();
        assert(!writes_review(statements[statements.len() - 1], key));
        assert forall|i: int| 0 <= i < fewer.len() implies !writes_review(
            #[trigger] fewer[i],
            key,
        ) by {
            assert(!writes_review(statements[i], key));
        }
        lemma_review_kept(t, fewer, key, new_id);
    }
}

proof fn lemma_all_written_append(
    t: PrTables,
    a: Seq<StatementView>,
    b: Seq<StatementView>,
    new_id: i64,
)
    ensures
        all_written(t, a + b, new_id) == all_written(all_written(t, a, new_id), b, new_id),
    decreases b.len(),
{
    if b.len() == 0 {
        assert(a + b =~= a);
    } else {
        assert((a + b).drop_last() =~= a + b.drop_last());
        assert((a + b).last() == b.last());
        lemma_all_written_append(t, a, b.drop_last(), new_id);
    }
}

proof fn lemma_check_about(pr_id: i64, contexts: Seq<JsonView>, now: Seq<char>)
    ensures
        forall|i: int|
            0 <= i < prs::check_records(pr_id, contexts, now).len() ==> {
                let s = #[trigger] prs::check_records(pr_id, contexts, now)[i];
                s.sql == UPSERT_CHECK@ && s.params.len() == 6 && s.params[0] == SqlView::Integer(
                    pr_id,
                )
            },
    decreases contexts.len(),
{
    if contexts.len() > 0 {
        let before = prs::check_records(pr_id, contexts.drop_last(), now);
        let all = prs::check_records(pr_id, contexts, now);
        lemma_check_about(pr_id, contexts.drop_last(), now);
        assert forall|i: int| 0 <= i < all.len() implies {
            let s = #[trigger] all[i];
            s.sql == UPSERT_CHECK@ && s.params.len() == 6 && s.params[0] == SqlView::Integer(pr_id)
        } by {
            if i < before.len() {
                assert(all[i] == before[i]);
            }
        }
    }
}

proof fn lemma_follow_ups(
    pr_id: i64,
    slug: Seq<char>,
    pr: JsonView,
    is_new: bool,
    now: Seq<char>,
)
    ensures
        ({
            let all = prs::follow_ups(pr_id, slug, pr, is_new, now);
            let n = prs::reviews_of(pr).len();
            &&& n < all.len()
            &&& forall|i: int| 0 <= i < all.len() ==> is_about(#[trigger] all[i], pr_id)
            &&& forall|i: int|
                0 <= i < all.len() ==> (if 1 <= i <= n {
                    #[trigger] all[i] == prs::review_record(pr_id, prs::reviews_of(pr)[i - 1])
                } else {
                    all[i].sql != UPSERT_REVIEW@
                })
        }),
{
    let all = prs::follow_ups(pr_id, slug, pr, is_new, now);
    let n = prs::reviews_of(pr).len();
    let m = prs::labels_of(pr).len();
    let checks = prs::check_records(pr_id, prs::contexts_of(pr), now);
    lemma_statements_differ();
    lemma_check_about(pr_id, prs::contexts_of(pr), now);
    assert(all.len() == 2 + n + m + checks.len());
    assert forall|i: int| 0 <= i < all.len() implies is_about(#[trigger] all[i], pr_id) && (if 1
        <= i <= n {
        all[i] == prs::review_record(pr_id, prs::reviews_of(pr)[i - 1])
    } else {
        all[i].sql != UPSERT_REVIEW@
    }) by {
        if i == 0 {
            assert(all[0].sql == db::INSERT_CHANGE@);
        } else if i <= n {
            assert(all[i] == prs::review_record(pr_id, prs::reviews_of(pr)[i - 1]));
        } else if i == n + 1 {
            assert(all[i] == prs::labels_removal(pr_id));
        } else if i < n + 2 + m {
            assert(all[i] == prs::label_record(pr_id, prs::labels_of(pr)[i - n - 2]));
        } else {
            assert(all[i] == checks[i - n - 2 - m]);
        }
    }
}

/// What follows when a pull request is recorded leaves the table of pull requests alone, and
/// whatever belongs to other pull requests; and of its own reviews those that it is not told of.
pub proof fn other_prs_are_left_alone(
    t: PrTables,
    pr_id: i64,
    slug: Seq<char>,
    pr: JsonView,
    is_new: bool,
    now: Seq<char>,
    new_id: i64,
    review: (SqlView, SqlView),
)
    requires
        forall|i: int|
            0 <= i < prs::reviews_of(pr).len() ==> review_key(
                pr_id,
                #[trigger] prs::reviews_of(pr)[i],
            ) != review,
    ensures
        ({
            let after = all_written(t, prs::follow_ups(pr_id, slug, pr, is_new, now), new_id);
            &&& after.prs == t.prs
            &&& same_but_for(after.reviews, t.reviews, pr_id)
            &&& same_but_for(after.labels, t.labels, pr_id)
            &&& same_but_for(after.checks, t.checks, pr_id)
            &&& held(after.reviews, review) == held(t.reviews, review)
        }),
{
    let all = prs::follow_ups(pr_id, slug, pr, is_new, now);
    lemma_follow_ups(pr_id, slug, pr, is_new, now);
    lemma_frame(t, all, pr_id, new_id);
    assert forall|i: int| 0 <= i < all.len() implies !writes_review(#[trigger] all[i], review) by {
        if 1 <= i <= prs::reviews_of(pr).len() {
            assert(review_key(pr_id, prs::reviews_of(pr)[i - 1]) != review);
        }
    }
    lemma_review_kept(t, all, review, new_id);
}

/// Every review of a pull request is recorded when the pull request is, each under one row: what
/// the row tells is what was recorded last, and its author is the one that was recorded first.
pub proof fn reviews_are_recorded_once(
    t: PrTables,
    pr_id: i64,
    slug: Seq<char>,
    pr: JsonView,
    is_new: bool,
    now: Seq<char>,
    new_id: i64,
    i: int,
)
    requires
        0 <= i < prs::reviews_of(pr).len(),
        forall|k: int|
            0 <= k < prs::reviews_of(pr).len() && k != i ==> review_key(
                pr_id,
                #[trigger] prs::reviews_of(pr)[k],
            ) != review_key(pr_id, prs::reviews_of(pr)[i]),
    ensures
        ({
            let after = all_written(t, prs::follow_ups(pr_id, slug, pr, is_new, now), new_id);
            let rv = prs::reviews_of(pr)[i];
            let key = review_key(pr_id, rv);
            held(after.reviews, key) == Some(
                ReviewRow {
                    author: match held(t.reviews, key) {
                        Some(row) => row.author,
                        None => sql::text_or_null(rv.at("author"@).at("login"@).as_str()),
                    },
                    state: SqlView::Text(rv.at("state"@).str_or(""@)),
                    body: sql::text_or_null(rv.at("body"@).as_str()),
                    submitted_at: sql::text_or_null(rv.at("submittedAt"@).as_str()),
                },
            )
        }),
{
    let all = prs::follow_ups(pr_id, slug, pr, is_new, now);
    let rv = prs::reviews_of(pr)[i];
    let key = review_key(pr_id, rv);
    lemma_follow_ups(pr_id, slug, pr, is_new, now);
    lemma_statements_differ();
    let a = all.take(i + 1);
    let b = all.skip(i + 2);
    let s = all[i + 1];
    assert(s == prs::review_record(pr_id, rv));
    assert forall|k: int| 0 <= k < a.len() implies !writes_review(#[trigger] a[k], key) by {
        assert(a[k] == all[k]);
        if 1 <= k {
            assert(review_key(pr_id, prs::reviews_of(pr)[k - 1]) != key);
        }
    }
    assert forall|k: int| 0 <= k < b.len() implies !writes_review(#[trigger] b[k], key) by {
        assert(b[k] == all[i + 2 + k]);
        if i + 2 + k <= prs::reviews_of(pr).len() {
            assert(review_key(pr_id, prs::reviews_of(pr)[i + 1 + k]) != key);
        }
    }
    let before = all_written(t, a, new_id);
    let there = written(before, s, new_id);
    assert(all =~= a.push(s) + b);
    assert(a.push(s).drop_last() =~= a);
    lemma_all_written_append(t, a.push(s), b, new_id);
    lemma_review_kept(t, a, key, new_id);
    lemma_review_kept(there, b, key, new_id);
}

} // verus!
