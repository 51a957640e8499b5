//! What readers of the cache are given: the queries for it, and what is read from the rows.

use vstd::prelude::*;

use crate::client::query::{MissingName, PrFilterView};
use crate::client::tail;
use crate::client::types::{
    Branch, BranchView, Comment, CommentView, Notification, NotificationView,
    PullRequest, PullRequestView, RateLimit, RateLimitView, RepoEvent, RepoEventView, Review,
    ReviewView,
};
use crate::json::JsonView;
use crate::laws::values;
use crate::query::prs::{
    CommentRow, CommentRowView, PrDetail, PrDetailView, PrQueryError, PrRow, PrRowView, PrStageView,
    PrStepView, ReviewRow, ReviewRowView,
};
use crate::report::{PollRow, PollRowView};
use crate::sql::{FromRow, SqlView, StatementView};
use crate::{client, json, laws, number, query, sql, text};

verus! {

// ---- the list of pull requests -----------------------------------------------------
/// The condition on the repository in a query: nothing where none is given.
pub open spec fn in_repo(repo: Option<(Seq<char>, Seq<char>)>) -> Seq<char> {
    match repo {
        Some((owner, name)) => " AND r.owner = "@ + sql::literal(owner) + " AND r.name = "@
            + sql::literal(name),
        None => Seq::empty(),
    }
}

/// The condition that nobody approved a pull request: nothing where it is not asked for.
pub open spec fn not_approved(wanted: bool) -> Seq<char> {
    if wanted {
        " AND (SELECT COUNT(*) FROM pr_review rv WHERE rv.pr_id = pr.id AND rv.state = 'APPROVED') = 0"@
    } else {
        Seq::empty()
    }
}

/// Whether a text names a repository: its owner, a slash, and its name.
pub open spec fn names(slug: Seq<char>, owner: Seq<char>, name: Seq<char>) -> bool {
    slug == owner.push('/') + name && !owner.contains('/')
}

proof fn lemma_named(slug: Seq<char>, owner: Seq<char>, name: Seq<char>)
    requires
        names(slug, owner, name),
    ensures
        text::cut_at(slug, '/') == Some((owner, name)),
        text::joined(seq![client::query::repo_is(owner, name)], " AND "@)
            == client::query::repo_is(owner, name),
        " AND "@ + client::query::repo_is(owner, name) == in_repo(Some((owner, name))),
{
    values::text_is_cut_at_the_first_place(slug, '/', owner, name);
    reveal_strlit(" AND ");
    reveal_strlit("r.owner");
    reveal_strlit("r.name");
    reveal_strlit(" = ");
    reveal_strlit(" AND r.owner = ");
    reveal_strlit(" AND r.name = ");
    assert(" AND r.owner = "@ =~= " AND "@ + "r.owner"@ + " = "@);
    assert(" AND r.name = "@ =~= " AND "@ + "r.name"@ + " = "@);
    assert(" AND "@ + client::query::repo_is(owner, name) =~= in_repo(Some((owner, name))));
}

proof fn lemma_not_approved()
    ensures
        " AND "@ + client::query::NOT_APPROVED@ == not_approved(true),
{
    reveal_strlit(" AND ");
    reveal_strlit("(SELECT COUNT(*) FROM pr_review rv WHERE rv.pr_id = pr.id AND rv.state = 'APPROVED') = 0");
    reveal_strlit(" AND (SELECT COUNT(*) FROM pr_review rv WHERE rv.pr_id = pr.id AND rv.state = 'APPROVED') = 0");
    assert(" AND "@ + client::query::NOT_APPROVED@ =~= not_approved(true));
}

proof fn lemma_conditions(first: Seq<char>, a: Option<Seq<char>>, b: Option<Seq<char>>, c: Option<Seq<char>>)
    ensures
        text::joined(
            client::query::and_also(
                client::query::and_also(client::query::and_also(seq![first], a), b),
                c,
            ),
            " AND "@,
        ) == first + (match a {
            Some(x) => " AND "@ + x,
            None => Seq::empty(),
        }) + (match b {
            Some(x) => " AND "@ + x,
            None => Seq::empty(),
        }) + (match c {
            Some(x) => " AND "@ + x,
            None => Seq::empty(),
        }),
{
    let e = Seq::<char>::empty();
    let one = seq![first];
    let with_a = client::query::and_also(one, a);
    let with_b = client::query::and_also(with_a, b);
    let with_c = client::query::and_also(with_b, c);
    let sep = " AND "@;
    values::texts_are_joined_in_order(one, first, sep);
    if a is Some {
        values::texts_are_joined_in_order(one, a->Some_0, sep);
    }
    assert(text::joined(with_a, sep) =~= first + (match a {
        Some(x) => sep + x,
        None => e,
    }));
    if b is Some {
        values::texts_are_joined_in_order(with_a, b->Some_0, sep);
    }
    assert(text::joined(with_b, sep) =~= first + (match a {
        Some(x) => sep + x,
        None => e,
    }) + (match b {
        Some(x) => sep + x,
        None => e,
    }));
    if c is Some {
        values::texts_are_joined_in_order(with_b, c->Some_0, sep);
    }
    assert(text::joined(with_c, sep) =~= first + (match a {
        Some(x) => sep + x,
        None => e,
    }) + (match b {
        Some(x) => sep + x,
        None => e,
    }) + (match c {
        Some(x) => sep + x,
        None => e,
    }));
}

proof fn lemma_state(state: Seq<char>)
    ensures
        client::query::column_is("pr.state"@, state) == "pr.state = "@ + sql::literal(state),
{
    reveal_strlit("pr.state");
    reveal_strlit(" = ");
    reveal_strlit("pr.state = ");
    assert("pr.state = "@ =~= "pr.state"@ + " = "@);
    assert(client::query::column_is("pr.state"@, state) =~= "pr.state = "@ + sql::literal(state));
}

/// The list of pull requests is that of those in the state that was asked for: of one repository
/// where one is given by its owner and name, and without those that were approved where only
/// those that wait for a review are asked for. Those that changed last come first.
pub proof fn list_has_the_state_that_was_asked_for(
    repo: Option<(Seq<char>, Seq<char>)>,
    slug: Option<Seq<char>>,
    state: Seq<char>,
    needs_review: bool,
)
    requires
        match (repo, slug) {
            (Some((owner, name)), Some(s)) => names(s, owner, name),
            (None, None) => true,
            (None, Some(s)) => !s.contains('/'),
            (Some(_), None) => false,
        },
    ensures
        ({
            let s = query::prs::list_query(slug, state, needs_review);
            &&& s.params.len() == 0
            &&& laws::says(s.sql, "pr.state = "@ + sql::literal(state))
            &&& s.sql == "SELECT
             r.owner || '/' || r.name AS repo_slug,
             pr.number, pr.title, pr.author, pr.head_ref, pr.state,
             pr.draft, pr.mergeable, pr.additions, pr.deletions,
             pr.created_at, pr.updated_at,
             (SELECT COUNT(*) FROM pr_review rv WHERE rv.pr_id = pr.id AND rv.state = 'APPROVED') AS approvals,
             (SELECT COUNT(*) FROM pr_review rv WHERE rv.pr_id = pr.id AND rv.state = 'CHANGES_REQUESTED') AS changes_requested,
             (SELECT COUNT(*) FROM pr_comment c WHERE c.pr_id = pr.id) AS comment_count
         FROM pull_request pr
         JOIN repo r ON r.id = pr.repo_id
         WHERE "@ + ("pr.state = "@
                + sql::literal(state) + in_repo(repo) + not_approved(needs_review)) + "
         ORDER BY pr.updated_at DESC"@
        }),
{
    let s = query::prs::list_query(slug, state, needs_review);
    lemma_state(state);
    lemma_not_approved();
    let of_repo = match repo {
        Some((owner, name)) => Some(client::query::repo_is(owner, name)),
        None => None,
    };
    let review = if needs_review {
        Some(client::query::NOT_APPROVED@)
    } else {
        None
    };
    if repo is Some {
        lemma_named(slug->Some_0, repo->Some_0.0, repo->Some_0.1);
    } else if slug is Some {
        values::text_is_cut_at_the_first_place(
            slug->Some_0,
            '/',
            Seq::empty(),
            Seq::empty(),
        );
    }
    let first = client::query::column_is("pr.state"@, state);
    lemma_conditions(first, of_repo, review, None);
    let rest = in_repo(repo) + not_approved(needs_review);
    assert(text::joined(query::prs::list_conditions(slug, state, needs_review), " AND "@)
        =~= first + in_repo(repo) + not_approved(needs_review));
    laws::lemma_says(s.sql, query::prs::SELECT_PRS@, first, rest + query::prs::ORDER_PRS@);
}

/// Lists of two states are asked for differently, whatever else is asked for.
pub proof fn lists_of_two_states_differ(a: Seq<char>, b: Seq<char>, needs_review: bool)
    requires
        a != b,
    ensures
        query::prs::list_query(None, a, needs_review) != query::prs::list_query(
            None,
            b,
            needs_review,
        ),
{
    list_has_the_state_that_was_asked_for(None, None, a, needs_review);
    list_has_the_state_that_was_asked_for(None, None, b, needs_review);
    let start = query::prs::SELECT_PRS@ + "pr.state = "@;
    let end = not_approved(needs_review) + query::prs::ORDER_PRS@;
    let x = query::prs::list_query(None, a, needs_review).sql;
    let y = query::prs::list_query(None, b, needs_review).sql;
    assert(x =~= start + sql::literal(a) + end);
    assert(y =~= start + sql::literal(b) + end);
    if x == y {
        let n = start.len() as int;
        let m = (x.len() - end.len()) as int;
        assert(sql::literal(a) =~= x.subrange(n, m));
        assert(sql::literal(b) =~= y.subrange(n, m));
        values::quoted_texts_are_told_apart(a, b);
    }
}

// ---- the client's queries ----------------------------------------------------------
/// A client is given the pull requests in the state that it asks for, else the open ones: of one
/// repository, by one author, and without those that were approved, where it asks for that.
pub proof fn client_is_given_what_it_asks_for(
    filter: PrFilterView,
    repo: Option<(Seq<char>, Seq<char>)>,
)
    requires
        match (repo, filter.repo) {
            (Some((owner, name)), Some(s)) => names(s, owner, name),
            (None, None) => true,
            _ => false,
        },
    ensures
        client::query::prs_query(filter) matches Ok(s) && s.params.len() == 0 && s.sql
            == "SELECT pr.id, r.owner || '/' || r.name, pr.number, pr.title, pr.author,
                    pr.head_ref, pr.base_ref, pr.state, pr.draft, pr.mergeable,
                    pr.additions, pr.deletions, pr.changed_files,
                    pr.created_at, pr.updated_at, pr.merged_at, pr.body
             FROM pull_request pr
             JOIN repo r ON r.id = pr.repo_id
             WHERE "@ + ("pr.state = "@
            + sql::literal(
            match filter.state {
                Some(state) => state,
                None => "open"@,
            },
        ) + in_repo(repo) + (match filter.author {
            Some(author) => " AND pr.author = "@ + sql::literal(author),
            None => Seq::empty(),
        }) + not_approved(filter.needs_review)) + "
             ORDER BY pr.updated_at DESC"@,
{
    let state = match filter.state {
        Some(state) => state,
        None => "open"@,
    };
    lemma_state(state);
    lemma_not_approved();
    let of_repo = match repo {
        Some((owner, name)) => Some(client::query::repo_is(owner, name)),
        None => None,
    };
    let author = match filter.author {
        Some(a) => Some(client::query::column_is("pr.author"@, a)),
        None => None,
    };
    let review = if filter.needs_review {
        Some(client::query::NOT_APPROVED@)
    } else {
        None
    };
    if repo is Some {
        lemma_named(filter.repo->Some_0, repo->Some_0.0, repo->Some_0.1);
    }
    if filter.author is Some {
        let a = filter.author->Some_0;
        reveal_strlit(" AND ");
        reveal_strlit(" = ");
        reveal_strlit("pr.author");
        reveal_strlit(" AND pr.author = ");
        assert(" AND pr.author = "@ =~= " AND "@ + "pr.author"@ + " = "@);
        assert(" AND "@ + client::query::column_is("pr.author"@, a) =~= " AND pr.author = "@
            + sql::literal(a));
    }
    let first = client::query::column_is("pr.state"@, state);
    lemma_conditions(first, of_repo, author, review);
    assert(text::joined(client::query::filter_conditions(filter, of_repo), " AND "@) =~= first
        + in_repo(repo) + (match filter.author {
        Some(author) => " AND pr.author = "@ + sql::literal(author),
        None => Seq::empty(),
    }) + not_approved(filter.needs_review));
}

/// A repository that is given without a slash in it is refused, whatever is asked of it.
pub proof fn repository_needs_a_name(
    slug: Seq<char>,
    filter: PrFilterView,
    number: i64,
    event_type: Option<Seq<char>>,
    limit: usize,
)
    requires
        !slug.contains('/'),
        filter.repo == Some(slug),
    ensures
        client::query::prs_query(filter) is Err,
        client::query::branches_query(Some(slug)) is Err,
        client::query::events_query(Some(slug), event_type, limit) is Err,
        client::query::pr_query(slug, number) is Err,
{
    values::text_is_cut_at_the_first_place(slug, '/', Seq::empty(), Seq::empty());
}

/// One pull request is asked for by the owner and the name of its repository and by its number.
pub proof fn one_pr_is_asked_for_by_its_number(
    slug: Seq<char>,
    owner: Seq<char>,
    name: Seq<char>,
    number: i64,
    shown: u32,
)
    requires
        names(slug, owner, name),
    ensures
        client::query::pr_query(slug, number) == Ok::<_, MissingName>(
            StatementView {
                sql: "SELECT pr.id, r.owner || '/' || r.name, pr.number, pr.title, pr.author,
                    pr.head_ref, pr.base_ref, pr.state, pr.draft, pr.mergeable,
                    pr.additions, pr.deletions, pr.changed_files,
                    pr.created_at, pr.updated_at, pr.merged_at, pr.body
             FROM pull_request pr
             JOIN repo r ON r.id = pr.repo_id
             WHERE "@
                    + "r.owner = ?1 AND r.name = ?2 AND pr.number = ?3"@,
                params: seq![
                    SqlView::Text(owner),
                    SqlView::Text(name),
                    SqlView::Integer(number),
                ],
            },
        ),
        query::prs::first_question(shown, slug) == PrStepView::Ask(
            PrStageView::Id,
            StatementView {
                sql: "SELECT pr.id FROM pull_request pr
             JOIN repo r ON r.id = pr.repo_id
             WHERE r.owner = ?1 AND r.name = ?2 AND pr.number = ?3"@,
                params: seq![
                    SqlView::Text(owner),
                    SqlView::Text(name),
                    SqlView::Integer(shown as i64),
                ],
            },
        ),
{
    values::text_is_cut_at_the_first_place(slug, '/', owner, name);
}

/// One pull request is shown with all that belongs to it: it is looked up by the id that was
/// found, and so are its reviews, its comments and its labels, each in its order. What is not
/// found is said to be missing.
pub proof fn one_pr_is_shown_with_what_belongs_to_it(
    id: i64,
    more: Seq<SqlView>,
    detail: PrDetailView,
    rows: Seq<Seq<SqlView>>,
)
    requires
        detail.reviews.len() == 0,
        detail.comments.len() == 0,
        detail.labels.len() == 0,
    ensures
        PrStageView::Id.next(Seq::empty()) == PrStepView::Failed(PrQueryError::NotFound),
        PrStageView::Id.next(seq![seq![SqlView::Integer(id)] + more]) == PrStepView::Ask(
            PrStageView::Detail { pr_id: id },
            StatementView {
                sql: "SELECT r.owner || '/' || r.name, pr.number, pr.title, pr.author, pr.state,
                    pr.draft, pr.mergeable, pr.additions, pr.deletions,
                    pr.created_at, pr.updated_at, pr.body
             FROM pull_request pr JOIN repo r ON r.id = pr.repo_id
             WHERE pr.id = ?1"@,
                params: seq![SqlView::Integer(id)],
            },
        ),
        (PrStageView::Detail { pr_id: id }).next(Seq::empty()) == PrStepView::Failed(
            PrQueryError::NotFound,
        ),
        (PrStageView::Detail { pr_id: id }).next(seq![shown_pr_is_read_row(detail)])
            == PrStepView::Ask(
            PrStageView::Reviews { pr_id: id, detail },
            StatementView {
                sql: "SELECT author, state, body, submitted_at FROM pr_review WHERE pr_id = ?1 ORDER BY submitted_at"@,
                params: seq![SqlView::Integer(id)],
            },
        ),
        (PrStageView::Reviews { pr_id: id, detail }).next(rows) == PrStepView::Ask(
            PrStageView::Comments {
                pr_id: id,
                detail: PrDetailView { reviews: sql::readable::<ReviewRow>(rows), ..detail },
            },
            StatementView {
                sql: "SELECT author, body, path, line, created_at FROM pr_comment WHERE pr_id = ?1 ORDER BY created_at"@,
                params: seq![SqlView::Integer(id)],
            },
        ),
        (PrStageView::Comments { pr_id: id, detail }).next(rows) == PrStepView::Ask(
            PrStageView::Labels {
                detail: PrDetailView { comments: sql::readable::<CommentRow>(rows), ..detail },
            },
            StatementView {
                sql: "SELECT label FROM pr_label WHERE pr_id = ?1 ORDER BY label"@,
                params: seq![SqlView::Integer(id)],
            },
        ),
        (PrStageView::Labels { detail }).next(rows) == PrStepView::Done(
            PrDetailView { labels: sql::readable::<String>(rows), ..detail },
        ),
{
    let row = seq![SqlView::Integer(id)] + more;
    assert(seq![row][0][0] == SqlView::Integer(id));
    shown_pr_is_read(detail);
    assert(seq![shown_pr_is_read_row(detail)][0] == shown_pr_is_read_row(detail));
}

/// What belongs to a pull request is asked for by its id: its reviews in the order in which they
/// were submitted, its comments in the order in which they were made.
pub proof fn what_belongs_to_a_pr_is_asked_for_by_its_id(pr_id: i64)
    ensures
        client::query::by_id(client::query::SELECT_REVIEWS@, pr_id) == (StatementView {
            sql: "SELECT id, pr_id, author, state, body, submitted_at
             FROM pr_review WHERE pr_id = ?1 ORDER BY submitted_at"@,
            params: seq![SqlView::Integer(pr_id)],
        }),
        client::query::by_id(client::query::SELECT_COMMENTS@, pr_id) == (StatementView {
            sql: "SELECT id, pr_id, author, body, path, line, created_at
             FROM pr_comment WHERE pr_id = ?1 ORDER BY created_at"@,
            params: seq![SqlView::Integer(pr_id)],
        }),
{
}

/// The notifications are all of them, or where only the unread ones are asked for those that are
/// not read; those that changed last come first.
pub proof fn unread_notifications_are_those_not_read()
    ensures
        client::query::notifications_query(true).sql == "SELECT n.id, n.gh_id, r.owner || '/' || r.name, n.subject_type,
                    n.subject_title, n.subject_url, n.reason, n.unread, n.updated_at
             FROM notification n
             LEFT JOIN repo r ON r.id = n.repo_id
             "@
            + "WHERE n.unread = 1"@ + "
             ORDER BY n.updated_at DESC"@,
        client::query::notifications_query(false).sql == "SELECT n.id, n.gh_id, r.owner || '/' || r.name, n.subject_type,
                    n.subject_title, n.subject_url, n.reason, n.unread, n.updated_at
             FROM notification n
             LEFT JOIN repo r ON r.id = n.repo_id
             "@
            + "
             ORDER BY n.updated_at DESC"@,
        client::query::notifications_query(true).params.len() == 0,
        client::query::notifications_query(false).params.len() == 0,
        query::sql::whole_view(query::notifications::UNREAD_VIEW@) == (StatementView {
            sql: "SELECT * FROM v_unread_notifications"@,
            params: Seq::empty(),
        }),
{
    reveal_strlit("");
    reveal_strlit("SELECT * FROM ");
    reveal_strlit("v_unread_notifications");
    reveal_strlit("SELECT * FROM v_unread_notifications");
    assert("SELECT * FROM v_unread_notifications"@ =~= "SELECT * FROM "@
        + "v_unread_notifications"@);
    assert(client::query::SELECT_NOTIFICATIONS@ + ""@ + client::query::ORDER_NOTIFICATIONS@
        =~= client::query::SELECT_NOTIFICATIONS@ + client::query::ORDER_NOTIFICATIONS@);
}

/// The branches are those of all repositories, or of the one that is given, by repository and
/// name.
pub proof fn branches_are_those_of_the_repository(slug: Seq<char>, owner: Seq<char>, name: Seq<char>)
    requires
        names(slug, owner, name),
    ensures
        client::query::branches_query(None) matches Ok(s) && s.params.len() == 0 && s.sql
            == "SELECT b.id, r.owner || '/' || r.name, b.name, b.sha,
                    b.behind_default, b.ahead_default, b.updated_at
             FROM branch b JOIN repo r ON r.id = b.repo_id
             "@ + "
             ORDER BY r.owner, r.name, b.name"@,
        client::query::branches_query(Some(slug)) matches Ok(s) && s.params.len() == 0 && s.sql
            == "SELECT b.id, r.owner || '/' || r.name, b.name, b.sha,
                    b.behind_default, b.ahead_default, b.updated_at
             FROM branch b JOIN repo r ON r.id = b.repo_id
             "@ + ("WHERE r.owner = "@ + sql::literal(owner)
            + " AND r.name = "@ + sql::literal(name)) + "
             ORDER BY r.owner, r.name, b.name"@,
{
    lemma_named(slug, owner, name);
    reveal_strlit("");
    reveal_strlit("WHERE ");
    reveal_strlit("r.owner");
    reveal_strlit("r.name");
    reveal_strlit(" = ");
    reveal_strlit(" AND ");
    reveal_strlit("WHERE r.owner = ");
    reveal_strlit(" AND r.name = ");
    assert("WHERE r.owner = "@ =~= "WHERE "@ + "r.owner"@ + " = "@);
    assert(" AND r.name = "@ =~= " AND "@ + "r.name"@ + " = "@);
    assert("WHERE "@ + client::query::repo_is(owner, name) =~= "WHERE r.owner = "@ + sql::literal(
        owner,
    ) + " AND r.name = "@ + sql::literal(name));
    assert(client::query::SELECT_BRANCHES@ + ""@ + client::query::ORDER_BRANCHES@
        =~= client::query::SELECT_BRANCHES@ + client::query::ORDER_BRANCHES@);
}

/// The events are those of all repositories or of the one that is given, of any kind or of the one
/// that is given, and no more than were asked for; those that happened last come first.
pub proof fn events_are_those_that_were_asked_for(
    repo: Option<(Seq<char>, Seq<char>)>,
    slug: Option<Seq<char>>,
    event_type: Option<Seq<char>>,
    limit: usize,
)
    requires
        match (repo, slug) {
            (Some((owner, name)), Some(s)) => names(s, owner, name),
            (None, None) => true,
            _ => false,
        },
    ensures
        client::query::events_query(slug, event_type, limit) matches Ok(s) && s.params.len() == 0
            && s.sql == "SELECT e.id, r.owner || '/' || r.name, e.gh_id, e.type, e.actor,
                    e.payload_json, e.created_at
             FROM repo_event e JOIN repo r ON r.id = e.repo_id
             WHERE "@ + ("1=1"@ + in_repo(repo) + (
        match event_type {
            Some(kind) => " AND e.type = "@ + sql::literal(kind),
            None => Seq::empty(),
        })) + "
             ORDER BY e.created_at DESC LIMIT "@ + number::int_text(limit as int),
{
    let of_repo = match repo {
        Some((owner, name)) => Some(client::query::repo_is(owner, name)),
        None => None,
    };
    let kind = match event_type {
        Some(k) => Some(client::query::column_is("e.type"@, k)),
        None => None,
    };
    if repo is Some {
        lemma_named(slug->Some_0, repo->Some_0.0, repo->Some_0.1);
    }
    if event_type is Some {
        let k = event_type->Some_0;
        reveal_strlit(" AND ");
        reveal_strlit(" = ");
        reveal_strlit("e.type");
        reveal_strlit(" AND e.type = ");
        assert(" AND e.type = "@ =~= " AND "@ + "e.type"@ + " = "@);
        assert(" AND "@ + client::query::column_is("e.type"@, k) =~= " AND e.type = "@
            + sql::literal(k));
    }
    lemma_conditions("1=1"@, of_repo, kind, None);
    assert(text::joined(
        client::query::and_also(client::query::and_also(seq!["1=1"@], of_repo), kind),
        " AND "@,
    ) =~= "1=1"@ + in_repo(repo) + (match event_type {
        Some(kind) => " AND e.type = "@ + sql::literal(kind),
        None => Seq::empty(),
    }));
}

/// The limits are those of the latest call of each kind, and the changes are those that were
/// logged after a given one, in their order.
pub proof fn latest_limits_and_later_changes(last_id: i64)
    ensures
        client::query::SELECT_RATE_LIMIT@ == "SELECT api_type,
                    rate_remaining,
                    datetime(rate_reset, 'unixepoch') AS reset_at,
                    gql_cost
             FROM call_log
             WHERE id IN (
                 SELECT MAX(id) FROM call_log WHERE rate_remaining IS NOT NULL GROUP BY api_type
             )"@,
        tail::changes_query(last_id) == (StatementView {
            sql: "SELECT id, entity_type, entity_id, event, repo_slug, payload_json, occurred_at
         FROM change_log WHERE id > ?1 ORDER BY id"@,
            params: seq![SqlView::Integer(last_id)],
        }),
        tail::SELECT_LATEST@ == "SELECT COALESCE(MAX(id), 0) FROM change_log"@,
{
}

// ---- what is read from the rows ----------------------------------------------------
/// A pull request is read from its columns.
pub proof fn pull_request_is_read(v: PullRequestView)
    ensures
        PullRequest::in_row(pull_request_is_read_row(v)) == Some(v),
{
    let row = pull_request_is_read_row(v);
    assert(row.len() == 17);
}

/// The columns of such a row, in the order in which they are asked for.
pub open spec fn pull_request_is_read_row(v: PullRequestView) -> Seq<SqlView> {
    seq![
        SqlView::Integer(v.id),
        SqlView::Text(v.repo_slug),
        SqlView::Integer(v.number),
        SqlView::Text(v.title),
        sql::text_or_null(v.author),
        sql::text_or_null(v.head_ref),
        sql::text_or_null(v.base_ref),
        SqlView::Text(v.state),
        sql::flag(v.draft),
        sql::text_or_null(v.mergeable),
        sql::integer_or_null(v.additions),
        sql::integer_or_null(v.deletions),
        sql::integer_or_null(v.changed_files),
        SqlView::Text(v.created_at),
        SqlView::Text(v.updated_at),
        sql::text_or_null(v.merged_at),
        sql::text_or_null(v.body),
    ]
}

/// A review is read from its columns.
pub proof fn review_is_read(v: ReviewView)
    ensures
        Review::in_row(review_is_read_row(v)) == Some(v),
{
    let row = review_is_read_row(v);
    assert(row.len() == 6);
}

/// The columns of such a row, in the order in which they are asked for.
pub open spec fn review_is_read_row(v: ReviewView) -> Seq<SqlView> {
    seq![
        SqlView::Integer(v.id),
        SqlView::Integer(v.pr_id),
        sql::text_or_null(v.author),
        SqlView::Text(v.state),
        sql::text_or_null(v.body),
        sql::text_or_null(v.submitted_at),
    ]
}

/// A comment is read from its columns.
pub proof fn comment_is_read(v: CommentView)
    ensures
        Comment::in_row(comment_is_read_row(v)) == Some(v),
{
    let row = comment_is_read_row(v);
    assert(row.len() == 7);
}

/// The columns of such a row, in the order in which they are asked for.
pub open spec fn comment_is_read_row(v: CommentView) -> Seq<SqlView> {
    seq![
        SqlView::Integer(v.id),
        SqlView::Integer(v.pr_id),
        sql::text_or_null(v.author),
        SqlView::Text(v.body),
        sql::text_or_null(v.path),
        sql::integer_or_null(v.line),
        SqlView::Text(v.created_at),
    ]
}

/// A notification is read from its columns.
pub proof fn notification_is_read(v: NotificationView)
    ensures
        Notification::in_row(notification_is_read_row(v)) == Some(v),
{
    let row = notification_is_read_row(v);
    assert(row.len() == 9);
}

/// The columns of such a row, in the order in which they are asked for.
pub open spec fn notification_is_read_row(v: NotificationView) -> Seq<SqlView> {
    seq![
        SqlView::Integer(v.id),
        SqlView::Text(v.gh_id),
        sql::text_or_null(v.repo_slug),
        SqlView::Text(v.subject_type),
        SqlView::Text(v.subject_title),
        sql::text_or_null(v.subject_url),
        SqlView::Text(v.reason),
        sql::flag(v.unread),
        SqlView::Text(v.updated_at),
    ]
}

/// A branch is read from its columns.
pub proof fn branch_is_read(v: BranchView)
    ensures
        Branch::in_row(branch_is_read_row(v)) == Some(v),
{
    let row = branch_is_read_row(v);
    assert(row.len() == 7);
}

/// The columns of such a row, in the order in which they are asked for.
pub open spec fn branch_is_read_row(v: BranchView) -> Seq<SqlView> {
    seq![
        SqlView::Integer(v.id),
        SqlView::Text(v.repo_slug),
        SqlView::Text(v.name),
        sql::text_or_null(v.sha),
        sql::integer_or_null(v.behind_default),
        sql::integer_or_null(v.ahead_default),
        sql::text_or_null(v.updated_at),
    ]
}

/// A rate limit is read from its columns.
pub proof fn rate_limit_is_read(v: RateLimitView)
    ensures
        RateLimit::in_row(rate_limit_is_read_row(v)) == Some(v),
{
    let row = rate_limit_is_read_row(v);
    assert(row.len() == 4);
}

/// The columns of such a row, in the order in which they are asked for.
pub open spec fn rate_limit_is_read_row(v: RateLimitView) -> Seq<SqlView> {
    seq![
        SqlView::Text(v.api_type),
        sql::integer_or_null(v.remaining),
        sql::text_or_null(v.reset_at),
        sql::integer_or_null(v.gql_cost),
    ]
}

/// A pull request of a list is read from its columns.
pub proof fn listed_pr_is_read(v: PrRowView)
    ensures
        PrRow::in_row(listed_pr_is_read_row(v)) == Some(v),
{
    let row = listed_pr_is_read_row(v);
    assert(row.len() == 15);
}

/// The columns of such a row, in the order in which they are asked for.
pub open spec fn listed_pr_is_read_row(v: PrRowView) -> Seq<SqlView> {
    seq![
        SqlView::Text(v.repo_slug),
        SqlView::Integer(v.number),
        SqlView::Text(v.title),
        sql::text_or_null(v.author),
        sql::text_or_null(v.head_ref),
        SqlView::Text(v.state),
        sql::flag(v.draft),
        sql::text_or_null(v.mergeable),
        sql::integer_or_null(v.additions),
        sql::integer_or_null(v.deletions),
        SqlView::Text(v.created_at),
        SqlView::Text(v.updated_at),
        SqlView::Integer(v.approvals),
        SqlView::Integer(v.changes_requested),
        SqlView::Integer(v.comment_count),
    ]
}

/// A review that is shown is read from its columns.
pub proof fn shown_review_is_read(v: ReviewRowView)
    ensures
        ReviewRow::in_row(shown_review_is_read_row(v)) == Some(v),
{
    let row = shown_review_is_read_row(v);
    assert(row.len() == 4);
}

/// The columns of such a row, in the order in which they are asked for.
pub open spec fn shown_review_is_read_row(v: ReviewRowView) -> Seq<SqlView> {
    seq![
        sql::text_or_null(v.author),
        SqlView::Text(v.state),
        sql::text_or_null(v.body),
        sql::text_or_null(v.submitted_at),
    ]
}

/// A comment that is shown is read from its columns.
pub proof fn shown_comment_is_read(v: CommentRowView)
    ensures
        CommentRow::in_row(shown_comment_is_read_row(v)) == Some(v),
{
    let row = shown_comment_is_read_row(v);
    assert(row.len() == 5);
}

/// The columns of such a row, in the order in which they are asked for.
pub open spec fn shown_comment_is_read_row(v: CommentRowView) -> Seq<SqlView> {
    seq![
        sql::text_or_null(v.author),
        SqlView::Text(v.body),
        sql::text_or_null(v.path),
        sql::integer_or_null(v.line),
        SqlView::Text(v.created_at),
    ]
}

/// One pull request is read from its columns; what belongs to it is read apart.
pub proof fn shown_pr_is_read(v: PrDetailView)
    requires
        v.reviews.len() == 0,
        v.comments.len() == 0,
        v.labels.len() == 0,
    ensures
        PrDetail::in_row(shown_pr_is_read_row(v)) == Some(v),
{
    let row = shown_pr_is_read_row(v);
    assert(row.len() == 12);
}

/// The columns of such a row, in the order in which they are asked for.
pub open spec fn shown_pr_is_read_row(v: PrDetailView) -> Seq<SqlView> {
    seq![
        SqlView::Text(v.repo_slug),
        SqlView::Integer(v.number),
        SqlView::Text(v.title),
        sql::text_or_null(v.author),
        SqlView::Text(v.state),
        sql::flag(v.draft),
        sql::text_or_null(v.mergeable),
        sql::integer_or_null(v.additions),
        sql::integer_or_null(v.deletions),
        SqlView::Text(v.created_at),
        SqlView::Text(v.updated_at),
        sql::text_or_null(v.body),
    ]
}

/// The state of a poll is read from its columns.
pub proof fn poll_is_read(v: PollRowView)
    ensures
        PollRow::in_row(poll_is_read_row(v)) == Some(v),
{
    let row = poll_is_read_row(v);
    assert(row.len() == 3);
}

/// The columns of such a row, in the order in which they are asked for.
pub open spec fn poll_is_read_row(v: PollRowView) -> Seq<SqlView> {
    seq![
        SqlView::Text(v.endpoint),
        sql::text_or_null(v.last_polled_at),
        sql::text_or_null(v.last_changed_at),
    ]
}

/// An event is read from its columns; its payload is what its text holds, or null.
pub proof fn event_is_read(v: RepoEventView, payload: Seq<char>)
    requires
        json::json_of_text(payload) == Some(v.payload),
    ensures
        RepoEvent::in_row(
            seq![
                SqlView::Integer(v.id),
                SqlView::Text(v.repo_slug),
                SqlView::Text(v.gh_id),
                SqlView::Text(v.event_type),
                sql::text_or_null(v.actor),
                SqlView::Text(payload),
                SqlView::Text(v.created_at),
            ],
        ) == Some(v),
        v.payload == JsonView::Null ==> RepoEvent::in_row(
            seq![
                SqlView::Integer(v.id),
                SqlView::Text(v.repo_slug),
                SqlView::Text(v.gh_id),
                SqlView::Text(v.event_type),
                sql::text_or_null(v.actor),
                SqlView::Null,
                SqlView::Text(v.created_at),
            ],
        ) == Some(v),
{
    let a = seq![
        SqlView::Integer(v.id),
        SqlView::Text(v.repo_slug),
        SqlView::Text(v.gh_id),
        SqlView::Text(v.event_type),
        sql::text_or_null(v.actor),
        SqlView::Text(payload),
        SqlView::Text(v.created_at),
    ];
    assert(a.len() == 7);
}

/// Every row that can be read is shown, in the order of the rows.
pub proof fn every_readable_row_is_taken(rows: Seq<Seq<SqlView>>, more: Seq<SqlView>)
    ensures
        sql::readable::<PrRow>(Seq::empty()).len() == 0,
        sql::readable::<PrRow>(rows.push(more)) == (match PrRow::in_row(more) {
            Some(v) => sql::readable::<PrRow>(rows).push(v),
            None => sql::readable::<PrRow>(rows),
        }),
        query::prs::list_json(rows).len() == sql::readable::<PrRow>(rows).len(),
{
    assert(rows.push(more).drop_last() =~= rows);
}

// ---- what is shown -----------------------------------------------------------------
/// The members of what is shown of a pull request in a list, and the columns of a table of them.
pub proof fn members_of_a_listed_pr(v: PrRowView)
    ensures
        query::prs::row_json(v) == JsonView::Object(
            map![
                "repo_slug"@ => JsonView::Str(v.repo_slug),
                "number"@ => JsonView::Int(v.number),
                "title"@ => JsonView::Str(v.title),
                "author"@ => json::str_or_null(v.author),
                "head_ref"@ => json::str_or_null(v.head_ref),
                "state"@ => JsonView::Str(v.state),
                "draft"@ => JsonView::Bool(v.draft),
                "mergeable"@ => json::str_or_null(v.mergeable),
                "additions"@ => json::int_or_null(v.additions),
                "deletions"@ => json::int_or_null(v.deletions),
                "approvals"@ => JsonView::Int(v.approvals),
                "changes_requested"@ => JsonView::Int(v.changes_requested),
                "comment_count"@ => JsonView::Int(v.comment_count),
                "created_at"@ => JsonView::Str(v.created_at),
                "updated_at"@ => JsonView::Str(v.updated_at),
            ],
        ),
        query::prs::list_columns() == seq![
            "repo_slug"@,
            "number"@,
            "title"@,
            "author"@,
            "state"@,
            "approvals"@,
            "updated_at"@,
        ],
{
}

/// The members of what is shown of one pull request, of its reviews and of its comments.
pub proof fn members_of_a_shown_pr(v: PrDetailView, rv: ReviewRowView, c: CommentRowView)
    ensures
        query::prs::review_json(rv) == JsonView::Object(
            map![
                "author"@ => json::str_or_null(rv.author),
                "state"@ => JsonView::Str(rv.state),
                "body"@ => json::str_or_null(rv.body),
                "submitted_at"@ => json::str_or_null(rv.submitted_at),
            ],
        ),
        query::prs::comment_json(c) == JsonView::Object(
            map![
                "author"@ => json::str_or_null(c.author),
                "body"@ => JsonView::Str(c.body),
                "path"@ => json::str_or_null(c.path),
                "line"@ => json::int_or_null(c.line),
                "created_at"@ => JsonView::Str(c.created_at),
            ],
        ),
        query::prs::detail_json(v) == JsonView::Object(
            map![
                "repo_slug"@ => JsonView::Str(v.repo_slug),
                "number"@ => JsonView::Int(v.number),
                "title"@ => JsonView::Str(v.title),
                "author"@ => json::str_or_null(v.author),
                "state"@ => JsonView::Str(v.state),
                "draft"@ => JsonView::Bool(v.draft),
                "mergeable"@ => json::str_or_null(v.mergeable),
                "additions"@ => json::int_or_null(v.additions),
                "deletions"@ => json::int_or_null(v.deletions),
                "created_at"@ => JsonView::Str(v.created_at),
                "updated_at"@ => JsonView::Str(v.updated_at),
                "body"@ => json::str_or_null(v.body),
                "reviews"@ => JsonView::Array(
                    v.reviews.map_values(|x: ReviewRowView| query::prs::review_json(x)),
                ),
                "comments"@ => JsonView::Array(
                    v.comments.map_values(|x: CommentRowView| query::prs::comment_json(x)),
                ),
                "labels"@ => JsonView::Array(v.labels.map_values(|x: Seq<char>| JsonView::Str(x))),
            ],
        ),
        query::prs::detail_columns() == seq![
            "repo_slug"@,
            "number"@,
            "title"@,
            "state"@,
            "author"@,
        ],
{
}

/// A value of the database is shown as the JSON value that it is; of bytes only how many there
/// are is shown.
pub proof fn values_are_shown_as_what_they_are(n: i64, s: Seq<char>, v: JsonView, b: Seq<u8>)
    ensures
        query::sql::value_json(SqlView::Null) == JsonView::Null,
        query::sql::value_json(SqlView::Integer(n)) == JsonView::Int(n),
        query::sql::value_json(SqlView::Text(s)) == JsonView::Str(s),
        query::sql::value_json(SqlView::Real(v)) == v,
        query::sql::value_json(SqlView::Blob(b)) == JsonView::Str(
            "<blob "@ + number::int_text(b.len() as int) + " bytes>"@,
        ),
{
}

} // verus!
