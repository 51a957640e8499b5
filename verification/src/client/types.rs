//! What the cache holds, as its readers see it.

use vstd::prelude::*;

use crate::json::{Json, JsonView};
use crate::sql::{
    get_flag, get_integer, get_opt_integer, get_opt_text, get_payload, get_text, FromRow, Row,
    SqlView,
};
use crate::sql;

verus! {

/// A pull request.
#[derive(Debug, Clone)]
pub struct PullRequest {
    pub id: i64,
    pub repo_slug: String,
    pub number: i64,
    pub title: String,
    pub author: Option<String>,
    pub head_ref: Option<String>,
    pub base_ref: Option<String>,
    pub state: String,
    pub draft: bool,
    pub mergeable: Option<String>,
    pub additions: Option<i64>,
    pub deletions: Option<i64>,
    pub changed_files: Option<i64>,
    pub created_at: String,
    pub updated_at: String,
    pub merged_at: Option<String>,
    pub body: Option<String>,
}

/// What a pull request is.
#[verifier::ext_equal]
pub struct PullRequestView {
    pub id: i64,
    pub repo_slug: Seq<char>,
    pub number: i64,
    pub title: Seq<char>,
    pub author: Option<Seq<char>>,
    pub head_ref: Option<Seq<char>>,
    pub base_ref: Option<Seq<char>>,
    pub state: Seq<char>,
    pub draft: bool,
    pub mergeable: Option<Seq<char>>,
    pub additions: Option<i64>,
    pub deletions: Option<i64>,
    pub changed_files: Option<i64>,
    pub created_at: Seq<char>,
    pub updated_at: Seq<char>,
    pub merged_at: Option<Seq<char>>,
    pub body: Option<Seq<char>>,
}

impl DeepView for PullRequest {
    type V = PullRequestView;

    open spec fn deep_view(&self) -> PullRequestView {
        PullRequestView {
            id: self.id,
            repo_slug: self.repo_slug@,
            number: self.number,
            title: self.title@,
            author: self.author.deep_view(),
            head_ref: self.head_ref.deep_view(),
            base_ref: self.base_ref.deep_view(),
            state: self.state@,
            draft: self.draft,
            mergeable: self.mergeable.deep_view(),
            additions: self.additions,
            deletions: self.deletions,
            changed_files: self.changed_files,
            created_at: self.created_at@,
            updated_at: self.updated_at@,
            merged_at: self.merged_at.deep_view(),
            body: self.body.deep_view(),
        }
    }
}

impl FromRow for PullRequest {
    open spec fn in_row(row: Seq<SqlView>) -> Option<PullRequestView> {
        if sql::integer_in(row, 0) is Some
            && sql::text_in(row, 1) is Some
            && sql::integer_in(row, 2) is Some
            && sql::text_in(row, 3) is Some
            && sql::opt_text_in(row, 4) is Some
            && sql::opt_text_in(row, 5) is Some
            && sql::opt_text_in(row, 6) is Some
            && sql::text_in(row, 7) is Some
            && sql::flag_in(row, 8) is Some
            && sql::opt_text_in(row, 9) is Some
            && sql::opt_integer_in(row, 10) is Some
            && sql::opt_integer_in(row, 11) is Some
            && sql::opt_integer_in(row, 12) is Some
            && sql::text_in(row, 13) is Some
            && sql::text_in(row, 14) is Some
            && sql::opt_text_in(row, 15) is Some
            && sql::opt_text_in(row, 16) is Some
        {
            Some(
                PullRequestView {
                    id: sql::integer_in(row, 0)->Some_0,
                    repo_slug: sql::text_in(row, 1)->Some_0,
                    number: sql::integer_in(row, 2)->Some_0,
                    title: sql::text_in(row, 3)->Some_0,
                    author: sql::opt_text_in(row, 4)->Some_0,
                    head_ref: sql::opt_text_in(row, 5)->Some_0,
                    base_ref: sql::opt_text_in(row, 6)->Some_0,
                    state: sql::text_in(row, 7)->Some_0,
                    draft: sql::flag_in(row, 8)->Some_0,
                    mergeable: sql::opt_text_in(row, 9)->Some_0,
                    additions: sql::opt_integer_in(row, 10)->Some_0,
                    deletions: sql::opt_integer_in(row, 11)->Some_0,
                    changed_files: sql::opt_integer_in(row, 12)->Some_0,
                    created_at: sql::text_in(row, 13)->Some_0,
                    updated_at: sql::text_in(row, 14)->Some_0,
                    merged_at: sql::opt_text_in(row, 15)->Some_0,
                    body: sql::opt_text_in(row, 16)->Some_0,
                },
            )
        } else {
            None
        }
    }

    fn from_row(row: &Row) -> (r: Option<PullRequest>) {
        let id: i64 = match get_integer(row, 0) {
            Ok(v) => v,
            Err(_) => {
                return None;
            },
        };
        let repo_slug: String = match get_text(row, 1) {
            Ok(v) => v,
            Err(_) => {
                return None;
            },
        };
        let number: i64 = match get_integer(row, 2) {
            Ok(v) => v,
            Err(_) => {
                return None;
            },
        };
        let title: String = match get_text(row, 3) {
            Ok(v) => v,
            Err(_) => {
                return None;
            },
        };
        let author: Option<String> = match get_opt_text(row, 4) {
            Ok(v) => v,
            Err(_) => {
                return None;
            },
        };
        let head_ref: Option<String> = match get_opt_text(row, 5) {
            Ok(v) => v,
            Err(_) => {
                return None;
            },
        };
        let base_ref: Option<String> = match get_opt_text(row, 6) {
            Ok(v) => v,
            Err(_) => {
                return None;
            },
        };
        let state: String = match get_text(row, 7) {
            Ok(v) => v,
            Err(_) => {
                return None;
            },
        };
        let draft: bool = match get_flag(row, 8) {
            Ok(v) => v,
            Err(_) => {
                return None;
            },
        };
        let mergeable: Option<String> = match get_opt_text(row, 9) {
            Ok(v) => v,
            Err(_) => {
                return None;
            },
        };
        let additions: Option<i64> = match get_opt_integer(row, 10) {
            Ok(v) => v,
            Err(_) => {
                return None;
            },
        };
        let deletions: Option<i64> = match get_opt_integer(row, 11) {
            Ok(v) => v,
            Err(_) => {
                return None;
            },
        };
        let changed_files: Option<i64> = match get_opt_integer(row, 12) {
            Ok(v) => v,
            Err(_) => {
                return None;
            },
        };
        let created_at: String = match get_text(row, 13) {
            Ok(v) => v,
            Err(_) => {
                return None;
            },
        };
        let updated_at: String = match get_text(row, 14) {
            Ok(v) => v,
            Err(_) => {
                return None;
            },
        };
        let merged_at: Option<String> = match get_opt_text(row, 15) {
            Ok(v) => v,
            Err(_) => {
                return None;
            },
        };
        let body: Option<String> = match get_opt_text(row, 16) {
            Ok(v) => v,
            Err(_) => {
                return None;
            },
        };
        Some(
            PullRequest {
                id,
                repo_slug,
                number,
                title,
                author,
                head_ref,
                base_ref,
                state,
                draft,
                mergeable,
                additions,
                deletions,
                changed_files,
                created_at,
                updated_at,
                merged_at,
                body,
            },
        )
    }
}

/// A review of a pull request.
#[derive(Debug, Clone)]
pub struct Review {
    pub id: i64,
    pub pr_id: i64,
    pub author: Option<String>,
    pub state: String,
    pub body: Option<String>,
    pub submitted_at: Option<String>,
}

/// What a review is.
#[verifier::ext_equal]
pub struct ReviewView {
    pub id: i64,
    pub pr_id: i64,
    pub author: Option<Seq<char>>,
    pub state: Seq<char>,
    pub body: Option<Seq<char>>,
    pub submitted_at: Option<Seq<char>>,
}

impl DeepView for Review {
    type V = ReviewView;

    open spec fn deep_view(&self) -> ReviewView {
        ReviewView {
            id: self.id,
            pr_id: self.pr_id,
            author: self.author.deep_view(),
            state: self.state@,
            body: self.body.deep_view(),
            submitted_at: self.submitted_at.deep_view(),
        }
    }
}

impl FromRow for Review {
    open spec fn in_row(row: Seq<SqlView>) -> Option<ReviewView> {
        if sql::integer_in(row, 0) is Some
            && sql::integer_in(row, 1) is Some
            && sql::opt_text_in(row, 2) is Some
            && sql::text_in(row, 3) is Some
            && sql::opt_text_in(row, 4) is Some
            && sql::opt_text_in(row, 5) is Some
        {
            Some(
                ReviewView {
                    id: sql::integer_in(row, 0)->Some_0,
                    pr_id: sql::integer_in(row, 1)->Some_0,
                    author: sql::opt_text_in(row, 2)->Some_0,
                    state: sql::text_in(row, 3)->Some_0,
                    body: sql::opt_text_in(row, 4)->Some_0,
                    submitted_at: sql::opt_text_in(row, 5)->Some_0,
                },
            )
        } else {
            None
        }
    }

    fn from_row(row: &Row) -> (r: Option<Review>) {
        let id: i64 = match get_integer(row, 0) {
            Ok(v) => v,
            Err(_) => {
                return None;
            },
        };
        let pr_id: i64 = match get_integer(row, 1) {
            Ok(v) => v,
            Err(_) => {
                return None;
            },
        };
        let author: Option<String> = match get_opt_text(row, 2) {
            Ok(v) => v,
            Err(_) => {
                return None;
            },
        };
        let state: String = match get_text(row, 3) {
            Ok(v) => v,
            Err(_) => {
                return None;
            },
        };
        let body: Option<String> = match get_opt_text(row, 4) {
            Ok(v) => v,
            Err(_) => {
                return None;
            },
        };
        let submitted_at: Option<String> = match get_opt_text(row, 5) {
            Ok(v) => v,
            Err(_) => {
                return None;
            },
        };
        Some(Review { id, pr_id, author, state, body, submitted_at })
    }
}

/// A comment on a pull request.
#[derive(Debug, Clone)]
pub struct Comment {
    pub id: i64,
    pub pr_id: i64,
    pub author: Option<String>,
    pub body: String,
    pub path: Option<String>,
    pub line: Option<i64>,
    pub created_at: String,
}

/// What a comment is.
#[verifier::ext_equal]
pub struct CommentView {
    pub id: i64,
    pub pr_id: i64,
    pub author: Option<Seq<char>>,
    pub body: Seq<char>,
    pub path: Option<Seq<char>>,
    pub line: Option<i64>,
    pub created_at: Seq<char>,
}

impl DeepView for Comment {
    type V = CommentView;

    open spec fn deep_view(&self) -> CommentView {
        CommentView {
            id: self.id,
            pr_id: self.pr_id,
            author: self.author.deep_view(),
            body: self.body@,
            path: self.path.deep_view(),
            line: self.line,
            created_at: self.created_at@,
        }
    }
}

impl FromRow for Comment {
    open spec fn in_row(row: Seq<SqlView>) -> Option<CommentView> {
        if sql::integer_in(row, 0) is Some
            && sql::integer_in(row, 1) is Some
            && sql::opt_text_in(row, 2) is Some
            && sql::text_in(row, 3) is Some
            && sql::opt_text_in(row, 4) is Some
            && sql::opt_integer_in(row, 5) is Some
            && sql::text_in(row, 6) is Some
        {
            Some(
                CommentView {
                    id: sql::integer_in(row, 0)->Some_0,
                    pr_id: sql::integer_in(row, 1)->Some_0,
                    author: sql::opt_text_in(row, 2)->Some_0,
                    body: sql::text_in(row, 3)->Some_0,
                    path: sql::opt_text_in(row, 4)->Some_0,
                    line: sql::opt_integer_in(row, 5)->Some_0,
                    created_at: sql::text_in(row, 6)->Some_0,
                },
            )
        } else {
            None
        }
    }

    fn from_row(row: &Row) -> (r: Option<Comment>) {
        let id: i64 = match get_integer(row, 0) {
            Ok(v) => v,
            Err(_) => {
                return None;
            },
        };
        let pr_id: i64 = match get_integer(row, 1) {
            Ok(v) => v,
            Err(_) => {
                return None;
            },
        };
        let author: Option<String> = match get_opt_text(row, 2) {
            Ok(v) => v,
            Err(_) => {
                return None;
            },
        };
        let body: String = match get_text(row, 3) {
            Ok(v) => v,
            Err(_) => {
                return None;
            },
        };
        let path: Option<String> = match get_opt_text(row, 4) {
            Ok(v) => v,
            Err(_) => {
                return None;
            },
        };
        let line: Option<i64> = match get_opt_integer(row, 5) {
            Ok(v) => v,
            Err(_) => {
                return None;
            },
        };
        let created_at: String = match get_text(row, 6) {
            Ok(v) => v,
            Err(_) => {
                return None;
            },
        };
        Some(Comment { id, pr_id, author, body, path, line, created_at })
    }
}

/// A notification.
#[derive(Debug, Clone)]
pub struct Notification {
    pub id: i64,
    pub gh_id: String,
    pub repo_slug: Option<String>,
    pub subject_type: String,
    pub subject_title: String,
    pub subject_url: Option<String>,
    pub reason: String,
    pub unread: bool,
    pub updated_at: String,
}

/// What a notification is.
#[verifier::ext_equal]
pub struct NotificationView {
    pub id: i64,
    pub gh_id: Seq<char>,
    pub repo_slug: Option<Seq<char>>,
    pub subject_type: Seq<char>,
    pub subject_title: Seq<char>,
    pub subject_url: Option<Seq<char>>,
    pub reason: Seq<char>,
    pub unread: bool,
    pub updated_at: Seq<char>,
}

impl DeepView for Notification {
    type V = NotificationView;

    open spec fn deep_view(&self) -> NotificationView {
        NotificationView {
            id: self.id,
            gh_id: self.gh_id@,
            repo_slug: self.repo_slug.deep_view(),
            subject_type: self.subject_type@,
            subject_title: self.subject_title@,
            subject_url: self.subject_url.deep_view(),
            reason: self.reason@,
            unread: self.unread,
            updated_at: self.updated_at@,
        }
    }
}

impl FromRow for Notification {
    open spec fn in_row(row: Seq<SqlView>) -> Option<NotificationView> {
        if sql::integer_in(row, 0) is Some
            && sql::text_in(row, 1) is Some
            && sql::opt_text_in(row, 2) is Some
            && sql::text_in(row, 3) is Some
            && sql::text_in(row, 4) is Some
            && sql::opt_text_in(row, 5) is Some
            && sql::text_in(row, 6) is Some
            && sql::flag_in(row, 7) is Some
            && sql::text_in(row, 8) is Some
        {
            Some(
                NotificationView {
                    id: sql::integer_in(row, 0)->Some_0,
                    gh_id: sql::text_in(row, 1)->Some_0,
                    repo_slug: sql::opt_text_in(row, 2)->Some_0,
                    subject_type: sql::text_in(row, 3)->Some_0,
                    subject_title: sql::text_in(row, 4)->Some_0,
                    subject_url: sql::opt_text_in(row, 5)->Some_0,
                    reason: sql::text_in(row, 6)->Some_0,
                    unread: sql::flag_in(row, 7)->Some_0,
                    updated_at: sql::text_in(row, 8)->Some_0,
                },
            )
        } else {
            None
        }
    }

    fn from_row(row: &Row) -> (r: Option<Notification>) {
        let id: i64 = match get_integer(row, 0) {
            Ok(v) => v,
            Err(_) => {
                return None;
            },
        };
        let gh_id: String = match get_text(row, 1) {
            Ok(v) => v,
            Err(_) => {
                return None;
            },
        };
        let repo_slug: Option<String> = match get_opt_text(row, 2) {
            Ok(v) => v,
            Err(_) => {
                return None;
            },
        };
        let subject_type: String = match get_text(row, 3) {
            Ok(v) => v,
            Err(_) => {
                return None;
            },
        };
        let subject_title: String = match get_text(row, 4) {
            Ok(v) => v,
            Err(_) => {
                return None;
            },
        };
        let subject_url: Option<String> = match get_opt_text(row, 5) {
            Ok(v) => v,
            Err(_) => {
                return None;
            },
        };
        let reason: String = match get_text(row, 6) {
            Ok(v) => v,
            Err(_) => {
                return None;
            },
        };
        let unread: bool = match get_flag(row, 7) {
            Ok(v) => v,
            Err(_) => {
                return None;
            },
        };
        let updated_at: String = match get_text(row, 8) {
            Ok(v) => v,
            Err(_) => {
                return None;
            },
        };
        Some(
            Notification {
                id,
                gh_id,
                repo_slug,
                subject_type,
                subject_title,
                subject_url,
                reason,
                unread,
                updated_at,
            },
        )
    }
}

/// A branch.
#[derive(Debug, Clone)]
pub struct Branch {
    pub id: i64,
    pub repo_slug: String,
    pub name: String,
    pub sha: Option<String>,
    pub behind_default: Option<i64>,
    pub ahead_default: Option<i64>,
    pub updated_at: Option<String>,
}

/// What a branch is.
#[verifier::ext_equal]
pub struct BranchView {
    pub id: i64,
    pub repo_slug: Seq<char>,
    pub name: Seq<char>,
    pub sha: Option<Seq<char>>,
    pub behind_default: Option<i64>,
    pub ahead_default: Option<i64>,
    pub updated_at: Option<Seq<char>>,
}

impl DeepView for Branch {
    type V = BranchView;

    open spec fn deep_view(&self) -> BranchView {
        BranchView {
            id: self.id,
            repo_slug: self.repo_slug@,
            name: self.name@,
            sha: self.sha.deep_view(),
            behind_default: self.behind_default,
            ahead_default: self.ahead_default,
            updated_at: self.updated_at.deep_view(),
        }
    }
}

impl FromRow for Branch {
    open spec fn in_row(row: Seq<SqlView>) -> Option<BranchView> {
        if sql::integer_in(row, 0) is Some
            && sql::text_in(row, 1) is Some
            && sql::text_in(row, 2) is Some
            && sql::opt_text_in(row, 3) is Some
            && sql::opt_integer_in(row, 4) is Some
            && sql::opt_integer_in(row, 5) is Some
            && sql::opt_text_in(row, 6) is Some
        {
            Some(
                BranchView {
                    id: sql::integer_in(row, 0)->Some_0,
                    repo_slug: sql::text_in(row, 1)->Some_0,
                    name: sql::text_in(row, 2)->Some_0,
                    sha: sql::opt_text_in(row, 3)->Some_0,
                    behind_default: sql::opt_integer_in(row, 4)->Some_0,
                    ahead_default: sql::opt_integer_in(row, 5)->Some_0,
                    updated_at: sql::opt_text_in(row, 6)->Some_0,
                },
            )
        } else {
            None
        }
    }

    fn from_row(row: &Row) -> (r: Option<Branch>) {
        let id: i64 = match get_integer(row, 0) {
            Ok(v) => v,
            Err(_) => {
                return None;
            },
        };
        let repo_slug: String = match get_text(row, 1) {
            Ok(v) => v,
            Err(_) => {
                return None;
            },
        };
        let name: String = match get_text(row, 2) {
            Ok(v) => v,
            Err(_) => {
                return None;
            },
        };
        let sha: Option<String> = match get_opt_text(row, 3) {
            Ok(v) => v,
            Err(_) => {
                return None;
            },
        };
        let behind_default: Option<i64> = match get_opt_integer(row, 4) {
            Ok(v) => v,
            Err(_) => {
                return None;
            },
        };
        let ahead_default: Option<i64> = match get_opt_integer(row, 5) {
            Ok(v) => v,
            Err(_) => {
                return None;
            },
        };
        let updated_at: Option<String> = match get_opt_text(row, 6) {
            Ok(v) => v,
            Err(_) => {
                return None;
            },
        };
        Some(Branch { id, repo_slug, name, sha, behind_default, ahead_default, updated_at })
    }
}

/// An event of a repository.
#[derive(Debug, Clone)]
pub struct RepoEvent {
    pub id: i64,
    pub repo_slug: String,
    pub gh_id: String,
    pub event_type: String,
    pub actor: Option<String>,
    pub payload: Json,
    pub created_at: String,
}

/// What a repo event is.
#[verifier::ext_equal]
pub struct RepoEventView {
    pub id: i64,
    pub repo_slug: Seq<char>,
    pub gh_id: Seq<char>,
    pub event_type: Seq<char>,
    pub actor: Option<Seq<char>>,
    pub payload: JsonView,
    pub created_at: Seq<char>,
}

impl DeepView for RepoEvent {
    type V = RepoEventView;

    open spec fn deep_view(&self) -> RepoEventView {
        RepoEventView {
            id: self.id,
            repo_slug: self.repo_slug@,
            gh_id: self.gh_id@,
            event_type: self.event_type@,
            actor: self.actor.deep_view(),
            payload: self.payload.deep_view(),
            created_at: self.created_at@,
        }
    }
}

impl FromRow for RepoEvent {
    open spec fn in_row(row: Seq<SqlView>) -> Option<RepoEventView> {
        if sql::integer_in(row, 0) is Some
            && sql::text_in(row, 1) is Some
            && sql::text_in(row, 2) is Some
            && sql::text_in(row, 3) is Some
            && sql::opt_text_in(row, 4) is Some
            && sql::payload_in(row, 5) is Some
            && sql::text_in(row, 6) is Some
        {
            Some(
                RepoEventView {
                    id: sql::integer_in(row, 0)->Some_0,
                    repo_slug: sql::text_in(row, 1)->Some_0,
                    gh_id: sql::text_in(row, 2)->Some_0,
                    event_type: sql::text_in(row, 3)->Some_0,
                    actor: sql::opt_text_in(row, 4)->Some_0,
                    payload: sql::payload_in(row, 5)->Some_0,
                    created_at: sql::text_in(row, 6)->Some_0,
                },
            )
        } else {
            None
        }
    }

    fn from_row(row: &Row) -> (r: Option<RepoEvent>) {
        let id: i64 = match get_integer(row, 0) {
            Ok(v) => v,
            Err(_) => {
                return None;
            },
        };
        let repo_slug: String = match get_text(row, 1) {
            Ok(v) => v,
            Err(_) => {
                return None;
            },
        };
        let gh_id: String = match get_text(row, 2) {
            Ok(v) => v,
            Err(_) => {
                return None;
            },
        };
        let event_type: String = match get_text(row, 3) {
            Ok(v) => v,
            Err(_) => {
                return None;
            },
        };
        let actor: Option<String> = match get_opt_text(row, 4) {
            Ok(v) => v,
            Err(_) => {
                return None;
            },
        };
        let payload: Json = match get_payload(row, 5) {
            Ok(v) => v,
            Err(_) => {
                return None;
            },
        };
        let created_at: String = match get_text(row, 6) {
            Ok(v) => v,
            Err(_) => {
                return None;
            },
        };
        Some(RepoEvent { id, repo_slug, gh_id, event_type, actor, payload, created_at })
    }
}

/// How much of a rate limit is left.
#[derive(Debug, Clone)]
pub struct RateLimit {
    pub api_type: String,
    pub remaining: Option<i64>,
    pub reset_at: Option<String>,
    pub gql_cost: Option<i64>,
}

/// What a rate limit is.
#[verifier::ext_equal]
pub struct RateLimitView {
    pub api_type: Seq<char>,
    pub remaining: Option<i64>,
    pub reset_at: Option<Seq<char>>,
    pub gql_cost: Option<i64>,
}

impl DeepView for RateLimit {
    type V = RateLimitView;

    open spec fn deep_view(&self) -> RateLimitView {
        RateLimitView {
            api_type: self.api_type@,
            remaining: self.remaining,
            reset_at: self.reset_at.deep_view(),
            gql_cost: self.gql_cost,
        }
    }
}

impl FromRow for RateLimit {
    open spec fn in_row(row: Seq<SqlView>) -> Option<RateLimitView> {
        if sql::text_in(row, 0) is Some
            && sql::opt_integer_in(row, 1) is Some
            && sql::opt_text_in(row, 2) is Some
            && sql::opt_integer_in(row, 3) is Some
        {
            Some(
                RateLimitView {
                    api_type: sql::text_in(row, 0)->Some_0,
                    remaining: sql::opt_integer_in(row, 1)->Some_0,
                    reset_at: sql::opt_text_in(row, 2)->Some_0,
                    gql_cost: sql::opt_integer_in(row, 3)->Some_0,
                },
            )
        } else {
            None
        }
    }

    fn from_row(row: &Row) -> (r: Option<RateLimit>) {
        let api_type: String = match get_text(row, 0) {
            Ok(v) => v,
            Err(_) => {
                return None;
            },
        };
        let remaining: Option<i64> = match get_opt_integer(row, 1) {
            Ok(v) => v,
            Err(_) => {
                return None;
            },
        };
        let reset_at: Option<String> = match get_opt_text(row, 2) {
            Ok(v) => v,
            Err(_) => {
                return None;
            },
        };
        let gql_cost: Option<i64> = match get_opt_integer(row, 3) {
            Ok(v) => v,
            Err(_) => {
                return None;
            },
        };
        Some(RateLimit { api_type, remaining, reset_at, gql_cost })
    }
}

/// Which pull requests are asked for. Where no state is given, the open ones are.
#[derive(Debug, Clone)]
pub struct PrFilter<'a> {
    pub repo: Option<&'a str>,
    pub state: Option<&'a str>,
    /// Whether only those without an approving review are.
    pub needs_review: bool,
    pub author: Option<&'a str>,
}

impl<'a> Default for PrFilter<'a> {
    fn default() -> (r: PrFilter<'a>)
        ensures
            r.repo is None && r.state is None && !r.needs_review && r.author is None,
    {
        PrFilter { repo: None, state: None, needs_review: false, author: None }
    }
}

} // verus!
