//! Pull requests, as they are shown.

use vstd::prelude::*;

use crate::client::query::{equals, in_repo, push_condition, with_id, NOT_APPROVED};
use crate::client::query;
use crate::json::{opt_int, opt_str, Json, JsonView};
use crate::output::{render, Format};
use crate::sql::{
    get_flag, get_integer, get_opt_integer, get_opt_text, get_text, plain_statement, read_readable,
    FromRow, Row, SqlValue, SqlView, Statement, StatementView,
};
use crate::text::{cat3, cut, join};
use crate::{json, output, sql, text};

verus! {

/// A pull request in a list.
pub struct PrRow {
    pub repo_slug: String,
    pub number: i64,
    pub title: String,
    pub author: Option<String>,
    pub head_ref: Option<String>,
    pub state: String,
    pub draft: bool,
    pub mergeable: Option<String>,
    pub additions: Option<i64>,
    pub deletions: Option<i64>,
    pub created_at: String,
    pub updated_at: String,
    pub approvals: i64,
    pub changes_requested: i64,
    pub comment_count: i64,
}

/// What a pr row is.
#[verifier::ext_equal]
pub struct PrRowView {
    pub repo_slug: Seq<char>,
    pub number: i64,
    pub title: Seq<char>,
    pub author: Option<Seq<char>>,
    pub head_ref: Option<Seq<char>>,
    pub state: Seq<char>,
    pub draft: bool,
    pub mergeable: Option<Seq<char>>,
    pub additions: Option<i64>,
    pub deletions: Option<i64>,
    pub created_at: Seq<char>,
    pub updated_at: Seq<char>,
    pub approvals: i64,
    pub changes_requested: i64,
    pub comment_count: i64,
}

impl DeepView for PrRow {
    type V = PrRowView;

    open spec fn deep_view(&self) -> PrRowView {
        PrRowView {
            repo_slug: self.repo_slug@,
            number: self.number,
            title: self.title@,
            author: self.author.deep_view(),
            head_ref: self.head_ref.deep_view(),
            state: self.state@,
            draft: self.draft,
            mergeable: self.mergeable.deep_view(),
            additions: self.additions,
            deletions: self.deletions,
            created_at: self.created_at@,
            updated_at: self.updated_at@,
            approvals: self.approvals,
            changes_requested: self.changes_requested,
            comment_count: self.comment_count,
        }
    }
}

impl FromRow for PrRow {
    open spec fn in_row(row: Seq<SqlView>) -> Option<PrRowView> {
        if sql::text_in(row, 0) is Some
            && sql::integer_in(row, 1) is Some
            && sql::text_in(row, 2) is Some
            && sql::opt_text_in(row, 3) is Some
            && sql::opt_text_in(row, 4) is Some
            && sql::text_in(row, 5) is Some
            && sql::flag_in(row, 6) is Some
            && sql::opt_text_in(row, 7) is Some
            && sql::opt_integer_in(row, 8) is Some
            && sql::opt_integer_in(row, 9) is Some
            && sql::text_in(row, 10) is Some
            && sql::text_in(row, 11) is Some
            && sql::integer_in(row, 12) is Some
            && sql::integer_in(row, 13) is Some
            && sql::integer_in(row, 14) is Some
        {
            Some(
                PrRowView {
                    repo_slug: sql::text_in(row, 0)->Some_0,
                    number: sql::integer_in(row, 1)->Some_0,
                    title: sql::text_in(row, 2)->Some_0,
                    author: sql::opt_text_in(row, 3)->Some_0,
                    head_ref: sql::opt_text_in(row, 4)->Some_0,
                    state: sql::text_in(row, 5)->Some_0,
                    draft: sql::flag_in(row, 6)->Some_0,
                    mergeable: sql::opt_text_in(row, 7)->Some_0,
                    additions: sql::opt_integer_in(row, 8)->Some_0,
                    deletions: sql::opt_integer_in(row, 9)->Some_0,
                    created_at: sql::text_in(row, 10)->Some_0,
                    updated_at: sql::text_in(row, 11)->Some_0,
                    approvals: sql::integer_in(row, 12)->Some_0,
                    changes_requested: sql::integer_in(row, 13)->Some_0,
                    comment_count: sql::integer_in(row, 14)->Some_0,
                },
            )
        } else {
            None
        }
    }

    fn from_row(row: &Row) -> (r: Option<PrRow>) {
        let repo_slug: String = match get_text(row, 0) {
            Ok(v) => v,
            Err(_) => {
                return None;
            },
        };
        let number: i64 = match get_integer(row, 1) {
            Ok(v) => v,
            Err(_) => {
                return None;
            },
        };
        let title: String = match get_text(row, 2) {
            Ok(v) => v,
            Err(_) => {
                return None;
            },
        };
        let author: Option<String> = match get_opt_text(row, 3) {
            Ok(v) => v,
            Err(_) => {
                return None;
            },
        };
        let head_ref: Option<String> = match get_opt_text(row, 4) {
            Ok(v) => v,
            Err(_) => {
                return None;
            },
        };
        let state: String = match get_text(row, 5) {
            Ok(v) => v,
            Err(_) => {
                return None;
            },
        };
        let draft: bool = match get_flag(row, 6) {
            Ok(v) => v,
            Err(_) => {
                return None;
            },
        };
        let mergeable: Option<String> = match get_opt_text(row, 7) {
            Ok(v) => v,
            Err(_) => {
                return None;
            },
        };
        let additions: Option<i64> = match get_opt_integer(row, 8) {
            Ok(v) => v,
            Err(_) => {
                return None;
            },
        };
        let deletions: Option<i64> = match get_opt_integer(row, 9) {
            Ok(v) => v,
            Err(_) => {
                return None;
            },
        };
        let created_at: String = match get_text(row, 10) {
            Ok(v) => v,
            Err(_) => {
                return None;
            },
        };
        let updated_at: String = match get_text(row, 11) {
            Ok(v) => v,
            Err(_) => {
                return None;
            },
        };
        let approvals: i64 = match get_integer(row, 12) {
            Ok(v) => v,
            Err(_) => {
                return None;
            },
        };
        let changes_requested: i64 = match get_integer(row, 13) {
            Ok(v) => v,
            Err(_) => {
                return None;
            },
        };
        let comment_count: i64 = match get_integer(row, 14) {
            Ok(v) => v,
            Err(_) => {
                return None;
            },
        };
        Some(
            PrRow {
                repo_slug,
                number,
                title,
                author,
                head_ref,
                state,
                draft,
                mergeable,
                additions,
                deletions,
                created_at,
                updated_at,
                approvals,
                changes_requested,
                comment_count,
            },
        )
    }
}

/// A review of a pull request.
pub struct ReviewRow {
    pub author: Option<String>,
    pub state: String,
    pub body: Option<String>,
    pub submitted_at: Option<String>,
}

/// What a review row is.
#[verifier::ext_equal]
pub struct ReviewRowView {
    pub author: Option<Seq<char>>,
    pub state: Seq<char>,
    pub body: Option<Seq<char>>,
    pub submitted_at: Option<Seq<char>>,
}

impl DeepView for ReviewRow {
    type V = ReviewRowView;

    open spec fn deep_view(&self) -> ReviewRowView {
        ReviewRowView {
            author: self.author.deep_view(),
            state: self.state@,
            body: self.body.deep_view(),
            submitted_at: self.submitted_at.deep_view(),
        }
    }
}

impl FromRow for ReviewRow {
    open spec fn in_row(row: Seq<SqlView>) -> Option<ReviewRowView> {
        if sql::opt_text_in(row, 0) is Some
            && sql::text_in(row, 1) is Some
            && sql::opt_text_in(row, 2) is Some
            && sql::opt_text_in(row, 3) is Some
        {
            Some(
                ReviewRowView {
                    author: sql::opt_text_in(row, 0)->Some_0,
                    state: sql::text_in(row, 1)->Some_0,
                    body: sql::opt_text_in(row, 2)->Some_0,
                    submitted_at: sql::opt_text_in(row, 3)->Some_0,
                },
            )
        } else {
            None
        }
    }

    fn from_row(row: &Row) -> (r: Option<ReviewRow>) {
        let author: Option<String> = match get_opt_text(row, 0) {
            Ok(v) => v,
            Err(_) => {
                return None;
            },
        };
        let state: String = match get_text(row, 1) {
            Ok(v) => v,
            Err(_) => {
                return None;
            },
        };
        let body: Option<String> = match get_opt_text(row, 2) {
            Ok(v) => v,
            Err(_) => {
                return None;
            },
        };
        let submitted_at: Option<String> = match get_opt_text(row, 3) {
            Ok(v) => v,
            Err(_) => {
                return None;
            },
        };
        Some(ReviewRow { author, state, body, submitted_at })
    }
}

/// A comment on a pull request.
pub struct CommentRow {
    pub author: Option<String>,
    pub body: String,
    pub path: Option<String>,
    pub line: Option<i64>,
    pub created_at: String,
}

/// What a comment row is.
#[verifier::ext_equal]
pub struct CommentRowView {
    pub author: Option<Seq<char>>,
    pub body: Seq<char>,
    pub path: Option<Seq<char>>,
    pub line: Option<i64>,
    pub created_at: Seq<char>,
}

impl DeepView for CommentRow {
    type V = CommentRowView;

    open spec fn deep_view(&self) -> CommentRowView {
        CommentRowView {
            author: self.author.deep_view(),
            body: self.body@,
            path: self.path.deep_view(),
            line: self.line,
            created_at: self.created_at@,
        }
    }
}

impl FromRow for CommentRow {
    open spec fn in_row(row: Seq<SqlView>) -> Option<CommentRowView> {
        if sql::opt_text_in(row, 0) is Some
            && sql::text_in(row, 1) is Some
            && sql::opt_text_in(row, 2) is Some
            && sql::opt_integer_in(row, 3) is Some
            && sql::text_in(row, 4) is Some
        {
            Some(
                CommentRowView {
                    author: sql::opt_text_in(row, 0)->Some_0,
                    body: sql::text_in(row, 1)->Some_0,
                    path: sql::opt_text_in(row, 2)->Some_0,
                    line: sql::opt_integer_in(row, 3)->Some_0,
                    created_at: sql::text_in(row, 4)->Some_0,
                },
            )
        } else {
            None
        }
    }

    fn from_row(row: &Row) -> (r: Option<CommentRow>) {
        let author: Option<String> = match get_opt_text(row, 0) {
            Ok(v) => v,
            Err(_) => {
                return None;
            },
        };
        let body: String = match get_text(row, 1) {
            Ok(v) => v,
            Err(_) => {
                return None;
            },
        };
        let path: Option<String> = match get_opt_text(row, 2) {
            Ok(v) => v,
            Err(_) => {
                return None;
            },
        };
        let line: Option<i64> = match get_opt_integer(row, 3) {
            Ok(v) => v,
            Err(_) => {
                return None;
            },
        };
        let created_at: String = match get_text(row, 4) {
            Ok(v) => v,
            Err(_) => {
                return None;
            },
        };
        Some(CommentRow { author, body, path, line, created_at })
    }
}

/// A pull request with all that belongs to it. A row of its own holds none of the reviews,
/// comments and labels.
pub struct PrDetail {
    pub repo_slug: String,
    pub number: i64,
    pub title: String,
    pub author: Option<String>,
    pub state: String,
    pub draft: bool,
    pub mergeable: Option<String>,
    pub additions: Option<i64>,
    pub deletions: Option<i64>,
    pub created_at: String,
    pub updated_at: String,
    pub body: Option<String>,
    pub reviews: Vec<ReviewRow>,
    pub comments: Vec<CommentRow>,
    pub labels: Vec<String>,
}

/// What a pr detail is.
#[verifier::ext_equal]
pub struct PrDetailView {
    pub repo_slug: Seq<char>,
    pub number: i64,
    pub title: Seq<char>,
    pub author: Option<Seq<char>>,
    pub state: Seq<char>,
    pub draft: bool,
    pub mergeable: Option<Seq<char>>,
    pub additions: Option<i64>,
    pub deletions: Option<i64>,
    pub created_at: Seq<char>,
    pub updated_at: Seq<char>,
    pub body: Option<Seq<char>>,
    pub reviews: Seq<ReviewRowView>,
    pub comments: Seq<CommentRowView>,
    pub labels: Seq<Seq<char>>,
}

impl DeepView for PrDetail {
    type V = PrDetailView;

    open spec fn deep_view(&self) -> PrDetailView {
        PrDetailView {
            repo_slug: self.repo_slug@,
            number: self.number,
            title: self.title@,
            author: self.author.deep_view(),
            state: self.state@,
            draft: self.draft,
            mergeable: self.mergeable.deep_view(),
            additions: self.additions,
            deletions: self.deletions,
            created_at: self.created_at@,
            updated_at: self.updated_at@,
            body: self.body.deep_view(),
            reviews: self.reviews.deep_view(),
            comments: self.comments.deep_view(),
            labels: self.labels.deep_view(),
        }
    }
}

impl FromRow for PrDetail {
    open spec fn in_row(row: Seq<SqlView>) -> Option<PrDetailView> {
        if sql::text_in(row, 0) is Some
            && sql::integer_in(row, 1) is Some
            && sql::text_in(row, 2) is Some
            && sql::opt_text_in(row, 3) is Some
            && sql::text_in(row, 4) is Some
            && sql::flag_in(row, 5) is Some
            && sql::opt_text_in(row, 6) is Some
            && sql::opt_integer_in(row, 7) is Some
            && sql::opt_integer_in(row, 8) is Some
            && sql::text_in(row, 9) is Some
            && sql::text_in(row, 10) is Some
            && sql::opt_text_in(row, 11) is Some
        {
            Some(
                PrDetailView {
                    repo_slug: sql::text_in(row, 0)->Some_0,
                    number: sql::integer_in(row, 1)->Some_0,
                    title: sql::text_in(row, 2)->Some_0,
                    author: sql::opt_text_in(row, 3)->Some_0,
                    state: sql::text_in(row, 4)->Some_0,
                    draft: sql::flag_in(row, 5)->Some_0,
                    mergeable: sql::opt_text_in(row, 6)->Some_0,
                    additions: sql::opt_integer_in(row, 7)->Some_0,
                    deletions: sql::opt_integer_in(row, 8)->Some_0,
                    created_at: sql::text_in(row, 9)->Some_0,
                    updated_at: sql::text_in(row, 10)->Some_0,
                    body: sql::opt_text_in(row, 11)->Some_0,
                    reviews: Seq::empty(),
                    comments: Seq::empty(),
                    labels: Seq::empty(),
                },
            )
        } else {
            None
        }
    }

    fn from_row(row: &Row) -> (r: Option<PrDetail>) {
        let repo_slug: String = match get_text(row, 0) {
            Ok(v) => v,
            Err(_) => {
                return None;
            },
        };
        let number: i64 = match get_integer(row, 1) {
            Ok(v) => v,
            Err(_) => {
                return None;
            },
        };
        let title: String = match get_text(row, 2) {
            Ok(v) => v,
            Err(_) => {
                return None;
            },
        };
        let author: Option<String> = match get_opt_text(row, 3) {
            Ok(v) => v,
            Err(_) => {
                return None;
            },
        };
        let state: String = match get_text(row, 4) {
            Ok(v) => v,
            Err(_) => {
                return None;
            },
        };
        let draft: bool = match get_flag(row, 5) {
            Ok(v) => v,
            Err(_) => {
                return None;
            },
        };
        let mergeable: Option<String> = match get_opt_text(row, 6) {
            Ok(v) => v,
            Err(_) => {
                return None;
            },
        };
        let additions: Option<i64> = match get_opt_integer(row, 7) {
            Ok(v) => v,
            Err(_) => {
                return None;
            },
        };
        let deletions: Option<i64> = match get_opt_integer(row, 8) {
            Ok(v) => v,
            Err(_) => {
                return None;
            },
        };
        let created_at: String = match get_text(row, 9) {
            Ok(v) => v,
            Err(_) => {
                return None;
            },
        };
        let updated_at: String = match get_text(row, 10) {
            Ok(v) => v,
            Err(_) => {
                return None;
            },
        };
        let body: Option<String> = match get_opt_text(row, 11) {
            Ok(v) => v,
            Err(_) => {
                return None;
            },
        };
        let r: PrDetail = PrDetail {
            repo_slug,
            number,
            title,
            author,
            state,
            draft,
            mergeable,
            additions,
            deletions,
            created_at,
            updated_at,
            body,
            reviews: Vec::new(),
            comments: Vec::new(),
            labels: Vec::new(),
        };
        assert(r.reviews.deep_view() =~= Seq::<ReviewRowView>::empty());
        assert(r.comments.deep_view() =~= Seq::<CommentRowView>::empty());
        assert(r.labels.deep_view() =~= Seq::<Seq<char>>::empty());
        Some(r)
    }
}

// ---- as JSON -----------------------------------------------------------------------
/// The pull request as a JSON object.
pub open spec fn row_json(v: PrRowView) -> JsonView {
    JsonView::Object(
        map![
            "repo_slug"@ => JsonView::Str(v.repo_slug),
            "number"@ => JsonView::Int(v.number),
            "title"@ => JsonView::Str(v.title),
            "author"@ => json::str_or_null(v.author),
            "head_ref"@ => json::str_or_null(v.head_ref),
            "state"@ => JsonView::Str(v.state),
            "draft"@ => JsonView::Bool(v.draft),
            "mergeable"@ => json::str_or_null(v.mergeable),
            "additions"@ => json::int_or_null(v.additions),
            "deletions"@ => json::int_or_null(v.deletions),
            "approvals"@ => JsonView::Int(v.approvals),
            "changes_requested"@ => JsonView::Int(v.changes_requested),
            "comment_count"@ => JsonView::Int(v.comment_count),
            "created_at"@ => JsonView::Str(v.created_at),
            "updated_at"@ => JsonView::Str(v.updated_at),
        ],
    )
}

impl PrRow {
    /// The pull request as a JSON object.
    pub fn to_json(&self) -> (r: Json)
        ensures
            r.deep_view() == row_json(self.deep_view()),
    {
        let members: Vec<(String, Json)> = vec![
            ("repo_slug".to_owned(), Json::Str(self.repo_slug.clone())),
            ("number".to_owned(), Json::Int(self.number)),
            ("title".to_owned(), Json::Str(self.title.clone())),
            ("author".to_owned(), opt_str(&self.author)),
            ("head_ref".to_owned(), opt_str(&self.head_ref)),
            ("state".to_owned(), Json::Str(self.state.clone())),
            ("draft".to_owned(), Json::Bool(self.draft)),
            ("mergeable".to_owned(), opt_str(&self.mergeable)),
            ("additions".to_owned(), opt_int(self.additions)),
            ("deletions".to_owned(), opt_int(self.deletions)),
            ("approvals".to_owned(), Json::Int(self.approvals)),
            ("changes_requested".to_owned(), Json::Int(self.changes_requested)),
            ("comment_count".to_owned(), Json::Int(self.comment_count)),
            ("created_at".to_owned(), Json::Str(self.created_at.clone())),
            ("updated_at".to_owned(), Json::Str(self.updated_at.clone())),
        ];
        proof {
            json::lemma_members_in_order(members@);
            reveal_with_fuel(json::members_so_far, 16);
            assert(json::members_view(members@) =~= row_json(self.deep_view())->Object_0);
        }
        Json::Object(members)
    }
}

/// The review as a JSON object.
pub open spec fn review_json(v: ReviewRowView) -> JsonView {
    JsonView::Object(
        map![
            "author"@ => json::str_or_null(v.author),
            "state"@ => JsonView::Str(v.state),
            "body"@ => json::str_or_null(v.body),
            "submitted_at"@ => json::str_or_null(v.submitted_at),
        ],
    )
}

impl ReviewRow {
    /// The review as a JSON object.
    pub fn to_json(&self) -> (r: Json)
        ensures
            r.deep_view() == review_json(self.deep_view()),
    {
        let members: Vec<(String, Json)> = vec![
            ("author".to_owned(), opt_str(&self.author)),
            ("state".to_owned(), Json::Str(self.state.clone())),
            ("body".to_owned(), opt_str(&self.body)),
            ("submitted_at".to_owned(), opt_str(&self.submitted_at)),
        ];
        proof {
            json::lemma_members_in_order(members@);
            reveal_with_fuel(json::members_so_far, 5);
            assert(json::members_view(members@) =~= review_json(self.deep_view())->Object_0);
        }
        Json::Object(members)
    }
}

/// The comment as a JSON object.
pub open spec fn comment_json(v: CommentRowView) -> JsonView {
    JsonView::Object(
        map![
            "author"@ => json::str_or_null(v.author),
            "body"@ => JsonView::Str(v.body),
            "path"@ => json::str_or_null(v.path),
            "line"@ => json::int_or_null(v.line),
            "created_at"@ => JsonView::Str(v.created_at),
        ],
    )
}

impl CommentRow {
    /// The comment as a JSON object.
    pub fn to_json(&self) -> (r: Json)
        ensures
            r.deep_view() == comment_json(self.deep_view()),
    {
        let members: Vec<(String, Json)> = vec![
            ("author".to_owned(), opt_str(&self.author)),
            ("body".to_owned(), Json::Str(self.body.clone())),
            ("path".to_owned(), opt_str(&self.path)),
            ("line".to_owned(), opt_int(self.line)),
            ("created_at".to_owned(), Json::Str(self.created_at.clone())),
        ];
        proof {
            json::lemma_members_in_order(members@);
            reveal_with_fuel(json::members_so_far, 6);
            assert(json::members_view(members@) =~= comment_json(self.deep_view())->Object_0);
        }
        Json::Object(members)
    }
}

fn reviews_json(items: &Vec<ReviewRow>) -> (r: Json)
    ensures
        r.deep_view() == JsonView::Array(items.deep_view().map_values(|x: ReviewRowView| review_json(x))),
{
    let mut out: Vec<Json> = Vec::new();
    let mut i: usize = 0;
    while i < items.len()
        invariant
            i == out.len() <= items.len(),
            forall|k: int|
                0 <= k < i ==> json::json_view(#[trigger] out@[k]) == {
                    let x = items.deep_view()[k];
                    review_json(x)
                },
        decreases items.len() - i,
    {
        out.push(items[i].to_json());
        i += 1;
    }
    let r: Json = Json::Array(out);
    assert(r.deep_view()->Array_0 =~= items.deep_view().map_values(|x: ReviewRowView| review_json(x)));
    r
}

fn comments_json(items: &Vec<CommentRow>) -> (r: Json)
    ensures
        r.deep_view() == JsonView::Array(items.deep_view().map_values(|x: CommentRowView| comment_json(x))),
{
    let mut out: Vec<Json> = Vec::new();
    let mut i: usize = 0;
    while i < items.len()
        invariant
            i == out.len() <= items.len(),
            forall|k: int|
                0 <= k < i ==> json::json_view(#[trigger] out@[k]) == {
                    let x = items.deep_view()[k];
                    comment_json(x)
                },
        decreases items.len() - i,
    {
        out.push(items[i].to_json());
        i += 1;
    }
    let r: Json = Json::Array(out);
    assert(r.deep_view()->Array_0 =~= items.deep_view().map_values(|x: CommentRowView| comment_json(x)));
    r
}

fn labels_json(items: &Vec<String>) -> (r: Json)
    ensures
        r.deep_view() == JsonView::Array(items.deep_view().map_values(|x: Seq<char>| JsonView::Str(x))),
{
    let mut out: Vec<Json> = Vec::new();
    let mut i: usize = 0;
    while i < items.len()
        invariant
            i == out.len() <= items.len(),
            forall|k: int|
                0 <= k < i ==> json::json_view(#[trigger] out@[k]) == {
                    let x = items.deep_view()[k];
                    JsonView::Str(x)
                },
        decreases items.len() - i,
    {
        out.push(Json::Str(items[i].clone()));
        i += 1;
    }
    let r: Json = Json::Array(out);
    assert(r.deep_view()->Array_0 =~= items.deep_view().map_values(|x: Seq<char>| JsonView::Str(x)));
    r
}

/// The pull request with all that belongs to it as a JSON object.
pub open spec fn detail_json(v: PrDetailView) -> JsonView {
    JsonView::Object(
        map![
            "repo_slug"@ => JsonView::Str(v.repo_slug),
            "number"@ => JsonView::Int(v.number),
            "title"@ => JsonView::Str(v.title),
            "author"@ => json::str_or_null(v.author),
            "state"@ => JsonView::Str(v.state),
            "draft"@ => JsonView::Bool(v.draft),
            "mergeable"@ => json::str_or_null(v.mergeable),
            "additions"@ => json::int_or_null(v.additions),
            "deletions"@ => json::int_or_null(v.deletions),
            "created_at"@ => JsonView::Str(v.created_at),
            "updated_at"@ => JsonView::Str(v.updated_at),
            "body"@ => json::str_or_null(v.body),
            "reviews"@ => JsonView::Array(v.reviews.map_values(|x: ReviewRowView| review_json(x))),
            "comments"@ => JsonView::Array(v.comments.map_values(|x: CommentRowView| comment_json(x))),
            "labels"@ => JsonView::Array(v.labels.map_values(|x: Seq<char>| JsonView::Str(x))),
        ],
    )
}

impl PrDetail {
    /// The pull request with all that belongs to it as a JSON object.
    pub fn to_json(&self) -> (r: Json)
        ensures
            r.deep_view() == detail_json(self.deep_view()),
    {
        let members: Vec<(String, Json)> = vec![
            ("repo_slug".to_owned(), Json::Str(self.repo_slug.clone())),
            ("number".to_owned(), Json::Int(self.number)),
            ("title".to_owned(), Json::Str(self.title.clone())),
            ("author".to_owned(), opt_str(&self.author)),
            ("state".to_owned(), Json::Str(self.state.clone())),
            ("draft".to_owned(), Json::Bool(self.draft)),
            ("mergeable".to_owned(), opt_str(&self.mergeable)),
            ("additions".to_owned(), opt_int(self.additions)),
            ("deletions".to_owned(), opt_int(self.deletions)),
            ("created_at".to_owned(), Json::Str(self.created_at.clone())),
            ("updated_at".to_owned(), Json::Str(self.updated_at.clone())),
            ("body".to_owned(), opt_str(&self.body)),
            ("reviews".to_owned(), reviews_json(&self.reviews)),
            ("comments".to_owned(), comments_json(&self.comments)),
            ("labels".to_owned(), labels_json(&self.labels)),
        ];
        proof {
            json::lemma_members_in_order(members@);
            reveal_with_fuel(json::members_so_far, 16);
            assert(json::members_view(members@) =~= detail_json(self.deep_view())->Object_0);
        }
        Json::Object(members)
    }
}

// ---- the list ----------------------------------------------------------------------
/// The columns of pull requests in a list, and where they come from.
pub const SELECT_PRS: &'static str = "SELECT
             r.owner || '/' || r.name AS repo_slug,
             pr.number, pr.title, pr.author, pr.head_ref, pr.state,
             pr.draft, pr.mergeable, pr.additions, pr.deletions,
             pr.created_at, pr.updated_at,
             (SELECT COUNT(*) FROM pr_review rv WHERE rv.pr_id = pr.id AND rv.state = 'APPROVED') AS approvals,
             (SELECT COUNT(*) FROM pr_review rv WHERE rv.pr_id = pr.id AND rv.state = 'CHANGES_REQUESTED') AS changes_requested,
             (SELECT COUNT(*) FROM pr_comment c WHERE c.pr_id = pr.id) AS comment_count
         FROM pull_request pr
         JOIN repo r ON r.id = pr.repo_id
         WHERE ";

/// The order of pull requests in a list.
pub const ORDER_PRS: &'static str = "
         ORDER BY pr.updated_at DESC";

/// The conditions on the pull requests of a list. A repository whose name does not name its
/// owner is no condition.
pub open spec fn list_conditions(
    repo: Option<Seq<char>>,
    state: Seq<char>,
    needs_review: bool,
) -> Seq<Seq<char>> {
    let of_repo = match repo {
        Some(slug) => match text::cut_at(slug, '/') {
            Some((owner, name)) => Some(query::repo_is(owner, name)),
            None => None,
        },
        None => None,
    };
    let review = if needs_review {
        Some(NOT_APPROVED@)
    } else {
        None
    };
    query::and_also(query::and_also(seq![query::column_is("pr.state"@, state)], of_repo), review)
}

/// The query for a list of pull requests.
pub open spec fn list_query(
    repo: Option<Seq<char>>,
    state: Seq<char>,
    needs_review: bool,
) -> StatementView {
    StatementView {
        sql: SELECT_PRS@ + text::joined(list_conditions(repo, state, needs_review), " AND "@)
            + ORDER_PRS@,
        params: Seq::empty(),
    }
}

/// The query for the pull requests of a repository, or of all, that are in a state, or of
/// those only that no review approves. Which of them are those of the user is not known to the
/// cache, so `mine` changes nothing.
pub fn query(repo: Option<&str>, state: &str, needs_review: bool, mine: bool) -> (r: Statement)
    ensures
        r.deep_view() == list_query(repo.deep_view(), state@, needs_review),
        r.deep_view() == (StatementView {
            sql: SELECT_PRS@ + text::joined(
                list_conditions(repo.deep_view(), state@, needs_review),
                " AND "@,
            ) + ORDER_PRS@,
            params: Seq::empty(),
        }),
{
    let mut conditions: Vec<String> = vec![equals("pr.state", state)];
    assert(conditions.deep_view() =~= seq![query::column_is("pr.state"@, state@)]);
    if let Some(slug) = repo {
        if let Some((owner, name)) = cut(slug, '/') {
            push_condition(&mut conditions, in_repo(owner, name));
        }
    }
    if needs_review {
        push_condition(&mut conditions, NOT_APPROVED.to_owned());
    }
    let all: String = join(&conditions, " AND ");
    let sql: String = cat3(SELECT_PRS, all.as_str(), ORDER_PRS);
    plain_statement(sql.as_str())
}

/// The columns in which the pull requests of a list are shown.
pub open spec fn list_columns() -> Seq<Seq<char>> {
    seq!["repo_slug"@, "number"@, "title"@, "author"@, "state"@, "approvals"@, "updated_at"@]
}

/// What rows of a list hold, as JSON.
pub open spec fn list_json(rows: Seq<Seq<SqlView>>) -> Seq<JsonView> {
    sql::readable::<PrRow>(rows).map_values(|v: PrRowView| row_json(v))
}

/// The pull requests in the rows of a list, as they are shown. Rows that do not hold one are
/// passed over. There is nothing to show where a cell of a table would have to be cut within
/// a character.
pub fn show(rows: &Vec<Row>, format: Format) -> (r: Option<String>)
    ensures
        ({
            let objects = list_json(rows.deep_view());
            match r {
                Some(t) => output::can_show(objects, list_columns(), format) && t@
                    == output::shown(objects, list_columns(), format),
                None => !output::can_show(objects, list_columns(), format),
            }
        }),
{
    let prs: Vec<PrRow> = read_readable::<PrRow>(rows);
    let mut objects: Vec<Json> = Vec::new();
    let mut i: usize = 0;
    while i < prs.len()
        invariant
            i == objects.len() <= prs.len(),
            forall|k: int|
                0 <= k < i ==> (#[trigger] objects@[k]).deep_view() == row_json(prs.deep_view()[k]),
        decreases prs.len() - i,
    {
        objects.push(prs[i].to_json());
        i += 1;
    }
    assert(objects.deep_view() =~= list_json(rows.deep_view()));
    let columns: Vec<String> = vec![
        "repo_slug".to_owned(),
        "number".to_owned(),
        "title".to_owned(),
        "author".to_owned(),
        "state".to_owned(),
        "approvals".to_owned(),
        "updated_at".to_owned(),
    ];
    assert(columns.deep_view() =~= list_columns());
    render(&objects, &columns, format)
}

// ---- one pull request --------------------------------------------------------------
/// Gives the id of a pull request of a repository.
pub const SELECT_ID: &'static str = "SELECT pr.id FROM pull_request pr
             JOIN repo r ON r.id = pr.repo_id
             WHERE r.owner = ?1 AND r.name = ?2 AND pr.number = ?3";

/// Gives a pull request.
pub const SELECT_DETAIL: &'static str =
    "SELECT r.owner || '/' || r.name, pr.number, pr.title, pr.author, pr.state,
                    pr.draft, pr.mergeable, pr.additions, pr.deletions,
                    pr.created_at, pr.updated_at, pr.body
             FROM pull_request pr JOIN repo r ON r.id = pr.repo_id
             WHERE pr.id = ?1";

/// Gives the reviews of a pull request.
pub const SELECT_REVIEWS: &'static str =
    "SELECT author, state, body, submitted_at FROM pr_review WHERE pr_id = ?1 ORDER BY submitted_at";

/// Gives the comments on a pull request.
pub const SELECT_COMMENTS: &'static str =
    "SELECT author, body, path, line, created_at FROM pr_comment WHERE pr_id = ?1 ORDER BY created_at";

/// Gives the labels of a pull request.
pub const SELECT_LABELS: &'static str = "SELECT label FROM pr_label WHERE pr_id = ?1 ORDER BY label";

/// Why a pull request cannot be shown.
#[derive(Clone, Copy, PartialEq, Eq, Structural, Debug)]
pub enum PrQueryError {
    /// The name of the repository does not name its owner.
    BadSlug,
    /// There is no such pull request.
    NotFound,
    /// A row does not hold what it should.
    BadRow,
}

/// What is asked for next.
pub enum PrStage {
    Id,
    Detail { pr_id: i64 },
    Reviews { pr_id: i64, detail: PrDetail },
    Comments { pr_id: i64, detail: PrDetail },
    Labels { detail: PrDetail },
}

/// What is asked for next, as a value.
pub enum PrStageView {
    Id,
    Detail { pr_id: i64 },
    Reviews { pr_id: i64, detail: PrDetailView },
    Comments { pr_id: i64, detail: PrDetailView },
    Labels { detail: PrDetailView },
}

impl DeepView for PrStage {
    type V = PrStageView;

    open spec fn deep_view(&self) -> PrStageView {
        match self {
            PrStage::Id => PrStageView::Id,
            PrStage::Detail { pr_id } => PrStageView::Detail { pr_id: *pr_id },
            PrStage::Reviews { pr_id, detail } => PrStageView::Reviews {
                pr_id: *pr_id,
                detail: detail.deep_view(),
            },
            PrStage::Comments { pr_id, detail } => PrStageView::Comments {
                pr_id: *pr_id,
                detail: detail.deep_view(),
            },
            PrStage::Labels { detail } => PrStageView::Labels { detail: detail.deep_view() },
        }
    }
}

/// What comes next when a pull request is collected from the cache.
pub enum PrStep {
    /// To run a query and to go on with the rows that it gives.
    Ask(PrStage, Statement),
    /// The pull request is complete.
    Done(PrDetail),
    /// It cannot be shown.
    Failed(PrQueryError),
}

/// What comes next, as a value.
pub enum PrStepView {
    Ask(PrStageView, StatementView),
    Done(PrDetailView),
    Failed(PrQueryError),
}

impl DeepView for PrStep {
    type V = PrStepView;

    open spec fn deep_view(&self) -> PrStepView {
        match self {
            PrStep::Ask(stage, s) => PrStepView::Ask(stage.deep_view(), s.deep_view()),
            PrStep::Done(d) => PrStepView::Done(d.deep_view()),
            PrStep::Failed(e) => PrStepView::Failed(*e),
        }
    }
}

/// The first question for a pull request.
pub open spec fn first_question(number: u32, repo: Seq<char>) -> PrStepView {
    match text::cut_at(repo, '/') {
        None => PrStepView::Failed(PrQueryError::BadSlug),
        Some((owner, name)) => PrStepView::Ask(
            PrStageView::Id,
            StatementView {
                sql: SELECT_ID@,
                params: seq![
                    SqlView::Text(owner),
                    SqlView::Text(name),
                    SqlView::Integer(number as i64),
                ],
            },
        ),
    }
}

/// The first question for a pull request.
pub fn query_one(number: u32, repo: &str) -> (r: PrStep)
    ensures
        r.deep_view() == first_question(number, repo@),
{
    match cut(repo, '/') {
        None => PrStep::Failed(PrQueryError::BadSlug),
        Some((owner, name)) => {
            let params: Vec<SqlValue> = vec![
                SqlValue::text(owner),
                SqlValue::text(name),
                SqlValue::Integer(number as i64),
            ];
            assert(params.deep_view() =~= seq![
                SqlView::Text(owner@),
                SqlView::Text(name@),
                SqlView::Integer(number as i64),
            ]);
            PrStep::Ask(PrStage::Id, Statement { sql: SELECT_ID.to_owned(), params })
        },
    }
}

impl PrStageView {
    /// What comes next when the question of this stage gave these rows. Of the reviews, the
    /// comments and the labels, rows that do not hold one are passed over.
    pub open spec fn next(self, rows: Seq<Seq<SqlView>>) -> PrStepView {
        match self {
            PrStageView::Id => if rows.len() == 0 {
                PrStepView::Failed(PrQueryError::NotFound)
            } else {
                match sql::integer_in(rows[0], 0) {
                    None => PrStepView::Failed(PrQueryError::BadRow),
                    Some(id) => PrStepView::Ask(
                        PrStageView::Detail { pr_id: id },
                        query::by_id(SELECT_DETAIL@, id),
                    ),
                }
            },
            PrStageView::Detail { pr_id } => if rows.len() == 0 {
                PrStepView::Failed(PrQueryError::NotFound)
            } else {
                match PrDetail::in_row(rows[0]) {
                    None => PrStepView::Failed(PrQueryError::BadRow),
                    Some(detail) => PrStepView::Ask(
                        PrStageView::Reviews { pr_id, detail },
                        query::by_id(SELECT_REVIEWS@, pr_id),
                    ),
                }
            },
            PrStageView::Reviews { pr_id, detail } => PrStepView::Ask(
                PrStageView::Comments {
                    pr_id,
                    detail: PrDetailView { reviews: sql::readable::<ReviewRow>(rows), ..detail },
                },
                query::by_id(SELECT_COMMENTS@, pr_id),
            ),
            PrStageView::Comments { pr_id, detail } => PrStepView::Ask(
                PrStageView::Labels {
                    detail: PrDetailView { comments: sql::readable::<CommentRow>(rows), ..detail },
                },
                query::by_id(SELECT_LABELS@, pr_id),
            ),
            PrStageView::Labels { detail } => PrStepView::Done(
                PrDetailView { labels: sql::readable::<String>(rows), ..detail },
            ),
        }
    }
}

impl PrStage {
    /// What comes next when the question of this stage gave these rows.
    pub fn step(self, rows: &Vec<Row>) -> (r: PrStep)
        ensures
            r.deep_view() == self.deep_view().next(rows.deep_view()),
    {
        match self {
            PrStage::Id => {
                if rows.len() == 0 {
                    return PrStep::Failed(PrQueryError::NotFound);
                }
                match get_integer(&rows[0], 0) {
                    Ok(id) => PrStep::Ask(PrStage::Detail { pr_id: id }, with_id(SELECT_DETAIL, id)),
                    Err(_) => PrStep::Failed(PrQueryError::BadRow),
                }
            },
            PrStage::Detail { pr_id } => {
                if rows.len() == 0 {
                    return PrStep::Failed(PrQueryError::NotFound);
                }
                match PrDetail::from_row(&rows[0]) {
                    Some(detail) => PrStep::Ask(
                        PrStage::Reviews { pr_id, detail },
                        with_id(SELECT_REVIEWS, pr_id),
                    ),
                    None => PrStep::Failed(PrQueryError::BadRow),
                }
            },
            PrStage::Reviews { pr_id, detail } => PrStep::Ask(
                PrStage::Comments {
                    pr_id,
                    detail: PrDetail { reviews: read_readable::<ReviewRow>(rows), ..detail },
                },
                with_id(SELECT_COMMENTS, pr_id),
            ),
            PrStage::Comments { pr_id, detail } => PrStep::Ask(
                PrStage::Labels {
                    detail: PrDetail { comments: read_readable::<CommentRow>(rows), ..detail },
                },
                with_id(SELECT_LABELS, pr_id),
            ),
            PrStage::Labels { detail } => PrStep::Done(
                PrDetail { labels: read_readable::<String>(rows), ..detail },
            ),
        }
    }
}

/// The columns in which one pull request is shown.
pub open spec fn detail_columns() -> Seq<Seq<char>> {
    seq!["repo_slug"@, "number"@, "title"@, "state"@, "author"@]
}

/// One pull request, as it is shown. There is nothing to show where a cell of a table would
/// have to be cut within a character.
pub fn show_one(detail: &PrDetail, format: Format) -> (r: Option<String>)
    ensures
        ({
            let objects = seq![detail_json(detail.deep_view())];
            match r {
                Some(t) => output::can_show(objects, detail_columns(), format) && t@
                    == output::shown(objects, detail_columns(), format),
                None => !output::can_show(objects, detail_columns(), format),
            }
        }),
{
    let objects: Vec<Json> = vec![detail.to_json()];
    assert(objects.deep_view() =~= seq![detail_json(detail.deep_view())]);
    let columns: Vec<String> = vec![
        "repo_slug".to_owned(),
        "number".to_owned(),
        "title".to_owned(),
        "state".to_owned(),
        "author".to_owned(),
    ];
    assert(columns.deep_view() =~= detail_columns());
    render(&objects, &columns, format)
}

/// Where the cache has a pull request, what is shown of it is what the cache has: the rows of
/// its own, of its reviews, of its comments and of its labels.
pub proof fn all_that_belongs_is_collected(
    number: u32,
    repo: Seq<char>,
    ids: Seq<Seq<SqlView>>,
    details: Seq<Seq<SqlView>>,
    reviews: Seq<Seq<SqlView>>,
    comments: Seq<Seq<SqlView>>,
    labels: Seq<Seq<SqlView>>,
)
    requires
        text::cut_at(repo, '/') is Some,
        ids.len() > 0 && sql::integer_in(ids[0], 0) is Some,
        details.len() > 0 && PrDetail::in_row(details[0]) is Some,
    ensures
        first_question(number, repo) matches PrStepView::Ask(s0, _) && s0.next(
            ids,
        ) matches PrStepView::Ask(s1, _) && s1.next(details) matches PrStepView::Ask(s2, _)
            && s2.next(reviews) matches PrStepView::Ask(s3, _) && s3.next(
            comments,
        ) matches PrStepView::Ask(s4, _) && s4.next(labels) == PrStepView::Done(
            PrDetailView {
                reviews: sql::readable::<ReviewRow>(reviews),
                comments: sql::readable::<CommentRow>(comments),
                labels: sql::readable::<String>(labels),
                ..PrDetail::in_row(details[0])->Some_0
            },
        ),
{
}

} // verus!
