//! How a sync goes on: what it asks for next, what it is told, and how it ends. The sync
//! itself reads and writes nothing. It is a machine that names one action at a time and
//! goes on when it is told what came of it.

use vstd::prelude::*;

use crate::config::slug;
use crate::gh::{GhRequestView, GhResponse, GhResponseView, Poll};
use crate::json::{Json, JsonView};
use crate::sql::{Row, SqlView, Statement, StatementView};
use crate::text::cat3;
use crate::time::Moment;
use crate::config;

verus! {

/// The pools of rate-limit points.
#[derive(Clone, Copy, PartialEq, Eq, Structural, Debug)]
pub enum Pool {
    Rest,
    Graphql,
}

/// What a sync asks for.
pub enum Action {
    /// To run a statement and hand back its rows.
    Query(Statement),
    /// To run a statement and hand back how many rows it changed.
    Execute(Statement),
    /// To send a request, record the call, and hand back the answer.
    Call(Poll),
    /// To send a GraphQL query, record the call under the name of the endpoint, and hand
    /// back the data of the answer.
    Graphql { endpoint: String, query: String },
    /// To wait until the pool has points left.
    Throttle(Pool),
    /// To open a transaction.
    Begin,
    /// To keep what was done since the transaction was opened.
    Commit,
    /// To undo what was done since the transaction was opened.
    Rollback,
}

/// What an action is.
pub enum ActionView {
    Query(StatementView),
    Execute(StatementView),
    Call(GhRequestView),
    Graphql { endpoint: Seq<char>, query: Seq<char> },
    Throttle(Pool),
    Begin,
    Commit,
    Rollback,
}

impl DeepView for Action {
    type V = ActionView;

    open spec fn deep_view(&self) -> ActionView {
        match self {
            Action::Query(s) => ActionView::Query(s.deep_view()),
            Action::Execute(s) => ActionView::Execute(s.deep_view()),
            Action::Call(p) => ActionView::Call(p.deep_view()),
            Action::Graphql { endpoint, query } => ActionView::Graphql {
                endpoint: endpoint@,
                query: query@,
            },
            Action::Throttle(p) => ActionView::Throttle(*p),
            Action::Begin => ActionView::Begin,
            Action::Commit => ActionView::Commit,
            Action::Rollback => ActionView::Rollback,
        }
    }
}

/// What came of an action.
pub enum Reply {
    /// The rows of a query.
    Rows(Vec<Row>),
    /// How many rows a statement changed, and the id of the row inserted last.
    Executed { changed: u64, row_id: i64 },
    /// The answer to a request.
    Answer(GhResponse),
    /// The data of the answer to a GraphQL query.
    Data(Json),
    /// The action is done.
    Done,
    /// The action failed.
    Failed,
}

/// What a reply is.
pub enum ReplyView {
    Rows(Seq<Seq<SqlView>>),
    Executed { changed: u64, row_id: i64 },
    Answer(GhResponseView),
    Data(JsonView),
    Done,
    Failed,
}

impl DeepView for Reply {
    type V = ReplyView;

    open spec fn deep_view(&self) -> ReplyView {
        match self {
            Reply::Rows(rows) => ReplyView::Rows(rows.deep_view()),
            Reply::Executed { changed, row_id } => ReplyView::Executed {
                changed: *changed,
                row_id: *row_id,
            },
            Reply::Answer(a) => ReplyView::Answer(a.deep_view()),
            Reply::Data(d) => ReplyView::Data(d.deep_view()),
            Reply::Done => ReplyView::Done,
            Reply::Failed => ReplyView::Failed,
        }
    }
}

/// The present, as a point in time and as the text that is recorded of it.
pub struct Now {
    pub moment: Moment,
    pub text: String,
}

/// What the present is.
pub struct NowView {
    pub moment: Moment,
    pub text: Seq<char>,
}

impl DeepView for Now {
    type V = NowView;

    open spec fn deep_view(&self) -> NowView {
        NowView { moment: self.moment, text: self.text@ }
    }
}

/// The repository that a sync works on: its id in the cache, its owner and its name.
pub struct RepoJob {
    pub repo_id: i64,
    pub owner: String,
    pub name: String,
}

/// What the repository that a sync works on is.
pub struct RepoJobView {
    pub repo_id: i64,
    pub owner: Seq<char>,
    pub name: Seq<char>,
}

impl DeepView for RepoJob {
    type V = RepoJobView;

    open spec fn deep_view(&self) -> RepoJobView {
        RepoJobView { repo_id: self.repo_id, owner: self.owner@, name: self.name@ }
    }
}

impl RepoJobView {
    /// The path of the repository in the API, with what is asked of it.
    pub open spec fn endpoint(self, what: Seq<char>) -> Seq<char> {
        "/repos/"@ + self.owner + "/"@ + self.name + what
    }

    /// The name of the repository together with that of its owner.
    pub open spec fn slug(self) -> Seq<char> {
        config::slug_of(self.owner, self.name)
    }
}

impl RepoJob {
    /// The path of the repository in the API, with what is asked of it.
    pub fn endpoint(&self, what: &str) -> (r: String)
        ensures
            r@ == self.deep_view().endpoint(what@),
    {
        let mut r: String = cat3("/repos/", self.owner.as_str(), "/");
        r.append(self.name.as_str());
        r.append(what);
        r
    }

    /// The name of the repository together with that of its owner.
    pub fn slug(&self) -> (r: String)
        ensures
            r@ == self.deep_view().slug(),
    {
        slug(self.owner.as_str(), self.name.as_str())
    }
}

/// Adds a statement at the end of a list.
pub fn push_statement(list: &mut Vec<Statement>, statement: Statement)
    ensures
        final(list).deep_view() == old(list).deep_view().push(statement.deep_view()),
{
    list.push(statement);
    assert(list.deep_view() =~= old(list).deep_view().push(statement.deep_view()));
}

/// Takes the first statement off a list.
pub fn take_first(list: &mut Vec<Statement>) -> (r: Option<Statement>)
    ensures
        match r {
            Some(s) => old(list).deep_view().len() > 0 && s.deep_view() == old(list).deep_view()[0]
                && final(list).deep_view() == old(list).deep_view().skip(1),
            None => old(list).deep_view().len() == 0 && final(list).deep_view()
                == old(list).deep_view(),
        },
{
    if list.len() == 0 {
        return None;
    }
    let s: Statement = list.remove(0);
    assert(list.deep_view() =~= old(list).deep_view().skip(1));
    Some(s)
}

/// How a machine goes on.
pub enum Step<M, T> {
    /// It asks for an action and waits for what comes of it.
    Do(M, Action),
    /// It has come to its end, with a result.
    Finished(T),
    /// It has come to its end without one.
    Failed,
}

/// What a step is.
pub enum StepView<M, T> {
    Do(M, ActionView),
    Finished(T),
    Failed,
}

impl<M: DeepView, T: DeepView> DeepView for Step<M, T> {
    type V = StepView<M::V, T::V>;

    open spec fn deep_view(&self) -> StepView<M::V, T::V> {
        match self {
            Step::Do(m, a) => StepView::Do(m.deep_view(), a.deep_view()),
            Step::Finished(t) => StepView::Finished(t.deep_view()),
            Step::Failed => StepView::Failed,
        }
    }
}

} // verus!
