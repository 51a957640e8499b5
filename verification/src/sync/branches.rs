//! Branches: those of a repository whose names match the configured patterns.

use vstd::prelude::*;

use crate::db::{first_id, get_poll_state, log_change, poll_state_from, ChangeEvent};
use crate::gh::Poll;
use crate::json::{Json, JsonView};
use crate::sql::{read_texts, SqlValue, SqlView, Statement, StatementView};
use crate::sync::notifications::holds_text;
use crate::sync::step::{
    Action, ActionView, Now, NowView, RepoJob, RepoJobView, Reply, ReplyView, Step, StepView,
};
use crate::text::{same, starts_with};
use crate::{db, gh, sql, text};

verus! {

// ---- patterns ----------------------------------------------------------------------
/// Whether a name matches a pattern. A pattern that ends with a star matches every name
/// that begins with what stands before the star; any other matches itself alone.
pub open spec fn glob_matches(pattern: Seq<char>, name: Seq<char>) -> bool {
    if pattern.len() > 0 && pattern.last() == '*' {
        text::begins_with(name, pattern.drop_last())
    } else {
        pattern == name
    }
}

/// Whether a name matches a pattern.
pub fn matches_glob(pattern: &str, name: &str) -> (r: bool)
    ensures
        r == glob_matches(pattern@, name@),
{
    let n: usize = pattern.unicode_len();
    if n > 0 && pattern.get_char(n - 1) == '*' {
        let prefix: &str = pattern.substring_char(0, n - 1);
        assert(prefix@ =~= pattern@.drop_last());
        return starts_with(name, prefix);
    }
    same(pattern, name)
}

/// Whether a name matches one of several patterns.
pub open spec fn any_matches(patterns: Seq<Seq<char>>, name: Seq<char>) -> bool {
    exists|i: int| 0 <= i < patterns.len() && glob_matches(#[trigger] patterns[i], name)
}

/// Whether a name matches one of several patterns.
pub fn matches_any(patterns: &Vec<String>, name: &str) -> (r: bool)
    ensures
        r == any_matches(patterns.deep_view(), name@),
{
    let mut i: usize = 0;
    while i < patterns.len()
        invariant
            i <= patterns.len(),
            forall|k: int|
                0 <= k < i ==> !glob_matches(#[trigger] patterns.deep_view()[k], name@),
        decreases patterns.len() - i,
    {
        if matches_glob(patterns[i].as_str(), name) {
            assert(glob_matches(patterns.deep_view()[i as int], name@));
            return true;
        }
        i += 1;
    }
    false
}

/// A pattern without a star at its end matches exactly itself.
pub proof fn plain_pattern_matches_itself_alone(pattern: Seq<char>, name: Seq<char>)
    requires
        pattern.len() == 0 || pattern.last() != '*',
    ensures
        glob_matches(pattern, name) <==> name == pattern,
{
}

/// A pattern with a star at its end matches exactly the names that go on from what stands
/// before the star.
pub proof fn star_matches_every_ending(prefix: Seq<char>, name: Seq<char>)
    ensures
        glob_matches(prefix.push('*'), name) <==> exists|rest: Seq<char>|
            name == #[trigger] (prefix + rest),
{
    assert(prefix.push('*').drop_last() =~= prefix);
    if text::begins_with(name, prefix) {
        assert(name =~= prefix + name.skip(prefix.len() as int));
    }
    assert forall|rest: Seq<char>| name == #[trigger] (prefix + rest) implies text::begins_with(
        name,
        prefix,
    ) by {
        assert(name.take(prefix.len() as int) =~= prefix);
    }
}

// ---- records -----------------------------------------------------------------------
/// Records a branch, and gives its id.
pub const UPSERT_BRANCH: &'static str = "INSERT INTO branch (repo_id, name, sha, updated_at)
             VALUES (?1, ?2, ?3, ?4)
             ON CONFLICT(repo_id, name) DO UPDATE SET
                 sha        = excluded.sha,
                 updated_at = excluded.updated_at
             RETURNING id";

/// Gives the names of the branches of a repository that are recorded.
pub const SELECT_NAMES: &'static str = "SELECT name FROM branch WHERE repo_id=?1";

/// The statement that records a branch.
pub open spec fn branch_record(
    repo_id: i64,
    name: Seq<char>,
    sha: Option<Seq<char>>,
    now: Seq<char>,
) -> StatementView {
    StatementView {
        sql: UPSERT_BRANCH@,
        params: seq![
            SqlView::Integer(repo_id),
            SqlView::Text(name),
            sql::text_or_null(sha),
            SqlView::Text(now),
        ],
    }
}

/// The statement that records a branch.
pub fn upsert_branch(repo_id: i64, name: &str, sha: Option<&str>, now: &str) -> (r: Statement)
    ensures
        r.deep_view() == branch_record(repo_id, name@, sha.deep_view(), now@),
{
    let params: Vec<SqlValue> = vec![
        SqlValue::Integer(repo_id),
        SqlValue::text(name),
        SqlValue::opt_text(sha),
        SqlValue::text(now),
    ];
    let r: Statement = Statement { sql: UPSERT_BRANCH.to_owned(), params };
    assert(r.deep_view() =~= branch_record(repo_id, name@, sha.deep_view(), now@));
    r
}

/// A row of the table of branches, but for the repository and the name.
pub struct BranchRow {
    pub id: i64,
    pub sha: SqlView,
    pub updated_at: SqlView,
}

/// The table of branches, by repository and name, after a statement that records one: a row that
/// is there keeps its id, and a new one has the id that the database gives it.
pub open spec fn branches_after(
    table: Map<(SqlView, SqlView), BranchRow>,
    s: StatementView,
    new_id: i64,
) -> Map<(SqlView, SqlView), BranchRow> {
    let p = s.params;
    if s.sql != UPSERT_BRANCH@ || p.len() != 4 {
        table
    } else {
        let key = (p[0], p[1]);
        let id = if table.dom().contains(key) {
            table[key].id
        } else {
            new_id
        };
        table.insert(key, BranchRow { id, sha: p[2], updated_at: p[3] })
    }
}

/// A branch has one row, under its repository and its name, however often it is recorded. What
/// the row tells is what was recorded last; its id is the one that it had, else a new one. Of
/// other branches nothing changes.
pub proof fn branch_is_recorded_once(
    table: Map<(SqlView, SqlView), BranchRow>,
    repo_id: i64,
    name: Seq<char>,
    first: Option<Seq<char>>,
    earlier: Seq<char>,
    later: Option<Seq<char>>,
    now: Seq<char>,
    new_id: i64,
    unused: i64,
)
    ensures
        ({
            let key = (SqlView::Integer(repo_id), SqlView::Text(name));
            let once = branches_after(table, branch_record(repo_id, name, first, earlier), new_id);
            let twice = branches_after(once, branch_record(repo_id, name, later, now), unused);
            let id = if table.dom().contains(key) {
                table[key].id
            } else {
                new_id
            };
            &&& once == table.insert(
                key,
                BranchRow {
                    id,
                    sha: sql::text_or_null(first),
                    updated_at: SqlView::Text(earlier),
                },
            )
            &&& twice == table.insert(
                key,
                BranchRow { id, sha: sql::text_or_null(later), updated_at: SqlView::Text(now) },
            )
        }),
{
    let key = (SqlView::Integer(repo_id), SqlView::Text(name));
    let once = branches_after(table, branch_record(repo_id, name, first, earlier), new_id);
    let twice = branches_after(once, branch_record(repo_id, name, later, now), unused);
    assert(once.dom().contains(key) && once[key].updated_at == SqlView::Text(earlier));
    assert(twice =~= table.insert(
        key,
        BranchRow {
            id: once[key].id,
            sha: sql::text_or_null(later),
            updated_at: SqlView::Text(now),
        },
    ));
}

/// The query for the names of the branches of a repository that are recorded.
pub open spec fn names_query(repo_id: i64) -> StatementView {
    StatementView { sql: SELECT_NAMES@, params: seq![SqlView::Integer(repo_id)] }
}

fn select_names(repo_id: i64) -> (r: Statement)
    ensures
        r.deep_view() == names_query(repo_id),
{
    let params: Vec<SqlValue> = vec![SqlValue::Integer(repo_id)];
    assert(params.deep_view() =~= seq![SqlView::Integer(repo_id)]);
    Statement { sql: SELECT_NAMES.to_owned(), params }
}

/// A branch, with its latest commit.
pub struct Tip {
    pub name: String,
    pub sha: Option<String>,
}

/// What a branch is.
#[verifier::ext_equal]
pub struct TipView {
    pub name: Seq<char>,
    pub sha: Option<Seq<char>>,
}

impl DeepView for Tip {
    type V = TipView;

    open spec fn deep_view(&self) -> TipView {
        TipView { name: self.name@, sha: self.sha.deep_view() }
    }
}

/// A branch, as GitHub sends it, if it has a name and the name matches a pattern.
pub open spec fn wanted_tip(branch: JsonView, patterns: Seq<Seq<char>>) -> Option<TipView> {
    match branch.at("name"@).as_str() {
        Some(name) => if any_matches(patterns, name) {
            Some(TipView { name, sha: branch.at("commit"@).at("sha"@).as_str() })
        } else {
            None
        },
        None => None,
    }
}

/// The branches whose names match a pattern, in their order.
pub open spec fn wanted_tips(branches: Seq<JsonView>, patterns: Seq<Seq<char>>) -> Seq<TipView>
    decreases branches.len(),
{
    if branches.len() == 0 {
        Seq::empty()
    } else {
        let before = wanted_tips(branches.drop_last(), patterns);
        match wanted_tip(branches.last(), patterns) {
            Some(tip) => before.push(tip),
            None => before,
        }
    }
}

/// The branches whose names match a pattern.
pub fn wanted(branches: &Vec<Json>, patterns: &Vec<String>) -> (r: Vec<Tip>)
    ensures
        r.deep_view() == wanted_tips(branches.deep_view(), patterns.deep_view()),
{
    let ghost all = branches.deep_view();
    let mut out: Vec<Tip> = Vec::new();
    let mut i: usize = 0;
    assert(all.take(0) =~= Seq::empty());
    assert(out.deep_view() =~= Seq::<TipView>::empty());
    while i < branches.len()
        invariant
            i <= branches.len(),
            all == branches.deep_view(),
            out.deep_view() == wanted_tips(all.take(i as int), patterns.deep_view()),
        decreases branches.len() - i,
    {
        proof {
            assert(all.take(i + 1).drop_last() =~= all.take(i as int));
            assert(all.take(i + 1).last() == branches@[i as int].deep_view());
        }
        if let Some(name) = branches[i].at("name").as_str() {
            if matches_any(patterns, name) {
                let ghost before = out.deep_view();
                let tip: Tip = Tip {
                    name: name.to_owned(),
                    sha: branches[i].at("commit").at("sha").to_str(),
                };
                out.push(tip);
                assert(out.deep_view() =~= before.push(tip.deep_view()));
            }
        }
        i += 1;
    }
    assert(all.take(i as int) =~= all);
    out
}

// ---- the sync ----------------------------------------------------------------------
/// A sync of the branches of a repository.
pub struct BranchSync {
    job: RepoJob,
    stage: BranchStage,
}

/// The branches that are still to be recorded, those from `next` on, and the names of those
/// that were recorded before.
struct BranchWork {
    tips: Vec<Tip>,
    next: usize,
    existing: Vec<String>,
}

/// What a sync of branches waits for.
enum BranchStage {
    /// The state of the endpoint.
    Poll(Vec<String>),
    /// The answer with the branches.
    Call(Vec<String>),
    /// The names of the branches that are recorded already.
    Existing(Vec<Tip>),
    /// The id of a branch.
    Upsert { is_new: bool, work: BranchWork },
    /// That the change is logged.
    Log(BranchWork),
}

/// What a sync of branches is.
pub struct BranchSyncView {
    pub job: RepoJobView,
    pub stage: BranchStageView,
}

/// The branches that are still to be recorded, and the names of those that were recorded
/// before.
pub struct BranchWorkView {
    pub tips: Seq<TipView>,
    pub next: int,
    pub existing: Seq<Seq<char>>,
}

/// What a sync of branches waits for.
pub enum BranchStageView {
    Poll(Seq<Seq<char>>),
    Call(Seq<Seq<char>>),
    Existing(Seq<TipView>),
    Upsert { is_new: bool, work: BranchWorkView },
    Log(BranchWorkView),
}

/// How a sync of branches goes on.
pub type BranchStep = StepView<BranchSyncView, ()>;

impl DeepView for BranchWork {
    type V = BranchWorkView;

    closed spec fn deep_view(&self) -> BranchWorkView {
        BranchWorkView {
            tips: self.tips.deep_view(),
            next: self.next as int,
            existing: self.existing.deep_view(),
        }
    }
}

impl DeepView for BranchSync {
    type V = BranchSyncView;

    closed spec fn deep_view(&self) -> BranchSyncView {
        BranchSyncView {
            job: self.job.deep_view(),
            stage: match self.stage {
                BranchStage::Poll(patterns) => BranchStageView::Poll(patterns.deep_view()),
                BranchStage::Call(patterns) => BranchStageView::Call(patterns.deep_view()),
                BranchStage::Existing(tips) => BranchStageView::Existing(tips.deep_view()),
                BranchStage::Upsert { is_new, work } => BranchStageView::Upsert {
                    is_new,
                    work: work.deep_view(),
                },
                BranchStage::Log(work) => BranchStageView::Log(work.deep_view()),
            },
        }
    }
}

impl BranchSyncView {
    /// A sync at its beginning, and what it asks for first.
    pub open spec fn start(job: RepoJobView, patterns: Seq<Seq<char>>) -> (
        BranchSyncView,
        ActionView,
    ) {
        (
            BranchSyncView { job, stage: BranchStageView::Poll(patterns) },
            ActionView::Query(db::poll_query(job.endpoint("/branches"@))),
        )
    }

    /// The step to the next branch, or to the end.
    pub open spec fn advance(job: RepoJobView, work: BranchWorkView, now: Seq<char>) -> BranchStep {
        if work.next < 0 || work.next >= work.tips.len() {
            StepView::Finished(())
        } else {
            let tip = work.tips[work.next];
            StepView::Do(
                BranchSyncView {
                    job,
                    stage: BranchStageView::Upsert {
                        is_new: !work.existing.contains(tip.name),
                        work: BranchWorkView { next: work.next + 1, ..work },
                    },
                },
                ActionView::Query(branch_record(job.repo_id, tip.name, tip.sha, now)),
            )
        }
    }

    /// The step that a sync takes when it is told what came of its last action.
    pub open spec fn next(self, reply: ReplyView, now: NowView) -> BranchStep {
        let job = self.job;
        match (self.stage, reply) {
            (BranchStageView::Poll(patterns), ReplyView::Rows(rows)) => match db::polled_state(
                rows,
            ) {
                Some(poll) => StepView::Do(
                    BranchSyncView { job, stage: BranchStageView::Call(patterns) },
                    ActionView::Call(gh::pages_request(job.endpoint("/branches"@), poll.etag)),
                ),
                None => StepView::Failed,
            },
            (BranchStageView::Call(patterns), ReplyView::Answer(resp)) => if resp.status == 304 {
                StepView::Finished(())
            } else {
                match resp.body.as_array() {
                    Some(branches) => StepView::Do(
                        BranchSyncView {
                            job,
                            stage: BranchStageView::Existing(wanted_tips(branches, patterns)),
                        },
                        ActionView::Query(names_query(job.repo_id)),
                    ),
                    None => StepView::Finished(()),
                }
            },
            (BranchStageView::Existing(tips), ReplyView::Rows(rows)) => match sql::texts_of(rows) {
                Some(existing) => Self::advance(
                    job,
                    BranchWorkView { tips, next: 0, existing },
                    now.text,
                ),
                None => StepView::Failed,
            },
            (BranchStageView::Upsert { is_new, work }, ReplyView::Rows(rows)) => match db::id_in(
                rows,
            ) {
                Some(id) => StepView::Do(
                    BranchSyncView { job, stage: BranchStageView::Log(work) },
                    ActionView::Execute(
                        db::change_record(
                            "branch"@,
                            id,
                            ChangeEvent::of(is_new),
                            Some(job.slug()),
                            None,
                        ),
                    ),
                ),
                None => StepView::Failed,
            },
            (BranchStageView::Log(work), ReplyView::Executed { changed, row_id }) => {
                Self::advance(job, work, now.text)
            },
            _ => StepView::Failed,
        }
    }
}

/// A sync of the branches of a repository at its beginning, and what it asks for first.
pub fn sync(job: RepoJob, patterns: Vec<String>) -> (r: (BranchSync, Action))
    ensures
        (r.0.deep_view(), r.1.deep_view()) == BranchSyncView::start(
            job.deep_view(),
            patterns.deep_view(),
        ),
{
    let endpoint: String = job.endpoint("/branches");
    let query: Statement = get_poll_state(endpoint.as_str());
    (BranchSync { job, stage: BranchStage::Poll(patterns) }, Action::Query(query))
}

impl BranchSync {
    fn advance(job: RepoJob, mut work: BranchWork, now: &str) -> (r: Step<BranchSync, ()>)
        ensures
            r.deep_view() == BranchSyncView::advance(job.deep_view(), work.deep_view(), now@),
    {
        let i: usize = work.next;
        if i >= work.tips.len() {
            return Step::Finished(());
        }
        let tip: &Tip = &work.tips[i];
        let sha: Option<&str> = match &tip.sha {
            Some(s) => Some(s.as_str()),
            None => None,
        };
        let is_new: bool = !holds_text(&work.existing, tip.name.as_str());
        let record: Statement = upsert_branch(job.repo_id, tip.name.as_str(), sha, now);
        work.next = i + 1;
        Step::Do(
            BranchSync { job, stage: BranchStage::Upsert { is_new, work } },
            Action::Query(record),
        )
    }

    /// Goes on with what came of the last action.
    pub fn step(self, reply: Reply, now: &Now) -> (r: Step<BranchSync, ()>)
        ensures
            r.deep_view() == self.deep_view().next(reply.deep_view(), now.deep_view()),
    {
        let job: RepoJob = self.job;
        match (self.stage, reply) {
            (BranchStage::Poll(patterns), Reply::Rows(rows)) => match poll_state_from(&rows) {
                Ok(poll) => {
                    let endpoint: String = job.endpoint("/branches");
                    Step::Do(
                        BranchSync { job, stage: BranchStage::Call(patterns) },
                        Action::Call(Poll::pages(endpoint, poll.etag)),
                    )
                },
                Err(_) => Step::Failed,
            },
            (BranchStage::Call(patterns), Reply::Answer(resp)) => {
                if resp.is_not_modified() {
                    return Step::Finished(());
                }
                match resp.body.as_array() {
                    Some(branches) => {
                        let tips: Vec<Tip> = wanted(branches, &patterns);
                        let query: Statement = select_names(job.repo_id);
                        Step::Do(
                            BranchSync { job, stage: BranchStage::Existing(tips) },
                            Action::Query(query),
                        )
                    },
                    None => Step::Finished(()),
                }
            },
            (BranchStage::Existing(tips), Reply::Rows(rows)) => match read_texts(&rows) {
                Some(existing) => BranchSync::advance(
                    job,
                    BranchWork { tips, next: 0, existing },
                    now.text.as_str(),
                ),
                None => Step::Failed,
            },
            (BranchStage::Upsert { is_new, work }, Reply::Rows(rows)) => match first_id(&rows) {
                Ok(Some(id)) => {
                    let slug: String = job.slug();
                    let record: Statement = log_change(
                        "branch",
                        id,
                        ChangeEvent::for_row(is_new),
                        Some(slug.as_str()),
                        None,
                    );
                    Step::Do(
                        BranchSync { job, stage: BranchStage::Log(work) },
                        Action::Execute(record),
                    )
                },
                _ => Step::Failed,
            },
            (BranchStage::Log(work), Reply::Executed { .. }) => {
                BranchSync::advance(job, work, now.text.as_str())
            },
            _ => Step::Failed,
        }
    }
}

// ---- what holds of every sync ------------------------------------------------------
/// Exactly those branches are recorded whose names match a pattern.
pub proof fn only_wanted_branches_are_recorded(
    branches: Seq<JsonView>,
    patterns: Seq<Seq<char>>,
    tip: TipView,
)
    ensures
        wanted_tips(branches, patterns).contains(tip) <==> any_matches(patterns, tip.name)
            && exists|i: int|
            0 <= i < branches.len() && (#[trigger] branches[i]).at("name"@) == JsonView::Str(
                tip.name,
            ) && branches[i].at("commit"@).at("sha"@).as_str() == tip.sha,
    decreases branches.len(),
{
    let all = wanted_tips(branches, patterns);
    if branches.len() > 0 {
        let fewer = branches.drop_last();
        let before = wanted_tips(fewer, patterns);
        only_wanted_branches_are_recorded(fewer, patterns, tip);
        if all.contains(tip) {
            let k = choose|k: int| 0 <= k < all.len() && all[k] == tip;
            if k < before.len() {
                assert(before[k] == tip);
                let i = choose|i: int|
                    0 <= i < fewer.len() && (#[trigger] fewer[i]).at("name"@) == JsonView::Str(
                        tip.name,
                    ) && fewer[i].at("commit"@).at("sha"@).as_str() == tip.sha;
                assert(branches[i] == fewer[i]);
            } else {
                assert(branches[branches.len() - 1] == branches.last());
            }
        }
        if any_matches(patterns, tip.name) {
            if exists|i: int|
                0 <= i < branches.len() && (#[trigger] branches[i]).at("name"@) == JsonView::Str(
                    tip.name,
                ) && branches[i].at("commit"@).at("sha"@).as_str() == tip.sha {
                let i = choose|i: int|
                    0 <= i < branches.len() && (#[trigger] branches[i]).at("name"@)
                        == JsonView::Str(tip.name) && branches[i].at("commit"@).at("sha"@).as_str()
                        == tip.sha;
                if i < fewer.len() {
                    assert(fewer[i] == branches[i]);
                    let k = choose|k: int| 0 <= k < before.len() && before[k] == tip;
                    assert(all[k] == tip);
                } else {
                    assert(wanted_tip(branches.last(), patterns) == Some(tip));
                    assert(all[all.len() - 1] == tip);
                }
            }
        }
    }
}

/// Every branch that is recorded is logged as a change before the next one is recorded.
pub proof fn recorded_branch_is_logged(
    job: RepoJobView,
    is_new: bool,
    work: BranchWorkView,
    rows: Seq<Seq<SqlView>>,
    id: i64,
    now: NowView,
)
    requires
        db::id_in(rows) == Some(id),
    ensures
        (BranchSyncView { job, stage: BranchStageView::Upsert { is_new, work } }).next(
            ReplyView::Rows(rows),
            now,
        ) == BranchStep::Do(
            BranchSyncView { job, stage: BranchStageView::Log(work) },
            ActionView::Execute(
                db::change_record(
                    "branch"@,
                    id,
                    ChangeEvent::of(is_new),
                    Some(job.slug()),
                    None,
                ),
            ),
        ),
{
}

} // verus!
