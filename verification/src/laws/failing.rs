//! What follows where something fails or an answer holds nothing to take up, and how the work goes
//! on from there.

use vstd::prelude::*;

use crate::checkout::{CheckoutStageView, CheckoutView, CommandView, TaskView};
use crate::client::follow::{FollowActionView, FollowView, OutcomeView, Reason, Stage};
use crate::client::tail;
use crate::db::PollStateView;
use crate::gh;
use crate::gh::GhResponseView;
use crate::json::JsonView;
use crate::query;
use crate::query::prs::{PrQueryError, PrStepView};
use crate::sql::SqlView;
use crate::sync::branches::{BranchStageView, BranchSyncView, TipView};
use crate::sync::discovery;
use crate::sync::discovery::{DiscoveryStage, DiscoveryView};
use crate::sync::events::{
    EventStageView, EventSyncView, LocatedView, OrgEventSyncView, OrgStageView, OrgStep,
    ProgressView,
};
use crate::sync::notifications::{NotificationStageView, NotificationSyncView, WatchedView};
use crate::sync::prs::{PrScopeView, PrStageView, PrSyncView};
use crate::sync::step::{ActionView, NowView, RepoJobView, ReplyView, StepView};
use crate::sync::watch::{WatchActionView, WatchEventView, WatchJob, WatchStageView};
use crate::sync::{FoundView, PlanView, RunStageView, RunView};
use crate::{client, cmd, db, sql};

verus! {

/// A sync whose action fails has failed, wherever it stands. Only the events of an organisation go
/// on where the lookup of a repository fails.
pub proof fn failed_action_fails_the_sync(
    prs: PrSyncView,
    ev: EventSyncView,
    org: OrgEventSyncView,
    br: BranchSyncView,
    di: DiscoveryView,
    no: NotificationSyncView,
    now: NowView,
)
    ensures
        prs.next(ReplyView::Failed, now) is Failed,
        ev.next(ReplyView::Failed, now) is Failed,
        !(org.stage is Lookup) ==> org.next(ReplyView::Failed, now) is Failed,
        br.next(ReplyView::Failed, now) is Failed,
        di.next(ReplyView::Failed, now) is Failed,
        no.next(ReplyView::Failed, now) is Failed,
{
}

/// A sync that is told something else than what it asked for has failed.
pub proof fn unexpected_reply_fails_the_sync(
    job: RepoJobView,
    owner: Seq<char>,
    watched: WatchedView,
    scope: PrScopeView,
    reply: ReplyView,
    now: NowView,
)
    ensures
        !(reply is Done) ==> (PrSyncView { job, stage: PrStageView::Throttle(scope) }).next(
            reply,
            now,
        ) is Failed,
        !(reply is Data) ==> (PrSyncView { job, stage: PrStageView::Query(scope) }).next(
            reply,
            now,
        ) is Failed,
        !(reply is Rows) ==> (EventSyncView { job, stage: EventStageView::Poll }).next(
            reply,
            now,
        ) is Failed,
        !(reply is Answer) ==> (EventSyncView { job, stage: EventStageView::Call }).next(
            reply,
            now,
        ) is Failed,
        !(reply is Rows) ==> (OrgEventSyncView { owner, stage: OrgStageView::Poll }).next(
            reply,
            now,
        ) is Failed,
        !(reply is Answer) ==> (OrgEventSyncView { owner, stage: OrgStageView::Call }).next(
            reply,
            now,
        ) is Failed,
        !(reply is Rows) ==> (NotificationSyncView {
            watched,
            stage: NotificationStageView::Poll,
        }).next(reply, now) is Failed,
        !(reply is Answer) ==> (NotificationSyncView {
            watched,
            stage: NotificationStageView::Call,
        }).next(reply, now) is Failed,
        !(reply is Rows) ==> (DiscoveryView { owner, stage: DiscoveryStage::Stored }).next(
            reply,
            now,
        ) is Failed,
        !(reply is Answer) ==> (DiscoveryView { owner, stage: DiscoveryStage::OrgCall }).next(
            reply,
            now,
        ) is Failed,
{
}

/// An answer that is no list holds nothing to take up: the sync ends, and no pull request is
/// marked.
pub proof fn answer_that_is_no_list_ends_the_sync(
    job: RepoJobView,
    owner: Seq<char>,
    watched: WatchedView,
    patterns: Seq<Seq<char>>,
    resp: GhResponseView,
    now: NowView,
)
    requires
        !(resp.body is Array),
    ensures
        (EventSyncView { job, stage: EventStageView::Call }).next(ReplyView::Answer(resp), now)
            == StepView::<EventSyncView, Seq<i64>>::Finished(Seq::empty()),
        (OrgEventSyncView { owner, stage: OrgStageView::Call }).next(ReplyView::Answer(resp), now)
            == OrgStep::Finished(Map::empty()),
        (BranchSyncView { job, stage: BranchStageView::Call(patterns) }).next(
            ReplyView::Answer(resp),
            now,
        ) == StepView::<BranchSyncView, ()>::Finished(()),
        (NotificationSyncView { watched, stage: NotificationStageView::Call }).next(
            ReplyView::Answer(resp),
            now,
        ) == StepView::<NotificationSyncView, ()>::Finished(()),
{
}

/// Data that holds no list of pull requests ends the sync of all open ones; it does not fail.
pub proof fn data_without_prs_ends_the_sync(job: RepoJobView, data: JsonView, now: NowView)
    requires
        !(data.at("repository"@).at("pullRequests"@).at("nodes"@) is Array),
    ensures
        (PrSyncView { job, stage: PrStageView::Query(PrScopeView::Full) }).next(
            ReplyView::Data(data),
            now,
        ) == StepView::<PrSyncView, ()>::Finished(()),
{
}

/// Rows of which one does not begin with an integer are no integers, and rows of which one does
/// not begin with a text are no texts.
proof fn lemma_unreadable(rows: Seq<Seq<SqlView>>, i: int)
    requires
        0 <= i < rows.len(),
    ensures
        rows[i].len() == 0 || !(rows[i][0] is Integer) ==> sql::integers_of(rows) is None,
        rows[i].len() == 0 || !(rows[i][0] is Text) ==> sql::texts_of(rows) is None,
    decreases rows.len(),
{
    if i < rows.len() - 1 {
        lemma_unreadable(rows.drop_last(), i);
    }
}

/// A column that a row does not have holds nothing.
pub proof fn missing_column_holds_nothing(row: Seq<SqlView>, i: int)
    requires
        i < 0 || row.len() <= i,
    ensures
        sql::integer_in(row, i) is None,
        sql::text_in(row, i) is None,
        sql::opt_integer_in(row, i) is None,
        sql::opt_text_in(row, i) is None,
{
}

/// A sync that cannot read which numbers or names there are has failed, before it writes anything.
pub proof fn unreadable_rows_fail_the_sync(
    job: RepoJobView,
    owner: Seq<char>,
    watched: WatchedView,
    prs: Seq<(JsonView, i64)>,
    threads: Seq<JsonView>,
    ids: Map<Seq<char>, i64>,
    tips: Seq<TipView>,
    rows: Seq<Seq<SqlView>>,
    i: int,
    now: NowView,
)
    requires
        0 <= i < rows.len(),
    ensures
        rows[i].len() == 0 || !(rows[i][0] is Integer) ==> (PrSyncView {
            job,
            stage: PrStageView::Existing(prs),
        }).next(ReplyView::Rows(rows), now) is Failed,
        rows[i].len() == 0 || !(rows[i][0] is Text) ==> (NotificationSyncView {
            watched,
            stage: NotificationStageView::Existing(threads, ids),
        }).next(ReplyView::Rows(rows), now) is Failed,
        rows[i].len() == 0 || !(rows[i][0] is Text) ==> (DiscoveryView {
            owner,
            stage: DiscoveryStage::Stored,
        }).next(ReplyView::Rows(rows), now) is Failed,
        rows[i].len() == 0 || !(rows[i][0] is Text) ==> (BranchSyncView {
            job,
            stage: BranchStageView::Existing(tips),
        }).next(ReplyView::Rows(rows), now) is Failed,
{
    lemma_unreadable(rows, i);
}

/// A write that gives no id back has failed.
pub proof fn write_without_an_id_fails_the_sync(
    job: RepoJobView,
    watched: WatchedView,
    prs: PrStageView,
    threads: NotificationStageView,
    branches: BranchStageView,
    rows: Seq<Seq<SqlView>>,
    now: NowView,
)
    requires
        rows.len() == 0 || rows[0].len() == 0 || !(rows[0][0] is Integer),
        prs is Upsert,
        threads is Upsert,
        branches is Upsert,
    ensures
        (PrSyncView { job, stage: prs }).next(ReplyView::Rows(rows), now) is Failed,
        (NotificationSyncView { watched, stage: threads }).next(
            ReplyView::Rows(rows),
            now,
        ) is Failed,
        (BranchSyncView { job, stage: branches }).next(ReplyView::Rows(rows), now) is Failed,
{
}

/// The events of an organisation are gone through from the first one on. A repository whose lookup
/// fails is taken as one that is not in the cache.
pub proof fn org_events_are_gone_through_from_the_first(
    owner: Seq<char>,
    events: Seq<JsonView>,
    resp: GhResponseView,
    at: LocatedView,
    progress: ProgressView,
    now: NowView,
)
    requires
        resp.status != 304,
        resp.body == JsonView::Array(events),
    ensures
        (OrgEventSyncView { owner, stage: OrgStageView::Call }).next(ReplyView::Answer(resp), now)
            == OrgEventSyncView::seek(
            owner,
            ProgressView { events, next: 0, ids: Map::empty(), dirty: Map::empty() },
        ),
        (OrgEventSyncView { owner, stage: OrgStageView::Lookup(at, progress) }).next(
            ReplyView::Failed,
            now,
        ) == (OrgEventSyncView { owner, stage: OrgStageView::Lookup(at, progress) }).next(
            ReplyView::Rows(Seq::empty()),
            now,
        ),
        (OrgEventSyncView { owner, stage: OrgStageView::Lookup(at, progress) }).next(
            ReplyView::Failed,
            now,
        ) == OrgEventSyncView::seek(
            owner,
            ProgressView { ids: progress.ids.insert(at.name, None), ..progress },
        ),
{
}

/// The repositories of a user are asked for with the tag that the last answer gave, and an account
/// that is no organisation is remembered as one by a tag of its own.
pub proof fn users_are_asked_for_with_their_tag(
    owner: Seq<char>,
    poll: PollStateView,
    rows: Seq<Seq<SqlView>>,
    now: NowView,
)
    requires
        db::polled_state(rows) == Some(poll),
    ensures
        (DiscoveryView { owner, stage: DiscoveryStage::UserPoll }).next(ReplyView::Rows(rows), now)
            == StepView::<DiscoveryView, Seq<Seq<char>>>::Do(
            DiscoveryView { owner, stage: DiscoveryStage::UserCall },
            ActionView::Call(gh::pages_request(discovery::user_repos_endpoint(owner), poll.etag)),
        ),
        discovery::NOT_ORG@ == "__user__"@,
{
}

/// A repository whose writes fail is undone. A run fails where it cannot wait for points, open a
/// transaction or keep one, and where the notifications fail.
pub proof fn failing_repository_is_undone(
    plan: PlanView,
    found: FoundView,
    repo: int,
    reply: ReplyView,
    now: NowView,
)
    ensures
        !(reply is Executed) ==> (RunView {
            plan,
            found,
            stage: RunStageView::Upsert { repo },
        }).next(reply, now) == StepView::<RunView, ()>::Do(
            RunView { plan, found, stage: RunStageView::Rollback { repo } },
            ActionView::Rollback,
        ),
        !(reply is Rows) ==> (RunView { plan, found, stage: RunStageView::RepoId { repo } }).next(
            reply,
            now,
        ) == StepView::<RunView, ()>::Do(
            RunView { plan, found, stage: RunStageView::Rollback { repo } },
            ActionView::Rollback,
        ),
        !(reply is Done) ==> (RunView { plan, found, stage: RunStageView::Throttle { repo } }).next(
            reply,
            now,
        ) is Failed,
        !(reply is Done) ==> (RunView { plan, found, stage: RunStageView::Begin { repo } }).next(
            reply,
            now,
        ) is Failed,
        !(reply is Done) ==> (RunView { plan, found, stage: RunStageView::Commit { repo } }).next(
            reply,
            now,
        ) is Failed,
{
}

/// A run ends as the sync of the notifications ends.
pub proof fn run_ends_with_the_notifications(
    plan: PlanView,
    found: FoundView,
    sync: NotificationSyncView,
    reply: ReplyView,
    now: NowView,
)
    ensures
        ({
            let run = RunView { plan, found, stage: RunStageView::Notifications(sync) };
            &&& sync.next(reply, now) is Failed <==> run.next(reply, now) is Failed
            &&& sync.next(reply, now) is Finished <==> run.next(reply, now) is Finished
        }),
{
}

/// A loop that is ready waits for the state that it asked for, and what is to be checked out is
/// handed out once nothing is left to look up.
pub proof fn loop_waits_for_what_it_asked_for(
    job: WatchJob,
    event: WatchEventView,
    index: int,
    tasks: Seq<TaskView>,
    now: u64,
)
    ensures
        !(event is State) ==> job.at(WatchStageView::Ready).next(event, now) == (
            job.at(WatchStageView::Ready),
            WatchActionView::Look,
        ),
        tasks.len() > 0 && index >= job.orgs.len() ==> job.at(
            WatchStageView::Org { index, tasks },
        ).next(event, now) == (
            job.at(WatchStageView::CheckingOut),
            WatchActionView::CheckOut(tasks),
        ),
{
}

/// An update of a checkout fails where a program cannot be run, and where one fails whose success
/// it needs; it goes on after any other.
pub proof fn update_needs_what_it_asks_git_for(
    c: CheckoutView,
    rest: Seq<CommandView>,
    success: bool,
    stdout: Seq<u8>,
)
    ensures
        c.next(None) is Failed,
        (CheckoutView { stage: CheckoutStageView::Branch, ..c }).next(
            Some((false, stdout)),
        ) is Failed,
        (CheckoutView { stage: CheckoutStageView::Status, ..c }).next(
            Some((false, stdout)),
        ) is Failed,
        (CheckoutView {
            stage: CheckoutStageView::Work { must_succeed: true, rest },
            ..c
        }).next(Some((false, stdout))) is Failed,
        (CheckoutView {
            stage: CheckoutStageView::Work { must_succeed: false, rest },
            ..c
        }).next(Some((success, stdout))) == c.work(rest),
{
}

/// A row that does not give the id of a pull request is an error of its own.
pub proof fn unreadable_id_is_told_apart(rows: Seq<Seq<SqlView>>)
    requires
        rows.len() > 0,
        rows[0].len() == 0 || !(rows[0][0] is Integer),
    ensures
        query::prs::PrStageView::Id.next(rows) == PrStepView::Failed(PrQueryError::BadRow),
{
}

/// A subscriber asks for the changes after the last one it received, rests for its interval in
/// between, and begins at the beginning where the log does not tell how far it has come.
pub proof fn subscriber_rests_between_questions(f: FollowView, outcome: OutcomeView)
    ensures
        (FollowView { stage: Stage::Resting, ..f }).next(outcome) == (
            FollowView { stage: Stage::Asking, ..f },
            FollowActionView::Query(tail::changes_query(f.last)),
        ),
        (FollowView { stage: Stage::Handling, ..f }).next(OutcomeView::Done) == (
            FollowView { stage: Stage::Resting, ..f },
            FollowActionView::Sleep(f.nanos),
        ),
        (FollowView { stage: Stage::Asking, ..f }).next(OutcomeView::Rows(Seq::empty())) == (
            FollowView { stage: Stage::Resting, ..f },
            FollowActionView::Sleep(f.nanos),
        ),
        !(outcome is Rows) ==> (FollowView { stage: Stage::Starting, ..f }).next(outcome) == (
            FollowView { last: 0, stage: Stage::Resting, ..f },
            FollowActionView::Sleep(f.nanos),
        ),
        !(outcome is Rows) ==> (FollowView { stage: Stage::Asking, ..f }).next(
            outcome,
        ).1 == FollowActionView::Stop(Reason::Query),
        !(outcome is Done) ==> (FollowView { stage: Stage::Handling, ..f }).next(
            outcome,
        ).1 == FollowActionView::Stop(Reason::Handler),
{
}

/// A client that is told nothing else asks where the service listens that is told nothing else.
pub proof fn client_asks_where_the_service_listens()
    ensures
        client::cmd::DEFAULT_PORT == cmd::DEFAULT_PORT,
        cmd::DEFAULT_PORT == 7748,
{
}

} // verus!
