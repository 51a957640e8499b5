//! What holds of a run as a whole, however it goes: what it asks for, one action after
//! the other, whatever it is told.

use vstd::prelude::*;

use crate::json::JsonView;
use crate::sync::events::{
    EventStageView, EventSyncView, OrgEventSyncView, OrgStageView, ProgressView,
};
use crate::sync::notifications::{NotificationSyncView, ThreadsView, WatchedView};
use crate::sync::step::{ActionView, NowView, RepoJobView, ReplyView, StepView};
use crate::sync::{FoundView, PlanView, RunStageView, RunStep, RunView};
use crate::sync::{discovery, events};
use crate::sync;

verus! {

/// The step that a run has reached when it was told `replies`, one after the other.
pub open spec fn reached(plan: PlanView, replies: Seq<(ReplyView, NowView)>) -> RunStep
    decreases replies.len(),
{
    if replies.len() == 0 {
        RunView::start(plan)
    } else {
        match reached(plan, replies.drop_last()) {
            StepView::Do(run, action) => run.next(replies.last().0, replies.last().1),
            end => end,
        }
    }
}

/// The action of a step, if it has one.
pub open spec fn action_of(step: RunStep) -> Seq<ActionView> {
    match step {
        StepView::Do(run, action) => seq![action],
        _ => Seq::empty(),
    }
}

/// All actions that a run has asked for when it was told `replies`.
pub open spec fn asked(plan: PlanView, replies: Seq<(ReplyView, NowView)>) -> Seq<ActionView>
    decreases replies.len(),
{
    if replies.len() == 0 {
        action_of(reached(plan, replies))
    } else {
        let before = asked(plan, replies.drop_last());
        match reached(plan, replies.drop_last()) {
            StepView::Do(run, action) => before + action_of(reached(plan, replies)),
            _ => before,
        }
    }
}

// ---- transactions ------------------------------------------------------------------
/// By how much an action changes the number of open transactions.
pub open spec fn opening(action: ActionView) -> int {
    match action {
        ActionView::Begin => 1,
        ActionView::Commit => -1,
        ActionView::Rollback => -1,
        _ => 0,
    }
}

/// How many transactions are open after a sequence of actions.
pub open spec fn open_after(actions: Seq<ActionView>) -> int
    decreases actions.len(),
{
    if actions.len() == 0 {
        0
    } else {
        open_after(actions.drop_last()) + opening(actions.last())
    }
}

/// Whether a run at this stage has a transaction open, or has just asked for one.
pub open spec fn in_transaction(stage: RunStageView) -> bool {
    match stage {
        RunStageView::Begin { .. } => true,
        RunStageView::Upsert { .. } => true,
        RunStageView::RepoId { .. } => true,
        RunStageView::Events { .. } => true,
        RunStageView::Prs { .. } => true,
        RunStageView::Branches { .. } => true,
        _ => false,
    }
}

/// Whether a step stands outside any transaction, and leaves that so.
spec fn outside(step: RunStep) -> bool {
    match step {
        StepView::Do(run, action) => !in_transaction(run.stage) && opening(action) == 0,
        StepView::Finished(_) => true,
        StepView::Failed => false,
    }
}

/// Whether a step stands inside a transaction, or ends it.
spec fn inside(step: RunStep) -> bool {
    match step {
        StepView::Do(run, action) => !(run.stage is Begin) && (if in_transaction(run.stage) {
            1int
        } else {
            0int
        }) == 1 + opening(action),
        _ => false,
    }
}

proof fn lemma_repos_outside(plan: PlanView, found: FoundView, repo: int)
    ensures
        outside(RunView::repos_from(plan, found, repo)),
    decreases sync::all_repos(plan, found).len() - repo,
{
    if 0 <= repo < sync::all_repos(plan, found).len() {
        lemma_repos_outside(plan, found, repo + 1);
    }
}

proof fn lemma_org_events_outside(plan: PlanView, found: FoundView, org: int)
    ensures
        outside(RunView::org_events_from(plan, found, org)),
    decreases plan.orgs.len() - org,
{
    lemma_repos_outside(plan, found, 0);
    if 0 <= org < plan.orgs.len() {
        lemma_org_events_outside(plan, found, org + 1);
    }
}

proof fn lemma_discover_outside(plan: PlanView, found: FoundView, org: int)
    ensures
        outside(RunView::discover_from(plan, found, org)),
    decreases plan.orgs.len() - org,
{
    lemma_org_events_outside(plan, found, 0);
    if 0 <= org < plan.orgs.len() && plan.resting.has_org(org) {
        lemma_discover_outside(plan, found, org + 1);
    }
}

proof fn lemma_event_seek(job: RepoJobView, evs: Seq<JsonView>, i: int, dirty: Seq<i64>)
    ensures
        EventSyncView::seek(job, evs, i, dirty) matches StepView::Do(_, a) ==> opening(a) == 0,
    decreases evs.len() - i,
{
    if 0 <= i < evs.len() {
        lemma_event_seek(job, evs, i + 1, dirty);
    }
}

proof fn lemma_org_seek(owner: Seq<char>, progress: ProgressView)
    ensures
        OrgEventSyncView::seek(owner, progress) matches StepView::Do(_, a) ==> opening(a) == 0,
    decreases progress.events.len() - progress.next,
{
    if 0 <= progress.next < progress.events.len() {
        lemma_org_seek(owner, ProgressView { next: progress.next + 1, ..progress });
    }
}

proof fn lemma_thread_seek(watched: WatchedView, work: ThreadsView)
    ensures
        NotificationSyncView::seek(watched, work) matches StepView::Do(_, a) ==> opening(a) == 0,
    decreases work.threads.len() - work.next,
{
    if 0 <= work.next < work.threads.len() {
        lemma_thread_seek(watched, ThreadsView { next: work.next + 1, ..work });
    }
}

proof fn lemma_events_plain(sync: EventSyncView, reply: ReplyView, now: NowView)
    ensures
        sync.next(reply, now) matches StepView::Do(_, a) ==> opening(a) == 0,
{
    match (sync.stage, reply) {
        (EventStageView::Call, ReplyView::Answer(resp)) => {
            if let Some(evs) = resp.body.as_array() {
                lemma_event_seek(sync.job, evs, 0, Seq::empty());
            }
        },
        (EventStageView::Insert { events, next, pr, dirty }, _) => {
            lemma_event_seek(sync.job, events, next, dirty);
        },
        (EventStageView::Log { events, next, pr, dirty }, _) => {
            lemma_event_seek(sync.job, events, next, events::with_pr(dirty, pr));
        },
        _ => {},
    }
}

proof fn lemma_org_events_plain(sync: OrgEventSyncView, reply: ReplyView, now: NowView)
    ensures
        sync.next(reply, now) matches StepView::Do(_, a) ==> opening(a) == 0,
{
    let owner = sync.owner;
    match (sync.stage, reply) {
        (OrgStageView::Call, ReplyView::Answer(resp)) => {
            if let Some(evs) = resp.body.as_array() {
                lemma_org_seek(
                    owner,
                    ProgressView { events: evs, next: 0, ids: Map::empty(), dirty: Map::empty() },
                );
            }
        },
        (OrgStageView::Lookup(at, progress), _) => {
            lemma_org_seek(
                owner,
                ProgressView { ids: progress.ids.insert(at.name, None), ..progress },
            );
        },
        (OrgStageView::Insert(at, progress), _) => {
            lemma_org_seek(owner, progress);
        },
        (OrgStageView::Log(at, progress), _) => {
            lemma_org_seek(owner, OrgEventSyncView::noted(owner, at, progress));
        },
        _ => {},
    }
}

proof fn lemma_notifications_plain(sync: NotificationSyncView, reply: ReplyView, now: NowView)
    ensures
        sync.next(reply, now) matches StepView::Do(_, a) ==> opening(a) == 0,
{
    assert forall|work: ThreadsView|
        (#[trigger] NotificationSyncView::seek(sync.watched, work)) matches StepView::Do(_, a)
            ==> opening(a) == 0 by {
        lemma_thread_seek(sync.watched, work);
    }
}

/// How a step follows on a run, as far as transactions go.
spec fn follows(run: RunView, step: RunStep) -> bool {
    if run.stage is Begin {
        inside(step) || step is Failed
    } else if in_transaction(run.stage) {
        inside(step)
    } else {
        ||| outside(step)
        ||| step is Failed
        ||| step matches StepView::Do(r, a) && a is Begin && r.stage is Begin
    }
}

proof fn lemma_next(run: RunView, reply: ReplyView, now: NowView)
    ensures
        follows(run, run.next(reply, now)),
{
    let plan = run.plan;
    let found = run.found;
    match run.stage {
        RunStageView::Discover { org, sync } => {
            match sync.next(reply, now) {
                StepView::Finished(names) => {
                    lemma_discover_outside(
                        plan,
                        FoundView {
                            repos: found.repos + discovery::repos_in(plan.orgs[org], names),
                            owners: found.owners.push(plan.orgs[org].owner),
                            ..found
                        },
                        org + 1,
                    );
                },
                _ => {
                    lemma_discover_outside(plan, found, org + 1);
                },
            }
        },
        RunStageView::OrgEvents { org, sync } => {
            lemma_org_events_plain(sync, reply, now);
            match sync.next(reply, now) {
                StepView::Finished(table) => {
                    lemma_org_events_outside(
                        plan,
                        FoundView { dirty: found.dirty.union_prefer_right(table), ..found },
                        org + 1,
                    );
                },
                _ => {
                    lemma_org_events_outside(plan, found, org + 1);
                },
            }
        },
        RunStageView::Events { repo, repo_id, sync } => {
            lemma_events_plain(sync, reply, now);
        },
        RunStageView::Commit { repo } => {
            lemma_repos_outside(plan, found, repo + 1);
        },
        RunStageView::Rollback { repo } => {
            lemma_repos_outside(plan, found, repo + 1);
        },
        RunStageView::Notifications(sync) => {
            lemma_notifications_plain(sync, reply, now);
        },
        _ => {},
    }
}

/// Whether a step and the actions asked for up to it agree on the transactions: one is
/// open exactly while a repository is worked on, and none is at the end. A run that fails
/// with one asked for and not ended was refused that one.
pub open spec fn paired(step: RunStep, actions: Seq<ActionView>) -> bool {
    match step {
        StepView::Do(run, action) => {
            &&& actions.len() > 0
            &&& actions.last() == action
            &&& action is Begin <==> run.stage is Begin
            &&& open_after(actions) == (if in_transaction(run.stage) {
                1int
            } else {
                0int
            })
        },
        StepView::Finished(_) => open_after(actions) == 0,
        StepView::Failed => {
            ||| open_after(actions) == 0
            ||| open_after(actions) == 1 && actions.len() > 0 && actions.last() is Begin
        },
    }
}

proof fn lemma_extend(run: RunView, action: ActionView, actions: Seq<ActionView>, step: RunStep)
    requires
        paired(StepView::Do(run, action), actions),
        follows(run, step),
    ensures
        paired(step, actions + action_of(step)),
{
    match step {
        StepView::Do(run2, action2) => {
            assert(actions + action_of(step) =~= actions.push(action2));
            assert(actions.push(action2).drop_last() =~= actions);
        },
        _ => {
            assert(actions + action_of(step) =~= actions);
        },
    }
}

proof fn lemma_first(step: RunStep)
    requires
        outside(step),
    ensures
        paired(step, action_of(step)),
{
    match step {
        StepView::Do(run, action) => {
            assert(action_of(step).drop_last() =~= Seq::<ActionView>::empty());
            assert(open_after(Seq::<ActionView>::empty()) == 0);
        },
        _ => {},
    }
}

/// However a run goes, no transaction is opened while another is open, and every one that
/// is opened is kept or undone exactly once: while a repository is worked on one
/// transaction is open, before and after that none is, and none is when the run has come
/// to its end. Where a run fails with a transaction asked for and not ended, it was
/// refused that transaction.
pub proof fn transactions_are_paired(plan: PlanView, replies: Seq<(ReplyView, NowView)>)
    ensures
        paired(reached(plan, replies), asked(plan, replies)),
    decreases replies.len(),
{
    if replies.len() == 0 {
        lemma_discover_outside(
            plan,
            FoundView { repos: Seq::empty(), owners: Seq::empty(), dirty: Map::empty() },
            0,
        );
        lemma_first(reached(plan, replies));
    } else {
        let before = replies.drop_last();
        transactions_are_paired(plan, before);
        if let StepView::Do(run, action) = reached(plan, before) {
            lemma_next(run, replies.last().0, replies.last().1);
            lemma_extend(run, action, asked(plan, before), reached(plan, replies));
        }
    }
}

} // verus!
