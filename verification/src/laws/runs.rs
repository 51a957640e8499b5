//! What a run of the sync takes up, in what order, and when the loop around it runs.

use vstd::prelude::*;

use crate::checkout::TaskView;
use crate::config::{OrgView, RepoView};
use crate::laws::values;
use crate::sql::{SqlView, StatementView};
use crate::sync;
use crate::sync::branches::BranchSyncView;
use crate::sync::discovery::DiscoveryView;
use crate::sync::events::{EventSyncView, OrgEventSyncView};
use crate::sync::notifications::NotificationSyncView;
use crate::sync::prs::{PrScopeView, PrSyncView};
use crate::sync::step::{ActionView, NowView, Pool, RepoJobView, ReplyView, StepView};
use crate::sync::watch;
use crate::sync::watch::{
    PaceView, WatchActionView, WatchEventView, WatchJob, WatchStageView, WatchView,
};
use crate::sync::{
    discovery, notifications, FilterView, FoundView, PlanView, RestingView, RunStageView, RunStep,
    RunView,
};
use crate::{config, db, sql};

verus! {

// ---- what a run takes up -----------------------------------------------------------
/// A run that is not restricted takes up pull requests, notifications and events alike; one that
/// is restricted takes up what it is restricted to.
pub proof fn filter_takes_what_it_names(f: FilterView)
    ensures
        ({
            let all = !f.prs_only && !f.notifs_only && !f.events_only;
            &&& f.takes_all() <==> all
            &&& f.takes_prs() <==> all || f.prs_only
            &&& f.takes_notifs() <==> all || f.notifs_only
            &&& f.takes_events() <==> all || f.events_only
        }),
{
}

/// A run for one repository takes up that one, by its full name; a run for none in particular
/// takes up all of them.
pub proof fn filter_takes_the_repository_it_names(f: FilterView, repo: RepoView)
    ensures
        f.repo is None ==> f.takes_repo(repo),
        f.repo matches Some(slug) ==> (f.takes_repo(repo) <==> slug == repo.owner.push('/')
            + repo.name),
{
    values::full_name_is_owner_slash_name(repo.owner, repo.name);
}

/// What rests is what is marked as resting.
pub proof fn resting_is_what_is_marked(r: RestingView, i: int)
    ensures
        0 <= i < r.repos.len() ==> (r.has_repo(i) <==> r.repos[i]),
        0 <= i < r.orgs.len() ==> (r.has_org(i) <==> r.orgs[i]),
        !(0 <= i < r.repos.len()) ==> !r.has_repo(i),
        !(0 <= i < r.orgs.len()) ==> !r.has_org(i),
{
}

/// A configured repository is taken up where the run asks for it and it does not rest; one that
/// was found or is subscribed to, where the run asks for it.
pub proof fn repository_is_taken_up_unless_it_rests(plan: PlanView, repo: RepoView, i: int)
    requires
        0 <= i,
    ensures
        i < plan.repos.len() ==> (plan.takes(repo, i) <==> plan.filter.takes_repo(repo) && !(i
            < plan.resting.repos.len() && plan.resting.repos[i])),
        i >= plan.repos.len() ==> (plan.takes(repo, i) <==> plan.filter.takes_repo(repo)),
{
}

/// Notifications are synced where the run takes them up, they do not rest, and somebody asks for
/// them: the configuration as a whole, a repository, an organisation, or a subscription.
pub proof fn notifications_are_synced_where_somebody_asks(plan: PlanView, i: int)
    requires
        plan.filter.takes_notifs(),
    ensures
        plan.resting.others ==> !plan.needs_notifications(),
        !plan.resting.others && plan.sync_notifications ==> plan.needs_notifications(),
        !plan.resting.others && 0 <= i < plan.repos.len() && plan.repos[i].sync_notifications
            == Some(true) ==> plan.needs_notifications(),
        !plan.resting.others && 0 <= i < plan.orgs.len() && plan.orgs[i].sync_notifications == Some(
            true,
        ) ==> plan.needs_notifications(),
        !plan.resting.others && plan.extra_notif_slugs.len() > 0 ==> plan.needs_notifications(),
        plan.needs_notifications() ==> plan.sync_notifications || plan.extra_notif_slugs.len() > 0
            || (exists|k: int|
            0 <= k < plan.repos.len() && (#[trigger] plan.repos[k]).sync_notifications == Some(
                true,
            )) || (exists|k: int|
            0 <= k < plan.orgs.len() && (#[trigger] plan.orgs[k]).sync_notifications == Some(true)),
{
    if 0 <= i < plan.repos.len() && plan.repos[i].sync_notifications == Some(true) {
        assert(config::is_on(plan.repos[i].sync_notifications));
    }
    if 0 <= i < plan.orgs.len() && plan.orgs[i].sync_notifications == Some(true) {
        assert(config::is_on(plan.orgs[i].sync_notifications));
    }
}

/// Notifications are not synced by a run that does not take them up.
pub proof fn notifications_are_left_out_where_not_taken_up(plan: PlanView)
    requires
        plan.filter.prs_only || plan.filter.events_only,
        !plan.filter.notifs_only,
    ensures
        !plan.needs_notifications(),
{
}

/// All open pull requests are fetched by a full sweep, by a run for pull requests alone, and for
/// subscribed repositories; else those that events speak of.
pub proof fn scope_of_pull_requests(plan: PlanView, extra: bool, marked: Seq<i64>)
    ensures
        plan.scope(extra, marked) == (if plan.full_sweep || plan.filter.prs_only || extra {
            PrScopeView::Full
        } else {
            PrScopeView::Targeted(marked)
        }),
{
}

/// Repositories are gone through in the order of the configuration, then those that were found,
/// then those that are subscribed to.
pub proof fn order_of_repositories(plan: PlanView, found: FoundView, i: int)
    ensures
        ({
            let all = sync::all_repos(plan, found);
            let n = plan.repos.len() as int;
            let m = found.repos.len() as int;
            let k = plan.extra_repos.len() as int;
            &&& all.len() == n + m + k
            &&& 0 <= i < n ==> all[i] == plan.repos[i] && !sync::is_extra(plan, found, i)
            &&& 0 <= i < m ==> all[n + i] == found.repos[i] && !sync::is_extra(plan, found, n + i)
            &&& 0 <= i < k ==> all[n + m + i] == plan.extra_repos[i] && sync::is_extra(
                plan,
                found,
                n + m + i,
            )
        }),
{
}

// ---- how a run goes ----------------------------------------------------------------
/// A run begins with the organisations: the repositories of each that does not rest are looked
/// for, and those that are found are synced as it says; one that cannot be looked up is passed
/// over.
pub proof fn run_begins_with_discovery(
    plan: PlanView,
    found: FoundView,
    org: int,
    sync: DiscoveryView,
    names: Seq<Seq<char>>,
    reply: ReplyView,
    now: NowView,
)
    requires
        0 <= org < plan.orgs.len(),
    ensures
        RunView::start(plan) == RunView::discover_from(
            plan,
            FoundView { repos: Seq::empty(), owners: Seq::empty(), dirty: Map::empty() },
            0,
        ),
        plan.resting.has_org(org) ==> RunView::discover_from(plan, found, org)
            == RunView::discover_from(plan, found, org + 1),
        !plan.resting.has_org(org) ==> RunView::discover_from(plan, found, org) == RunStep::Do(
            RunView {
                plan,
                found,
                stage: RunStageView::Discover {
                    org,
                    sync: DiscoveryView::start(plan.orgs[org].owner).0,
                },
            },
            DiscoveryView::start(plan.orgs[org].owner).1,
        ),
        RunView::discover_from(plan, found, plan.orgs.len() as int) == RunView::org_events_from(
            plan,
            found,
            0,
        ),
        ({
            let run = RunView { plan, found, stage: RunStageView::Discover { org, sync } };
            &&& sync.next(reply, now) == StepView::<DiscoveryView, Seq<Seq<char>>>::Finished(names)
                ==> run.next(reply, now) == RunView::discover_from(
                plan,
                FoundView {
                    repos: found.repos + discovery::repos_in(plan.orgs[org], names),
                    owners: found.owners.push(plan.orgs[org].owner),
                    dirty: found.dirty,
                },
                org + 1,
            )
            &&& sync.next(reply, now) is Failed ==> run.next(reply, now) == RunView::discover_from(
                plan,
                found,
                org + 1,
            )
        }),
{
}

/// Then the events of the organisations that ask for theirs are synced, where the run takes up
/// events; what they mark is kept.
pub proof fn events_of_organisations_come_next(
    plan: PlanView,
    found: FoundView,
    org: int,
    sync: OrgEventSyncView,
    table: Map<(Seq<char>, Seq<char>), Seq<i64>>,
    reply: ReplyView,
    now: NowView,
)
    requires
        0 <= org < plan.orgs.len(),
    ensures
        plan.filter.takes_events() && plan.orgs[org].sync_events == Some(true)
            && !plan.resting.has_org(org) ==> RunView::org_events_from(plan, found, org)
            == RunStep::Do(
            RunView {
                plan,
                found,
                stage: RunStageView::OrgEvents {
                    org,
                    sync: OrgEventSyncView::start(plan.orgs[org].owner).0,
                },
            },
            OrgEventSyncView::start(plan.orgs[org].owner).1,
        ),
        plan.filter.takes_events() && (plan.orgs[org].sync_events != Some(true)
            || plan.resting.has_org(org)) ==> RunView::org_events_from(plan, found, org)
            == RunView::org_events_from(plan, found, org + 1),
        !plan.filter.takes_events() ==> RunView::org_events_from(plan, found, org)
            == RunView::repos_from(plan, found, 0),
        RunView::org_events_from(plan, found, plan.orgs.len() as int) == RunView::repos_from(
            plan,
            found,
            0,
        ),
        ({
            let run = RunView { plan, found, stage: RunStageView::OrgEvents { org, sync } };
            &&& sync.next(reply, now) == StepView::<
                OrgEventSyncView,
                Map<(Seq<char>, Seq<char>), Seq<i64>>,
            >::Finished(table) ==> run.next(reply, now) == RunView::org_events_from(
                plan,
                FoundView {
                    repos: found.repos,
                    owners: found.owners,
                    dirty: found.dirty.union_prefer_right(table),
                },
                org + 1,
            )
            &&& sync.next(reply, now) is Failed ==> run.next(reply, now)
                == RunView::org_events_from(plan, found, org + 1)
        }),
{
}

/// Repositories are gone through one after the other: each that is taken up waits until there are
/// points left, the others are passed over, and after the last one come the notifications.
pub proof fn repositories_are_gone_through_in_order(plan: PlanView, found: FoundView, i: int)
    requires
        0 <= i < sync::all_repos(plan, found).len(),
    ensures
        plan.takes(sync::all_repos(plan, found)[i], i) ==> RunView::repos_from(plan, found, i)
            == RunStep::Do(
            RunView { plan, found, stage: RunStageView::Throttle { repo: i } },
            ActionView::Throttle(Pool::Rest),
        ),
        !plan.takes(sync::all_repos(plan, found)[i], i) ==> RunView::repos_from(plan, found, i)
            == RunView::repos_from(plan, found, i + 1),
        RunView::repos_from(plan, found, sync::all_repos(plan, found).len() as int)
            == RunView::notifications(plan, found),
{
}

/// Each repository is synced in a transaction of its own: it is recorded under its owner and name
/// with its default branch, `main` where none is given, and its id is asked for. When all is kept,
/// the next repository follows.
pub proof fn repository_is_synced_in_a_transaction(
    run: RunView,
    i: int,
    id: i64,
    changed: u64,
    row_id: i64,
    now: NowView,
)
    requires
        0 <= i < sync::all_repos(run.plan, run.found).len(),
    ensures
        ({
            let repo = sync::all_repos(run.plan, run.found)[i];
            let begun = RunView { stage: RunStageView::Begin { repo: i }, ..run };
            let written = RunView { stage: RunStageView::Upsert { repo: i }, ..run };
            let asked = RunView { stage: RunStageView::RepoId { repo: i }, ..run };
            &&& run.stage == (RunStageView::Throttle { repo: i }) ==> run.next(
                ReplyView::Done,
                now,
            ) == RunStep::Do(begun, ActionView::Begin)
            &&& run.stage == (RunStageView::Begin { repo: i }) ==> run.next(ReplyView::Done, now)
                == RunStep::Do(
                written,
                ActionView::Execute(
                    StatementView {
                        sql: "INSERT INTO repo (owner, name, default_branch)
         VALUES (?1, ?2, ?3)
         ON CONFLICT(owner, name) DO UPDATE SET
             default_branch = excluded.default_branch"@,
                        params: seq![
                            SqlView::Text(repo.owner),
                            SqlView::Text(repo.name),
                            SqlView::Text(
                                match repo.default_branch {
                                    Some(branch) => branch,
                                    None => "main"@,
                                },
                            ),
                        ],
                    },
                ),
            )
            &&& run.stage == (RunStageView::Upsert { repo: i }) ==> run.next(
                ReplyView::Executed { changed, row_id },
                now,
            ) == RunStep::Do(asked, ActionView::Query(db::repo_id_query(repo.owner, repo.name)))
            &&& run.stage == (RunStageView::RepoId { repo: i }) ==> run.next(
                ReplyView::Rows(seq![seq![SqlView::Integer(id)]]),
                now,
            ) == RunView::events(run.plan, run.found, i, id) && run.next(
                ReplyView::Rows(Seq::empty()),
                now,
            ) == RunView::rollback(run.plan, run.found, i)
            &&& run.stage == (RunStageView::Commit { repo: i }) ==> run.next(ReplyView::Done, now)
                == RunView::repos_from(run.plan, run.found, i + 1)
        }),
{
    let repo = sync::all_repos(run.plan, run.found)[i];
    assert(sync::repo_record(repo).params =~= seq![
        SqlView::Text(repo.owner),
        SqlView::Text(repo.name),
        SqlView::Text(
            match repo.default_branch {
                Some(branch) => branch,
                None => "main"@,
            },
        ),
    ]);
    let rows = seq![seq![SqlView::Integer(id)]];
    assert(rows[0][0] == SqlView::Integer(id));
}

/// The events of a repository are synced where the run takes them up and the repository asks for
/// them; those of an organisation that was looked up were synced with the organisation, and what
/// they marked for this repository is fetched. Then come the pull requests, with what was marked.
pub proof fn events_decide_which_prs_are_fetched(
    plan: PlanView,
    found: FoundView,
    i: int,
    id: i64,
    sync: EventSyncView,
    marked: Seq<i64>,
    reply: ReplyView,
    now: NowView,
)
    requires
        0 <= i < sync::all_repos(plan, found).len(),
    ensures
        ({
            let repo = sync::all_repos(plan, found)[i];
            let job = RepoJobView { repo_id: id, owner: repo.owner, name: repo.name };
            let wanted = plan.filter.takes_events() && repo.sync_events == Some(true);
            &&& !wanted ==> RunView::events(plan, found, i, id) == RunView::prs(
                plan,
                found,
                i,
                id,
                Seq::empty(),
            )
            &&& wanted && found.owners.contains(repo.owner) ==> RunView::events(plan, found, i, id)
                == RunView::prs(
                plan,
                found,
                i,
                id,
                if found.dirty.dom().contains((repo.owner, repo.name)) {
                    found.dirty[(repo.owner, repo.name)]
                } else {
                    Seq::empty()
                },
            )
            &&& wanted && !found.owners.contains(repo.owner) ==> RunView::events(plan, found, i, id)
                == RunStep::Do(
                RunView {
                    plan,
                    found,
                    stage: RunStageView::Events {
                        repo: i,
                        repo_id: id,
                        sync: EventSyncView::start(job).0,
                    },
                },
                EventSyncView::start(job).1,
            )
            &&& sync.next(reply, now) == StepView::<EventSyncView, Seq<i64>>::Finished(marked)
                ==> (RunView {
                plan,
                found,
                stage: RunStageView::Events { repo: i, repo_id: id, sync },
            }).next(reply, now) == RunView::prs(plan, found, i, id, marked)
        }),
{
}

/// The pull requests of a repository are synced where the run takes them up and the repository
/// asks for them, in the scope of the run; then its branches, where the run takes up everything
/// and patterns for them are configured; then what was done is kept. What fails is undone.
pub proof fn prs_and_branches_of_a_repository(
    plan: PlanView,
    found: FoundView,
    i: int,
    id: i64,
    marked: Seq<i64>,
    patterns: Seq<Seq<char>>,
)
    requires
        0 <= i < sync::all_repos(plan, found).len(),
    ensures
        ({
            let repo = sync::all_repos(plan, found)[i];
            let job = RepoJobView { repo_id: id, owner: repo.owner, name: repo.name };
            let scope = plan.scope(sync::is_extra(plan, found, i), marked);
            let wanted = plan.filter.takes_prs() && repo.sync_prs == Some(true);
            &&& !wanted || scope == PrScopeView::Targeted(Seq::empty()) ==> RunView::prs(
                plan,
                found,
                i,
                id,
                marked,
            ) == RunView::branches(plan, found, i, id)
            &&& wanted && scope != PrScopeView::Targeted(Seq::empty()) ==> (PrSyncView::start(
                job,
                scope,
            ) matches StepView::Do(sync, action) && RunView::prs(plan, found, i, id, marked)
                == RunStep::Do(
                RunView { plan, found, stage: RunStageView::Prs { repo: i, repo_id: id, sync } },
                action,
            ))
            &&& repo.sync_branches == Some(patterns) && patterns.len() > 0
                && plan.filter.takes_all() ==> RunView::branches(plan, found, i, id)
                == RunStep::Do(
                RunView {
                    plan,
                    found,
                    stage: RunStageView::Branches {
                        repo: i,
                        sync: BranchSyncView::start(job, patterns).0,
                    },
                },
                BranchSyncView::start(job, patterns).1,
            )
            &&& repo.sync_branches is None || repo.sync_branches == Some(Seq::<Seq<char>>::empty())
                || !plan.filter.takes_all() ==> RunView::branches(plan, found, i, id)
                == RunStep::Do(
                RunView { plan, found, stage: RunStageView::Commit { repo: i } },
                ActionView::Commit,
            )
            &&& RunView::rollback(plan, found, i) == RunStep::Do(
                RunView { plan, found, stage: RunStageView::Rollback { repo: i } },
                ActionView::Rollback,
            )
        }),
{
}

/// What a repository's sync of pull requests or of branches comes to is what becomes of its
/// transaction: where it is at its end the next part follows, where it failed all is undone.
pub proof fn parts_of_a_repository_follow_one_another(
    plan: PlanView,
    found: FoundView,
    i: int,
    id: i64,
    prs: PrSyncView,
    branches: BranchSyncView,
    events: EventSyncView,
    reply: ReplyView,
    now: NowView,
)
    ensures
        ({
            let at = |stage: RunStageView| RunView { plan, found, stage };
            let in_prs = at(RunStageView::Prs { repo: i, repo_id: id, sync: prs });
            let in_branches = at(RunStageView::Branches { repo: i, sync: branches });
            let in_events = at(RunStageView::Events { repo: i, repo_id: id, sync: events });
            &&& prs.next(reply, now) is Finished ==> in_prs.next(reply, now) == RunView::branches(
                plan,
                found,
                i,
                id,
            )
            &&& prs.next(reply, now) is Failed ==> in_prs.next(reply, now) == RunView::rollback(
                plan,
                found,
                i,
            )
            &&& branches.next(reply, now) is Finished ==> in_branches.next(reply, now)
                == RunView::commit(plan, found, i)
            &&& branches.next(reply, now) is Failed ==> in_branches.next(reply, now)
                == RunView::rollback(plan, found, i)
            &&& events.next(reply, now) is Failed ==> in_events.next(reply, now)
                == RunView::rollback(plan, found, i)
            &&& at(RunStageView::Rollback { repo: i }).next(reply, now) == RunView::repos_from(
                plan,
                found,
                i + 1,
            )
        }),
{
}

/// Last come the notifications, where somebody asks for them, those of whoever asks; then the run
/// is at its end.
pub proof fn notifications_come_last(plan: PlanView, found: FoundView)
    ensures
        !plan.needs_notifications() ==> RunView::notifications(plan, found) == RunStep::Finished(()),
        plan.needs_notifications() ==> ({
            let (sync, action) = NotificationSyncView::start(
                notifications::watched_of(plan.repos, plan.orgs, plan.extra_notif_slugs),
            );
            RunView::notifications(plan, found) == RunStep::Do(
                RunView { plan, found, stage: RunStageView::Notifications(sync) },
                action,
            )
        }),
{
}

// ---- the loop ----------------------------------------------------------------------
/// A paused loop looks again after half a second; one that is not paused syncs: everything the
/// first time, and for subscriptions what is not configured anyway.
pub proof fn loop_syncs_unless_it_is_paused(
    job: WatchJob,
    now: u64,
    prs: Seq<(Seq<char>, Seq<char>)>,
    notifs: Seq<(Seq<char>, Seq<char>)>,
    event: WatchEventView,
)
    ensures
        job.run(now, true, prs, notifs) == (
            WatchView { job, stage: WatchStageView::Resting },
            WatchActionView::Rest { millis: 500 },
        ),
        job.run(now, false, prs, notifs).0 == (WatchView {
            job: WatchJob {
                pace: PaceView { first_run: false, started: now, ..job.pace },
                ..job
            },
            stage: WatchStageView::Syncing,
        }),
        job.run(now, false, prs, notifs).1 matches WatchActionView::Sync {
            full_sweep,
            repos,
            notifications,
            resting,
        } && full_sweep == job.pace.first_run && notifications == watch::unconfigured(
            notifs,
            job.repos,
        ) && resting == job.pace.resting(now, job.repos.len(), job.orgs.len()) && repos.len() == (
        if now < job.pace.others {
            0
        } else {
            watch::unconfigured(prs, job.repos).len()
        }),
        (WatchView { job, stage: WatchStageView::Resting }).next(event, now) == (
            WatchView { job, stage: WatchStageView::Ready },
            WatchActionView::Look,
        ),
{
}

/// What is subscribed to is synced with its pull requests and all its branches, and with nothing
/// else.
pub proof fn subscription_brings_prs_and_branches(owner: Seq<char>, name: Seq<char>)
    ensures
        watch::subscribed_repo(owner, name) == (RepoView {
            owner,
            name,
            default_branch: None,
            sync_prs: Some(true),
            sync_notifications: None,
            sync_events: None,
            sync_branches: Some(seq!["*"@]),
            checkout_on_sync: None,
            poll_interval_seconds: None,
            fs_alias: None,
        }),
{
}

/// What was synced is due again after its own interval where it has one, else after the common
/// one, counted from the end of the run; what was not synced stays due when it was.
pub proof fn next_time_is_an_interval_later(
    time: u64,
    started: u64,
    now: u64,
    own: Option<u64>,
    common: u64,
)
    requires
        now + common <= u64::MAX,
        own matches Some(s) ==> now + s <= u64::MAX,
    ensures
        ({
            let interval = match own {
                Some(seconds) => seconds,
                None => common,
            };
            let next = watch::next_time(time, started, now, watch::interval_of(own, common));
            &&& time <= started ==> next == now + interval
            &&& time > started ==> next == time
        }),
{
}

/// Everything that is configured rests until its time has come.
pub proof fn everything_rests_until_its_time(
    pace: PaceView,
    now: u64,
    repos: nat,
    orgs: nat,
    i: int,
)
    ensures
        ({
            let r = pace.resting(now, repos, orgs);
            &&& r.repos.len() == repos && r.orgs.len() == orgs
            &&& 0 <= i < repos && i < pace.repos.len() ==> r.repos[i] == (now < pace.repos[i])
            &&& 0 <= i < orgs && i < pace.orgs.len() ==> r.orgs[i] == (now < pace.orgs[i])
            &&& 0 <= i < repos && i >= pace.repos.len() ==> !r.repos[i]
            &&& 0 <= i < orgs && i >= pace.orgs.len() ==> !r.orgs[i]
            &&& r.others == (now < pace.others)
        }),
{
}

/// The loop sleeps until the first of all times has come.
pub proof fn loop_sleeps_until_the_first_time(pace: PaceView, now: u64, i: int)
    ensures
        now + pace.idle(now) <= pace.others || pace.idle(now) == 0,
        0 <= i < pace.repos.len() ==> now + pace.idle(now) <= pace.repos[i] || pace.idle(now) == 0,
        0 <= i < pace.orgs.len() ==> now + pace.idle(now) <= pace.orgs[i] || pace.idle(now) == 0,
        pace.idle(now) == 0 ==> pace.others <= now || (exists|k: int|
            0 <= k < pace.repos.len() && #[trigger] pace.repos[k] <= now) || (exists|k: int|
            0 <= k < pace.orgs.len() && #[trigger] pace.orgs[k] <= now),
        pace.idle(now) > 0 ==> now + pace.idle(now) == pace.others || pace.repos.contains(
            (now + pace.idle(now)) as u64,
        ) || pace.orgs.contains((now + pace.idle(now)) as u64),
{
    watch::lemma_first_of(pace.orgs, pace.others);
    watch::lemma_first_of(pace.repos, watch::first_of(pace.orgs, pace.others));
    let first = watch::first_of(pace.repos, watch::first_of(pace.orgs, pace.others));
    if first <= now {
        if pace.repos.contains(first) {
            let k = choose|k: int| 0 <= k < pace.repos.len() && pace.repos[k] == first;
            assert(pace.repos[k] <= now);
        } else if pace.orgs.contains(first) {
            let k = choose|k: int| 0 <= k < pace.orgs.len() && pace.orgs[k] == first;
            assert(pace.orgs[k] <= now);
        }
    }
}

/// A run is over when its checkouts are: then every time is set anew, and the loop sleeps.
pub proof fn times_are_set_after_a_run(job: WatchJob, now: u64, i: int)
    ensures
        ({
            let pace = job.pace.after_run(now, job.repos, job.orgs, job.interval);
            let p = job.pace;
            &&& job.sleep(now) == (
                WatchView { job: WatchJob { pace, ..job }, stage: WatchStageView::Sleeping },
                WatchActionView::Sleep { seconds: pace.idle(now) },
            )
            &&& pace.first_run == p.first_run && pace.started == p.started
            &&& pace.repos.len() == job.repos.len() && pace.orgs.len() == job.orgs.len()
            &&& pace.others == watch::next_time(p.others, p.started, now, job.interval)
            &&& 0 <= i < job.repos.len() && i < p.repos.len() ==> pace.repos[i] == watch::next_time(
                p.repos[i],
                p.started,
                now,
                watch::interval_of(job.repos[i].poll_interval_seconds, job.interval),
            )
            &&& 0 <= i < job.orgs.len() && i < p.orgs.len() ==> pace.orgs[i] == watch::next_time(
                p.orgs[i],
                p.started,
                now,
                watch::interval_of(job.orgs[i].poll_interval_seconds, job.interval),
            )
        }),
{
}

/// A loop that is woken goes on at once with what has no interval of its own; what has one waits
/// for its time.
pub proof fn woken_loop_goes_on_at_once(job: WatchJob, now: u64, i: int)
    ensures
        ({
            let (w, action) = (WatchView { job, stage: WatchStageView::Sleeping }).next(
                WatchEventView::Woken,
                now,
            );
            let pace = w.job.pace;
            &&& action == WatchActionView::Look && w.stage == WatchStageView::Ready
            &&& pace.others <= now && pace.others <= job.pace.others
            &&& 0 <= i < job.repos.len() && job.repos[i].poll_interval_seconds is None
                ==> pace.repos[i] <= now
            &&& 0 <= i < job.repos.len() && i < job.pace.repos.len()
                && job.repos[i].poll_interval_seconds is Some ==> pace.repos[i]
                == job.pace.repos[i]
            &&& 0 <= i < job.orgs.len() && job.orgs[i].poll_interval_seconds is None
                ==> pace.orgs[i] <= now
            &&& 0 <= i < job.orgs.len() && i < job.pace.orgs.len()
                && job.orgs[i].poll_interval_seconds is Some ==> pace.orgs[i] == job.pace.orgs[i]
        }),
        (WatchView { job, stage: WatchStageView::Sleeping }).next(WatchEventView::Done, now) == (
            WatchView { job, stage: WatchStageView::Ready },
            WatchActionView::Look,
        ),
{
}

/// After a sync, the branches of repositories that ask for checkouts are checked out: of each that
/// is in the cache, every branch that is configured, under the name that stands for its owner.
pub proof fn checkouts_follow_where_asked_for(
    repo: RepoView,
    org: OrgView,
    branches: Seq<Seq<char>>,
    names: Seq<Seq<char>>,
    name: Seq<char>,
    i: int,
)
    requires
        0 <= i < branches.len(),
    ensures
        repo.checkout_on_sync == Some(true) && repo.sync_branches == Some(branches) ==> ({
            let tasks = watch::tasks_of_repo(repo, true);
            tasks.len() == branches.len() && tasks[i] == (TaskView {
                owner: repo.owner,
                name: repo.name,
                fs_owner: match repo.fs_alias {
                    Some(alias) => alias,
                    None => repo.owner,
                },
                is_dirty: false,
                default_branch: branches[i],
                fetch_pr_branches: false,
            })
        }),
        repo.checkout_on_sync != Some(true) ==> watch::tasks_of_repo(repo, true).len() == 0,
        watch::tasks_of_repo(repo, false).len() == 0,
        org.sync_branches == Some(branches) ==> ({
            let before = watch::tasks_of_names(org, names);
            let tasks = watch::tasks_of_names(org, names.push(name));
            tasks.len() == before.len() + branches.len() && tasks.take(before.len() as int)
                == before && tasks[before.len() + i] == (TaskView {
                owner: org.owner,
                name,
                fs_owner: match org.fs_alias {
                    Some(alias) => alias,
                    None => org.owner,
                },
                is_dirty: false,
                default_branch: branches[i],
                fetch_pr_branches: false,
            })
        }),
        watch::tasks_of_names(org, Seq::empty()).len() == 0,
{
    assert(names.push(name).drop_last() =~= names);
    if org.sync_branches == Some(branches) {
        let before = watch::tasks_of_names(org, names);
        let tasks = watch::tasks_of_names(org, names.push(name));
        assert(tasks.take(before.len() as int) =~= before);
    }
}

/// The repositories of an organisation that asks for checkouts are those that the cache has of its
/// owner; of one that does not ask none are checked out.
pub proof fn organisations_checkouts_are_those_in_the_cache(
    org: OrgView,
    rows: Seq<Seq<SqlView>>,
    names: Seq<Seq<char>>,
    id: i64,
    name: Seq<char>,
)
    requires
        watch::all_owned(rows) == Some(names),
    ensures
        watch::owned_query(org.owner) == (StatementView {
            sql: "SELECT id, name FROM repo WHERE owner = ?"@,
            params: seq![SqlView::Text(org.owner)],
        }),
        watch::all_owned(Seq::empty()) == Some(Seq::<Seq<char>>::empty()),
        watch::all_owned(rows.push(seq![SqlView::Integer(id), SqlView::Text(name)])) == Some(
            names.push(name),
        ),
        org.checkout_on_sync == Some(true) ==> watch::tasks_of_org(org, rows)
            == watch::tasks_of_names(org, names),
        org.checkout_on_sync != Some(true) ==> watch::tasks_of_org(org, rows).len() == 0,
{
    let row = seq![SqlView::Integer(id), SqlView::Text(name)];
    assert(rows.push(row).drop_last() =~= rows);
    assert(rows.push(row).last() == row);
}

/// After a sync the repositories that ask for checkouts are looked up one after the other, then
/// the organisations that do; then all that was found is checked out, where anything was.
pub proof fn checkouts_are_collected_in_order(
    job: WatchJob,
    index: int,
    tasks: Seq<TaskView>,
    rows: Seq<Seq<SqlView>>,
    event: WatchEventView,
    now: u64,
)
    ensures
        (WatchView { job, stage: WatchStageView::Syncing }).next(event, now) == job.repo_from(
            0,
            Seq::empty(),
            now,
        ),
        0 <= index < job.repos.len() && job.repos[index].checkout_on_sync == Some(true)
            ==> job.repo_from(index, tasks, now) == (
            WatchView { job, stage: WatchStageView::Repo { index, tasks } },
            WatchActionView::Query(
                db::repo_id_query(job.repos[index].owner, job.repos[index].name),
            ),
        ),
        0 <= index < job.repos.len() && job.repos[index].checkout_on_sync != Some(true)
            ==> job.repo_from(index, tasks, now) == job.repo_from(index + 1, tasks, now),
        job.repo_from(job.repos.len() as int, tasks, now) == job.org_from(0, tasks, now),
        0 <= index < job.repos.len() ==> (WatchView {
            job,
            stage: WatchStageView::Repo { index, tasks },
        }).next(WatchEventView::Rows(rows), now) == job.repo_from(
            index + 1,
            tasks + watch::tasks_of_repo(job.repos[index], db::id_in(rows) is Some),
            now,
        ),
        0 <= index < job.orgs.len() && job.orgs[index].checkout_on_sync == Some(true)
            ==> job.org_from(index, tasks, now) == (
            WatchView { job, stage: WatchStageView::Org { index, tasks } },
            WatchActionView::Query(watch::owned_query(job.orgs[index].owner)),
        ),
        0 <= index < job.orgs.len() && job.orgs[index].checkout_on_sync != Some(true)
            ==> job.org_from(index, tasks, now) == job.org_from(index + 1, tasks, now),
        0 <= index < job.orgs.len() ==> (WatchView {
            job,
            stage: WatchStageView::Org { index, tasks },
        }).next(WatchEventView::Rows(rows), now) == job.org_from(
            index + 1,
            tasks + watch::tasks_of_org(job.orgs[index], rows),
            now,
        ),
        tasks.len() > 0 ==> job.org_from(job.orgs.len() as int, tasks, now) == (
            WatchView { job, stage: WatchStageView::CheckingOut },
            WatchActionView::CheckOut(tasks),
        ),
        tasks.len() == 0 ==> job.org_from(job.orgs.len() as int, tasks, now) == job.sleep(now),
        (WatchView { job, stage: WatchStageView::CheckingOut }).next(event, now) == job.sleep(now),
{
}

} // verus!
