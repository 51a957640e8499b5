//! Bringing the cache up to date. A run discovers the repositories, syncs the events of
//! the organisations, then syncs each repository in a transaction of its own, and last
//! the notifications.

pub mod branches;
pub mod dirty;
pub mod discovery;
pub mod events;
pub mod notifications;
pub mod prs;
pub mod step;
pub mod tables;
pub mod throttle;
pub mod trace;
pub mod watch;

use vstd::prelude::*;

use crate::config::{on, text_or, OrgView, RepoConfig, RepoView, ResolvedConfig};
use crate::db::{first_id, get_repo_id, upsert_repo};
use crate::sql::{SqlView, Statement, StatementView};
use crate::sync::branches::{BranchSync, BranchSyncView};
use crate::sync::dirty::{no_numbers, PrTable};
use crate::sync::discovery::{org_to_repos, Discovery, DiscoveryView};
use crate::sync::events::{EventSync, EventSyncView, OrgEventSync, OrgEventSyncView};
use crate::sync::notifications::{
    holds_text, watched, NotificationSync, NotificationSyncView, Watched,
};
use crate::sync::prs::{PrScopeView, PrSync, PrSyncView};
use crate::sync::step::{
    Action, ActionView, Now, NowView, Pool, RepoJob, RepoJobView, Reply, ReplyView, Step, StepView,
};
use crate::text::same;
use crate::{config, db};

verus! {

// ---- what is synced ----------------------------------------------------------------
/// What a run is restricted to.
pub struct SyncFilter {
    /// The full name of the only repository that is synced.
    pub repo: Option<String>,
    pub prs_only: bool,
    pub notifs_only: bool,
    pub events_only: bool,
}

/// What a run is restricted to.
pub struct FilterView {
    pub repo: Option<Seq<char>>,
    pub prs_only: bool,
    pub notifs_only: bool,
    pub events_only: bool,
}

impl DeepView for SyncFilter {
    type V = FilterView;

    open spec fn deep_view(&self) -> FilterView {
        FilterView {
            repo: self.repo.deep_view(),
            prs_only: self.prs_only,
            notifs_only: self.notifs_only,
            events_only: self.events_only,
        }
    }
}

impl FilterView {
    /// Whether everything is synced.
    pub open spec fn takes_all(self) -> bool {
        !self.prs_only && !self.notifs_only && !self.events_only
    }

    /// Whether pull requests are synced.
    pub open spec fn takes_prs(self) -> bool {
        self.takes_all() || self.prs_only
    }

    /// Whether notifications are synced.
    pub open spec fn takes_notifs(self) -> bool {
        self.takes_all() || self.notifs_only
    }

    /// Whether events are synced.
    pub open spec fn takes_events(self) -> bool {
        self.takes_all() || self.events_only
    }

    /// Whether a repository is synced.
    pub open spec fn takes_repo(self, repo: RepoView) -> bool {
        match self.repo {
            Some(slug) => slug == config::slug_of(repo.owner, repo.name),
            None => true,
        }
    }
}

impl SyncFilter {
    /// Whether everything is synced.
    pub fn all(&self) -> (r: bool)
        ensures
            r == self.deep_view().takes_all(),
    {
        !self.prs_only && !self.notifs_only && !self.events_only
    }

    /// Whether pull requests are synced.
    pub fn do_prs(&self) -> (r: bool)
        ensures
            r == self.deep_view().takes_prs(),
    {
        self.all() || self.prs_only
    }

    /// Whether notifications are synced.
    pub fn do_notifs(&self) -> (r: bool)
        ensures
            r == self.deep_view().takes_notifs(),
    {
        self.all() || self.notifs_only
    }

    /// Whether events are synced.
    pub fn do_events(&self) -> (r: bool)
        ensures
            r == self.deep_view().takes_events(),
    {
        self.all() || self.events_only
    }

    /// Whether a repository is synced.
    pub fn do_repo(&self, repo: &RepoConfig) -> (r: bool)
        ensures
            r == self.deep_view().takes_repo(repo.deep_view()),
    {
        match &self.repo {
            Some(slug) => {
                let name: String = repo.slug();
                same(slug.as_str(), name.as_str())
            },
            None => true,
        }
    }
}

/// What a run leaves out because its time has not come: the configured repositories and
/// organisations at these places, and whatever is synced beside them.
pub struct Resting {
    pub repos: Vec<bool>,
    pub orgs: Vec<bool>,
    pub others: bool,
}

/// What a run leaves out because its time has not come.
#[verifier::ext_equal]
pub struct RestingView {
    pub repos: Seq<bool>,
    pub orgs: Seq<bool>,
    pub others: bool,
}

impl DeepView for Resting {
    type V = RestingView;

    open spec fn deep_view(&self) -> RestingView {
        RestingView { repos: self.repos@, orgs: self.orgs@, others: self.others }
    }
}

impl RestingView {
    /// Whether the configured repository at a place is left out.
    pub open spec fn has_repo(self, i: int) -> bool {
        0 <= i < self.repos.len() && self.repos[i]
    }

    /// Whether the organisation at a place is left out.
    pub open spec fn has_org(self, i: int) -> bool {
        0 <= i < self.orgs.len() && self.orgs[i]
    }
}

impl Resting {
    /// That nothing is left out.
    pub fn nothing() -> (r: Resting)
        ensures
            r.deep_view() == (RestingView { repos: Seq::empty(), orgs: Seq::empty(), others: false }),
    {
        Resting { repos: Vec::new(), orgs: Vec::new(), others: false }
    }
}

/// What a run has to do.
pub struct Plan<'a> {
    pub cfg: &'a ResolvedConfig,
    pub filter: SyncFilter,
    /// Whether all open pull requests are fetched, and not only those that events speak
    /// of.
    pub full_sweep: bool,
    /// Repositories beside those of the configuration.
    pub extra_repos: &'a Vec<RepoConfig>,
    /// The owners and names of repositories whose notifications are wanted beside those
    /// of the configuration.
    pub extra_notif_slugs: &'a Vec<(String, String)>,
    /// What is left out.
    pub resting: Resting,
}

/// What a run has to do.
pub struct PlanView {
    pub orgs: Seq<OrgView>,
    pub repos: Seq<RepoView>,
    pub sync_notifications: bool,
    pub filter: FilterView,
    pub full_sweep: bool,
    pub extra_repos: Seq<RepoView>,
    pub extra_notif_slugs: Seq<(Seq<char>, Seq<char>)>,
    pub resting: RestingView,
}

impl<'a> DeepView for Plan<'a> {
    type V = PlanView;

    open spec fn deep_view(&self) -> PlanView {
        PlanView {
            orgs: self.cfg.orgs.deep_view(),
            repos: self.cfg.repos.deep_view(),
            sync_notifications: self.cfg.sync_notifications,
            filter: self.filter.deep_view(),
            full_sweep: self.full_sweep,
            extra_repos: self.extra_repos.deep_view(),
            extra_notif_slugs: self.extra_notif_slugs.deep_view(),
            resting: self.resting.deep_view(),
        }
    }
}

impl PlanView {
    /// Whether a repository is synced, at that place among all of them.
    pub open spec fn takes(self, repo: RepoView, i: int) -> bool {
        self.filter.takes_repo(repo) && !(i < self.repos.len() && self.resting.has_repo(i))
    }

    /// Whether the notifications are synced: where they are not excluded, their time has come,
    /// and something asks for them.
    pub open spec fn needs_notifications(self) -> bool {
        &&& self.filter.takes_notifs()
        &&& !self.resting.others
        &&& {
            ||| self.sync_notifications
            ||| exists|i: int|
                0 <= i < self.repos.len() && config::is_on(
                    (#[trigger] self.repos[i]).sync_notifications,
                )
            ||| exists|i: int|
                0 <= i < self.orgs.len() && config::is_on(
                    (#[trigger] self.orgs[i]).sync_notifications,
                )
            ||| self.extra_notif_slugs.len() > 0
        }
    }

    /// What a sync of pull requests fetches, where events speak of those in `dirty`. Of a
    /// repository beside those of the configuration all open ones are fetched.
    pub open spec fn scope(self, extra: bool, dirty: Seq<i64>) -> PrScopeView {
        if self.full_sweep || self.filter.prs_only || extra {
            PrScopeView::Full
        } else {
            PrScopeView::Targeted(dirty)
        }
    }
}

impl<'a> Plan<'a> {
    fn rests_org(&self, i: usize) -> (r: bool)
        ensures
            r == self.deep_view().resting.has_org(i as int),
    {
        i < self.resting.orgs.len() && self.resting.orgs[i]
    }

    fn wants(&self, repo: &RepoConfig, i: u128) -> (r: bool)
        ensures
            r == self.deep_view().takes(repo.deep_view(), i as int),
    {
        if !self.filter.do_repo(repo) {
            return false;
        }
        let n: u128 = self.cfg.repos.len() as u128;
        let m: u128 = self.resting.repos.len() as u128;
        assert(self.deep_view().repos.len() == n);
        assert(self.deep_view().resting.repos.len() == m);
        !(i < n && i < m && self.resting.repos[i as usize])
    }

    fn wants_notifications(&self) -> (r: bool)
        ensures
            r == self.deep_view().needs_notifications(),
    {
        if !self.filter.do_notifs() || self.resting.others {
            return false;
        }
        let ghost repos = self.deep_view().repos;
        let mut i: usize = 0;
        while i < self.cfg.repos.len()
            invariant
                i <= self.cfg.repos.len(),
                repos == self.cfg.repos.deep_view(),
                repos == self.deep_view().repos,
                self.deep_view().filter.takes_notifs(),
                !self.deep_view().resting.others,
                forall|k: int|
                    0 <= k < i ==> !config::is_on((#[trigger] repos[k]).sync_notifications),
            decreases self.cfg.repos.len() - i,
        {
            if on(self.cfg.repos[i].sync_notifications) {
                assert(config::is_on(repos[i as int].sync_notifications));
                return true;
            }
            i += 1;
        }
        let ghost orgs = self.deep_view().orgs;
        let mut m: usize = 0;
        while m < self.cfg.orgs.len()
            invariant
                m <= self.cfg.orgs.len(),
                orgs == self.cfg.orgs.deep_view(),
                orgs == self.deep_view().orgs,
                self.deep_view().filter.takes_notifs(),
                !self.deep_view().resting.others,
                forall|k: int|
                    0 <= k < m ==> !config::is_on((#[trigger] orgs[k]).sync_notifications),
            decreases self.cfg.orgs.len() - m,
        {
            if on(self.cfg.orgs[m].sync_notifications) {
                assert(config::is_on(orgs[m as int].sync_notifications));
                return true;
            }
            m += 1;
        }
        self.cfg.sync_notifications || self.extra_notif_slugs.len() > 0
    }
}

// ---- what is found -----------------------------------------------------------------
/// What a run has found out about the organisations.
struct Found {
    /// Their repositories.
    repos: Vec<RepoConfig>,
    /// Those whose repositories could be found out.
    owners: Vec<String>,
    /// The pull requests that their events speak of.
    dirty: PrTable,
}

/// What a run has found out about the organisations.
pub struct FoundView {
    pub repos: Seq<RepoView>,
    pub owners: Seq<Seq<char>>,
    pub dirty: Map<(Seq<char>, Seq<char>), Seq<i64>>,
}

impl DeepView for Found {
    type V = FoundView;

    closed spec fn deep_view(&self) -> FoundView {
        FoundView {
            repos: self.repos.deep_view(),
            owners: self.owners.deep_view(),
            dirty: self.dirty.deep_view(),
        }
    }
}

/// All repositories of a run: those of the configuration, those of the organisations, and
/// those beside them.
pub open spec fn all_repos(plan: PlanView, found: FoundView) -> Seq<RepoView> {
    plan.repos + found.repos + plan.extra_repos
}

/// Whether the repository at a place is one beside those of the configuration.
pub open spec fn is_extra(plan: PlanView, found: FoundView, i: int) -> bool {
    i >= plan.repos.len() + found.repos.len()
}

fn repo_at<'b>(plan: &'b Plan, found: &'b Found, i: u128) -> (r: Option<&'b RepoConfig>)
    ensures
        match r {
            Some(repo) => i < all_repos(plan.deep_view(), found.deep_view()).len()
                && repo.deep_view() == all_repos(plan.deep_view(), found.deep_view())[i as int],
            None => i >= all_repos(plan.deep_view(), found.deep_view()).len(),
        },
{
    let a: u128 = plan.cfg.repos.len() as u128;
    let b: u128 = found.repos.len() as u128;
    let c: u128 = plan.extra_repos.len() as u128;
    if i < a {
        Some(&plan.cfg.repos[i as usize])
    } else if i - a < b {
        Some(&found.repos[(i - a) as usize])
    } else if i - a - b < c {
        Some(&plan.extra_repos[(i - a - b) as usize])
    } else {
        None
    }
}

fn next_repo(plan: &Plan, found: &Found, i: u128) -> (r: u128)
    requires
        i < all_repos(plan.deep_view(), found.deep_view()).len(),
    ensures
        r == i + 1,
{
    let n: u128 = plan.cfg.repos.len() as u128 + found.repos.len() as u128
        + plan.extra_repos.len() as u128;
    assert(all_repos(plan.deep_view(), found.deep_view()).len() == n);
    i + 1
}

fn next_org(plan: &Plan, i: usize) -> (r: usize)
    requires
        i < plan.deep_view().orgs.len(),
    ensures
        r == i + 1,
{
    let n: usize = plan.cfg.orgs.len();
    assert(plan.deep_view().orgs.len() == n);
    i + 1
}

// ---- the run -----------------------------------------------------------------------
/// A run.
pub struct Run<'a> {
    plan: Plan<'a>,
    found: Found,
    stage: RunStage,
}

/// What a run waits for. The repositories are counted in the order of all of them.
#[allow(inconsistent_fields)]
enum RunStage {
    /// The discovery of the repositories of an organisation.
    Discover { org: usize, sync: Discovery },
    /// The events of an organisation.
    OrgEvents { org: usize, sync: OrgEventSync },
    /// That there are points left for a repository.
    Throttle { repo: u128 },
    /// That the transaction for a repository is open.
    Begin { repo: u128 },
    /// That the repository is recorded.
    Upsert { repo: u128 },
    /// The id of the repository.
    RepoId { repo: u128 },
    /// The events of the repository.
    Events { repo: u128, repo_id: i64, sync: EventSync },
    /// The pull requests of the repository.
    Prs { repo: u128, repo_id: i64, sync: PrSync },
    /// The branches of the repository.
    Branches { repo: u128, sync: BranchSync },
    /// That the transaction is kept.
    Commit { repo: u128 },
    /// That the transaction is undone.
    Rollback { repo: u128 },
    /// The notifications.
    Notifications(NotificationSync),
}

/// What a run is.
pub struct RunView {
    pub plan: PlanView,
    pub found: FoundView,
    pub stage: RunStageView,
}

/// What a run waits for.
#[allow(inconsistent_fields)]
pub enum RunStageView {
    Discover { org: int, sync: DiscoveryView },
    OrgEvents { org: int, sync: OrgEventSyncView },
    Throttle { repo: int },
    Begin { repo: int },
    Upsert { repo: int },
    RepoId { repo: int },
    Events { repo: int, repo_id: i64, sync: EventSyncView },
    Prs { repo: int, repo_id: i64, sync: PrSyncView },
    Branches { repo: int, sync: BranchSyncView },
    Commit { repo: int },
    Rollback { repo: int },
    Notifications(NotificationSyncView),
}

/// How a run goes on.
pub type RunStep = StepView<RunView, ()>;

impl DeepView for RunStage {
    type V = RunStageView;

    closed spec fn deep_view(&self) -> RunStageView {
        match *self {
            RunStage::Discover { org, sync } => RunStageView::Discover {
                org: org as int,
                sync: sync.deep_view(),
            },
            RunStage::OrgEvents { org, sync } => RunStageView::OrgEvents {
                org: org as int,
                sync: sync.deep_view(),
            },
            RunStage::Throttle { repo } => RunStageView::Throttle { repo: repo as int },
            RunStage::Begin { repo } => RunStageView::Begin { repo: repo as int },
            RunStage::Upsert { repo } => RunStageView::Upsert { repo: repo as int },
            RunStage::RepoId { repo } => RunStageView::RepoId { repo: repo as int },
            RunStage::Events { repo, repo_id, sync } => RunStageView::Events {
                repo: repo as int,
                repo_id,
                sync: sync.deep_view(),
            },
            RunStage::Prs { repo, repo_id, sync } => RunStageView::Prs {
                repo: repo as int,
                repo_id,
                sync: sync.deep_view(),
            },
            RunStage::Branches { repo, sync } => RunStageView::Branches {
                repo: repo as int,
                sync: sync.deep_view(),
            },
            RunStage::Commit { repo } => RunStageView::Commit { repo: repo as int },
            RunStage::Rollback { repo } => RunStageView::Rollback { repo: repo as int },
            RunStage::Notifications(sync) => RunStageView::Notifications(sync.deep_view()),
        }
    }
}

impl<'a> DeepView for Run<'a> {
    type V = RunView;

    closed spec fn deep_view(&self) -> RunView {
        RunView {
            plan: self.plan.deep_view(),
            found: self.found.deep_view(),
            stage: self.stage.deep_view(),
        }
    }
}

/// The default branch of a repository: `main` where none is configured.
pub open spec fn default_branch(repo: RepoView) -> Seq<char> {
    config::alias_or(repo.default_branch, "main"@)
}

/// Whether branches of a repository are synced by its configuration.
pub open spec fn has_branches(repo: RepoView) -> bool {
    match repo.sync_branches {
        Some(patterns) => patterns.len() > 0,
        None => false,
    }
}

/// The statement that records a repository.
pub open spec fn repo_record(repo: RepoView) -> StatementView {
    StatementView {
        sql: db::UPSERT_REPO@,
        params: seq![
            SqlView::Text(repo.owner),
            SqlView::Text(repo.name),
            SqlView::Text(default_branch(repo)),
        ],
    }
}

/// What a sync of a repository works on.
pub open spec fn job_for(repo: RepoView, repo_id: i64) -> RepoJobView {
    RepoJobView { repo_id, owner: repo.owner, name: repo.name }
}

impl RunView {
    /// The run at a stage, with an action.
    pub open spec fn at(
        plan: PlanView,
        found: FoundView,
        stage: RunStageView,
        action: ActionView,
    ) -> RunStep {
        StepView::Do(RunView { plan, found, stage }, action)
    }

    /// The first step of a run.
    pub open spec fn start(plan: PlanView) -> RunStep {
        Self::discover_from(
            plan,
            FoundView { repos: Seq::empty(), owners: Seq::empty(), dirty: Map::empty() },
            0,
        )
    }

    /// The step to the discovery of the next organisation whose time has come, or on to the
    /// events.
    pub open spec fn discover_from(plan: PlanView, found: FoundView, org: int) -> RunStep
        decreases plan.orgs.len() - org,
    {
        if org < 0 || org >= plan.orgs.len() {
            Self::org_events_from(plan, found, 0)
        } else if plan.resting.has_org(org) {
            Self::discover_from(plan, found, org + 1)
        } else {
            let (sync, action) = DiscoveryView::start(plan.orgs[org].owner);
            Self::at(plan, found, RunStageView::Discover { org, sync }, action)
        }
    }

    /// The step to the events of the next organisation whose events are synced, or on to
    /// the repositories.
    pub open spec fn org_events_from(plan: PlanView, found: FoundView, org: int) -> RunStep
        decreases plan.orgs.len() - org,
    {
        if !plan.filter.takes_events() || org < 0 || org >= plan.orgs.len() {
            Self::repos_from(plan, found, 0)
        } else if config::is_on(plan.orgs[org].sync_events) && !plan.resting.has_org(org) {
            let (sync, action) = OrgEventSyncView::start(plan.orgs[org].owner);
            Self::at(plan, found, RunStageView::OrgEvents { org, sync }, action)
        } else {
            Self::org_events_from(plan, found, org + 1)
        }
    }

    /// The step to the next repository that is synced, or on to the notifications.
    pub open spec fn repos_from(plan: PlanView, found: FoundView, repo: int) -> RunStep
        decreases all_repos(plan, found).len() - repo,
    {
        if repo < 0 || repo >= all_repos(plan, found).len() {
            Self::notifications(plan, found)
        } else if plan.takes(all_repos(plan, found)[repo], repo) {
            Self::at(
                plan,
                found,
                RunStageView::Throttle { repo },
                ActionView::Throttle(Pool::Rest),
            )
        } else {
            Self::repos_from(plan, found, repo + 1)
        }
    }

    /// The step to the notifications, or to the end.
    pub open spec fn notifications(plan: PlanView, found: FoundView) -> RunStep {
        if plan.needs_notifications() {
            let (sync, action) = NotificationSyncView::start(
                notifications::watched_of(plan.repos, plan.orgs, plan.extra_notif_slugs),
            );
            Self::at(plan, found, RunStageView::Notifications(sync), action)
        } else {
            StepView::Finished(())
        }
    }

    /// The step to the events of a repository whose id is known. The events of a
    /// repository whose organisation was discovered came with those of the organisation.
    pub open spec fn events(plan: PlanView, found: FoundView, repo: int, repo_id: i64) -> RunStep {
        let r = all_repos(plan, found)[repo];
        if !plan.filter.takes_events() || !config::is_on(r.sync_events) {
            Self::prs(plan, found, repo, repo_id, Seq::empty())
        } else if found.owners.contains(r.owner) {
            Self::prs(
                plan,
                found,
                repo,
                repo_id,
                dirty::numbers_for(found.dirty, r.owner, r.name),
            )
        } else {
            let (sync, action) = EventSyncView::start(job_for(r, repo_id));
            Self::at(plan, found, RunStageView::Events { repo, repo_id, sync }, action)
        }
    }

    /// The step to the pull requests of a repository.
    pub open spec fn prs(
        plan: PlanView,
        found: FoundView,
        repo: int,
        repo_id: i64,
        dirty: Seq<i64>,
    ) -> RunStep {
        let r = all_repos(plan, found)[repo];
        if plan.filter.takes_prs() && config::is_on(r.sync_prs) {
            let extra = is_extra(plan, found, repo);
            match PrSyncView::start(job_for(r, repo_id), plan.scope(extra, dirty)) {
                StepView::Do(sync, action) => Self::at(
                    plan,
                    found,
                    RunStageView::Prs { repo, repo_id, sync },
                    action,
                ),
                StepView::Finished(_) => Self::branches(plan, found, repo, repo_id),
                StepView::Failed => Self::rollback(plan, found, repo),
            }
        } else {
            Self::branches(plan, found, repo, repo_id)
        }
    }

    /// The step to the branches of a repository.
    pub open spec fn branches(
        plan: PlanView,
        found: FoundView,
        repo: int,
        repo_id: i64,
    ) -> RunStep {
        let r = all_repos(plan, found)[repo];
        if has_branches(r) && plan.filter.takes_all() {
            let (sync, action) = BranchSyncView::start(
                job_for(r, repo_id),
                r.sync_branches->Some_0,
            );
            Self::at(plan, found, RunStageView::Branches { repo, sync }, action)
        } else {
            Self::commit(plan, found, repo)
        }
    }

    /// The step that keeps what was done for a repository.
    pub open spec fn commit(plan: PlanView, found: FoundView, repo: int) -> RunStep {
        Self::at(plan, found, RunStageView::Commit { repo }, ActionView::Commit)
    }

    /// The step that undoes what was done for a repository.
    pub open spec fn rollback(plan: PlanView, found: FoundView, repo: int) -> RunStep {
        Self::at(plan, found, RunStageView::Rollback { repo }, ActionView::Rollback)
    }

    /// The step that a run takes when it is told what came of its last action. An
    /// organisation that fails is passed over. A repository that fails is undone and
    /// passed over. A run fails where it cannot wait for points, open a transaction or
    /// keep one, and where the notifications fail.
    pub open spec fn next(self, reply: ReplyView, now: NowView) -> RunStep {
        let plan = self.plan;
        let found = self.found;
        match self.stage {
            RunStageView::Discover { org, sync } => match sync.next(reply, now) {
                StepView::Do(sync, action) => Self::at(
                    plan,
                    found,
                    RunStageView::Discover { org, sync },
                    action,
                ),
                StepView::Finished(names) => Self::discover_from(
                    plan,
                    FoundView {
                        repos: found.repos + discovery::repos_in(plan.orgs[org], names),
                        owners: found.owners.push(plan.orgs[org].owner),
                        ..found
                    },
                    org + 1,
                ),
                StepView::Failed => Self::discover_from(plan, found, org + 1),
            },
            RunStageView::OrgEvents { org, sync } => match sync.next(reply, now) {
                StepView::Do(sync, action) => Self::at(
                    plan,
                    found,
                    RunStageView::OrgEvents { org, sync },
                    action,
                ),
                StepView::Finished(table) => Self::org_events_from(
                    plan,
                    FoundView { dirty: found.dirty.union_prefer_right(table), ..found },
                    org + 1,
                ),
                StepView::Failed => Self::org_events_from(plan, found, org + 1),
            },
            RunStageView::Throttle { repo } => match reply {
                ReplyView::Done => Self::at(
                    plan,
                    found,
                    RunStageView::Begin { repo },
                    ActionView::Begin,
                ),
                _ => StepView::Failed,
            },
            RunStageView::Begin { repo } => match reply {
                ReplyView::Done => Self::at(
                    plan,
                    found,
                    RunStageView::Upsert { repo },
                    ActionView::Execute(repo_record(all_repos(plan, found)[repo])),
                ),
                _ => StepView::Failed,
            },
            RunStageView::Upsert { repo } => match reply {
                ReplyView::Executed { changed, row_id } => {
                    let r = all_repos(plan, found)[repo];
                    Self::at(
                        plan,
                        found,
                        RunStageView::RepoId { repo },
                        ActionView::Query(db::repo_id_query(r.owner, r.name)),
                    )
                },
                _ => Self::rollback(plan, found, repo),
            },
            RunStageView::RepoId { repo } => match reply {
                ReplyView::Rows(rows) => match db::id_in(rows) {
                    Some(repo_id) => Self::events(plan, found, repo, repo_id),
                    None => Self::rollback(plan, found, repo),
                },
                _ => Self::rollback(plan, found, repo),
            },
            RunStageView::Events { repo, repo_id, sync } => match sync.next(reply, now) {
                StepView::Do(sync, action) => Self::at(
                    plan,
                    found,
                    RunStageView::Events { repo, repo_id, sync },
                    action,
                ),
                StepView::Finished(dirty) => Self::prs(plan, found, repo, repo_id, dirty),
                StepView::Failed => Self::rollback(plan, found, repo),
            },
            RunStageView::Prs { repo, repo_id, sync } => match sync.next(reply, now) {
                StepView::Do(sync, action) => Self::at(
                    plan,
                    found,
                    RunStageView::Prs { repo, repo_id, sync },
                    action,
                ),
                StepView::Finished(_) => Self::branches(plan, found, repo, repo_id),
                StepView::Failed => Self::rollback(plan, found, repo),
            },
            RunStageView::Branches { repo, sync } => match sync.next(reply, now) {
                StepView::Do(sync, action) => Self::at(
                    plan,
                    found,
                    RunStageView::Branches { repo, sync },
                    action,
                ),
                StepView::Finished(_) => Self::commit(plan, found, repo),
                StepView::Failed => Self::rollback(plan, found, repo),
            },
            RunStageView::Commit { repo } => match reply {
                ReplyView::Done => Self::repos_from(plan, found, repo + 1),
                _ => StepView::Failed,
            },
            RunStageView::Rollback { repo } => Self::repos_from(plan, found, repo + 1),
            RunStageView::Notifications(sync) => match sync.next(reply, now) {
                StepView::Do(sync, action) => Self::at(
                    plan,
                    found,
                    RunStageView::Notifications(sync),
                    action,
                ),
                StepView::Finished(_) => StepView::Finished(()),
                StepView::Failed => StepView::Failed,
            },
        }
    }

    /// Whether the stage counts an organisation or a repository that there is.
    pub open spec fn well_formed(self) -> bool {
        let repos = all_repos(self.plan, self.found).len();
        match self.stage {
            RunStageView::Discover { org, sync } => 0 <= org < self.plan.orgs.len(),
            RunStageView::OrgEvents { org, sync } => 0 <= org < self.plan.orgs.len(),
            RunStageView::Throttle { repo } => 0 <= repo < repos,
            RunStageView::Begin { repo } => 0 <= repo < repos,
            RunStageView::Upsert { repo } => 0 <= repo < repos,
            RunStageView::RepoId { repo } => 0 <= repo < repos,
            RunStageView::Events { repo, repo_id, sync } => 0 <= repo < repos,
            RunStageView::Prs { repo, repo_id, sync } => 0 <= repo < repos,
            RunStageView::Branches { repo, sync } => 0 <= repo < repos,
            RunStageView::Commit { repo } => 0 <= repo < repos,
            RunStageView::Rollback { repo } => 0 <= repo < repos,
            RunStageView::Notifications(sync) => true,
        }
    }
}

/// Whether a step leads to a run that is well formed, if it leads to one.
pub open spec fn leads_on(step: RunStep) -> bool {
    match step {
        StepView::Do(run, action) => run.well_formed(),
        _ => true,
    }
}

fn upsert_statement(repo: &RepoConfig) -> (r: Statement)
    ensures
        r.deep_view() == repo_record(repo.deep_view()),
{
    let (write, _): (Statement, Statement) = upsert_repo(
        repo.owner.as_str(),
        repo.name.as_str(),
        text_or(&repo.default_branch, "main"),
    );
    write
}

fn job(repo: &RepoConfig, repo_id: i64) -> (r: RepoJob)
    ensures
        r.deep_view() == job_for(repo.deep_view(), repo_id),
{
    RepoJob { repo_id, owner: repo.owner.clone(), name: repo.name.clone() }
}

/// The first step of a run that leaves nothing out.
pub fn run<'a>(
    cfg: &'a ResolvedConfig,
    filter: SyncFilter,
    full_sweep: bool,
    extra_repos: &'a Vec<RepoConfig>,
    extra_notif_slugs: &'a Vec<(String, String)>,
) -> (r: Step<Run<'a>, ()>)
    ensures
        r.deep_view() == RunView::start(
            (PlanView {
                orgs: cfg.orgs.deep_view(),
                repos: cfg.repos.deep_view(),
                sync_notifications: cfg.sync_notifications,
                filter: filter.deep_view(),
                full_sweep,
                extra_repos: extra_repos.deep_view(),
                extra_notif_slugs: extra_notif_slugs.deep_view(),
                resting: RestingView { repos: Seq::empty(), orgs: Seq::empty(), others: false },
            }),
        ),
        leads_on(r.deep_view()),
{
    run_due(cfg, filter, full_sweep, extra_repos, extra_notif_slugs, Resting::nothing())
}

/// The first step of a run that leaves out whose time has not come.
pub fn run_due<'a>(
    cfg: &'a ResolvedConfig,
    filter: SyncFilter,
    full_sweep: bool,
    extra_repos: &'a Vec<RepoConfig>,
    extra_notif_slugs: &'a Vec<(String, String)>,
    resting: Resting,
) -> (r: Step<Run<'a>, ()>)
    ensures
        r.deep_view() == RunView::start(
            (PlanView {
                orgs: cfg.orgs.deep_view(),
                repos: cfg.repos.deep_view(),
                sync_notifications: cfg.sync_notifications,
                filter: filter.deep_view(),
                full_sweep,
                extra_repos: extra_repos.deep_view(),
                extra_notif_slugs: extra_notif_slugs.deep_view(),
                resting: resting.deep_view(),
            }),
        ),
        leads_on(r.deep_view()),
{
    let plan: Plan<'a> = Plan { cfg, filter, full_sweep, extra_repos, extra_notif_slugs, resting };
    let found: Found = Found { repos: Vec::new(), owners: Vec::new(), dirty: PrTable::new() };
    assert(found.repos.deep_view() =~= Seq::<RepoView>::empty());
    assert(found.owners.deep_view() =~= Seq::<Seq<char>>::empty());
    Run::discover_from(plan, found, 0)
}

impl<'a> Run<'a> {
    fn discover_from(plan: Plan<'a>, found: Found, from: usize) -> (r: Step<Run<'a>, ()>)
        ensures
            r.deep_view() == RunView::discover_from(
                plan.deep_view(),
                found.deep_view(),
                from as int,
            ),
            leads_on(r.deep_view()),
    {
        let ghost p = plan.deep_view();
        let ghost f = found.deep_view();
        let mut org: usize = from;
        while org < plan.cfg.orgs.len()
            invariant
                p == plan.deep_view(),
                f == found.deep_view(),
                RunView::discover_from(p, f, from as int) == RunView::discover_from(
                    p,
                    f,
                    org as int,
                ),
            decreases plan.cfg.orgs.len() - org,
        {
            assert(p.orgs[org as int] == plan.cfg.orgs@[org as int].deep_view());
            if !plan.rests_org(org) {
                let (sync, action): (Discovery, Action) = Discovery::start(
                    plan.cfg.orgs[org].owner.clone(),
                );
                return Step::Do(
                    Run { plan, found, stage: RunStage::Discover { org, sync } },
                    action,
                );
            }
            org += 1;
        }
        Run::org_events_from(plan, found, 0)
    }

    fn org_events_from(plan: Plan<'a>, found: Found, from: usize) -> (r: Step<Run<'a>, ()>)
        ensures
            r.deep_view() == RunView::org_events_from(
                plan.deep_view(),
                found.deep_view(),
                from as int,
            ),
            leads_on(r.deep_view()),
    {
        if !plan.filter.do_events() {
            return Run::repos_from(plan, found, 0);
        }
        let ghost p = plan.deep_view();
        let ghost f = found.deep_view();
        let mut org: usize = from;
        while org < plan.cfg.orgs.len()
            invariant
                p == plan.deep_view(),
                f == found.deep_view(),
                p.filter.takes_events(),
                RunView::org_events_from(p, f, from as int) == RunView::org_events_from(
                    p,
                    f,
                    org as int,
                ),
            decreases plan.cfg.orgs.len() - org,
        {
            assert(p.orgs[org as int] == plan.cfg.orgs@[org as int].deep_view());
            if on(plan.cfg.orgs[org].sync_events) && !plan.rests_org(org) {
                let (sync, action): (OrgEventSync, Action) = events::sync_org(
                    plan.cfg.orgs[org].owner.clone(),
                );
                return Step::Do(
                    Run { plan, found, stage: RunStage::OrgEvents { org, sync } },
                    action,
                );
            }
            org += 1;
        }
        Run::repos_from(plan, found, 0)
    }

    fn repos_from(plan: Plan<'a>, found: Found, from: u128) -> (r: Step<Run<'a>, ()>)
        ensures
            r.deep_view() == RunView::repos_from(plan.deep_view(), found.deep_view(), from as int),
            leads_on(r.deep_view()),
    {
        let ghost p = plan.deep_view();
        let ghost f = found.deep_view();
        let mut i: u128 = from;
        loop
            invariant
                p == plan.deep_view(),
                f == found.deep_view(),
                RunView::repos_from(p, f, from as int) == RunView::repos_from(p, f, i as int),
            decreases all_repos(p, f).len() + 1 - i,
        {
            let wanted: bool = match repo_at(&plan, &found, i) {
                Some(repo) => plan.wants(repo, i),
                None => {
                    return Run::notifications(plan, found);
                },
            };
            if wanted {
                return Step::Do(
                    Run { plan, found, stage: RunStage::Throttle { repo: i } },
                    Action::Throttle(Pool::Rest),
                );
            }
            i = next_repo(&plan, &found, i);
        }
    }

    fn notifications(plan: Plan<'a>, found: Found) -> (r: Step<Run<'a>, ()>)
        ensures
            r.deep_view() == RunView::notifications(plan.deep_view(), found.deep_view()),
            leads_on(r.deep_view()),
    {
        if !plan.wants_notifications() {
            return Step::Finished(());
        }
        let whose: Watched = watched(&plan.cfg.repos, &plan.cfg.orgs, plan.extra_notif_slugs);
        let (sync, action): (NotificationSync, Action) = notifications::sync(whose);
        Step::Do(Run { plan, found, stage: RunStage::Notifications(sync) }, action)
    }
}

impl<'a> Run<'a> {
    fn rollback(plan: Plan<'a>, found: Found, repo: u128) -> (r: Step<Run<'a>, ()>)
        requires
            repo < all_repos(plan.deep_view(), found.deep_view()).len(),
        ensures
            r.deep_view() == RunView::rollback(plan.deep_view(), found.deep_view(), repo as int),
            leads_on(r.deep_view()),
    {
        Step::Do(Run { plan, found, stage: RunStage::Rollback { repo } }, Action::Rollback)
    }

    fn commit(plan: Plan<'a>, found: Found, repo: u128) -> (r: Step<Run<'a>, ()>)
        requires
            repo < all_repos(plan.deep_view(), found.deep_view()).len(),
        ensures
            r.deep_view() == RunView::commit(plan.deep_view(), found.deep_view(), repo as int),
            leads_on(r.deep_view()),
    {
        Step::Do(Run { plan, found, stage: RunStage::Commit { repo } }, Action::Commit)
    }

    fn branches(plan: Plan<'a>, found: Found, repo: u128, repo_id: i64) -> (r: Step<Run<'a>, ()>)
        requires
            repo < all_repos(plan.deep_view(), found.deep_view()).len(),
        ensures
            r.deep_view() == RunView::branches(
                plan.deep_view(),
                found.deep_view(),
                repo as int,
                repo_id,
            ),
            leads_on(r.deep_view()),
    {
        let started: Option<(BranchSync, Action)> = match repo_at(&plan, &found, repo) {
            Some(config) => match &config.sync_branches {
                Some(patterns) => if patterns.len() > 0 && plan.filter.all() {
                    Some(branches::sync(job(config, repo_id), patterns.clone()))
                } else {
                    None
                },
                None => None,
            },
            None => None,
        };
        match started {
            Some((sync, action)) => Step::Do(
                Run { plan, found, stage: RunStage::Branches { repo, sync } },
                action,
            ),
            None => Run::commit(plan, found, repo),
        }
    }

    fn prs(plan: Plan<'a>, found: Found, repo: u128, repo_id: i64, dirty: Vec<i64>) -> (r: Step<
        Run<'a>,
        (),
    >)
        requires
            repo < all_repos(plan.deep_view(), found.deep_view()).len(),
        ensures
            r.deep_view() == RunView::prs(
                plan.deep_view(),
                found.deep_view(),
                repo as int,
                repo_id,
                dirty.deep_view(),
            ),
            leads_on(r.deep_view()),
    {
        let started: Step<PrSync, ()> = match repo_at(&plan, &found, repo) {
            Some(config) => if plan.filter.do_prs() && on(config.sync_prs) {
                let n: u128 = plan.cfg.repos.len() as u128 + found.repos.len() as u128;
                assert(plan.deep_view().repos.len() + found.deep_view().repos.len() == n);
                if plan.full_sweep || plan.filter.prs_only || repo >= n {
                    prs::sync(job(config, repo_id))
                } else {
                    prs::sync_targeted(job(config, repo_id), dirty)
                }
            } else {
                Step::Finished(())
            },
            None => Step::Finished(()),
        };
        match started {
            Step::Do(sync, action) => Step::Do(
                Run { plan, found, stage: RunStage::Prs { repo, repo_id, sync } },
                action,
            ),
            Step::Finished(()) => Run::branches(plan, found, repo, repo_id),
            Step::Failed => Run::rollback(plan, found, repo),
        }
    }

    fn events(plan: Plan<'a>, found: Found, repo: u128, repo_id: i64) -> (r: Step<Run<'a>, ()>)
        requires
            repo < all_repos(plan.deep_view(), found.deep_view()).len(),
        ensures
            r.deep_view() == RunView::events(
                plan.deep_view(),
                found.deep_view(),
                repo as int,
                repo_id,
            ),
            leads_on(r.deep_view()),
    {
        let mut dirty: Vec<i64> = no_numbers();
        let mut started: Option<(EventSync, Action)> = None;
        if let Some(config) = repo_at(&plan, &found, repo) {
            if plan.filter.do_events() && on(config.sync_events) {
                if holds_text(&found.owners, config.owner.as_str()) {
                    dirty = found.dirty.numbers(config.owner.as_str(), config.name.as_str());
                } else {
                    started = Some(events::sync(job(config, repo_id)));
                }
            }
        }
        match started {
            Some((sync, action)) => Step::Do(
                Run { plan, found, stage: RunStage::Events { repo, repo_id, sync } },
                action,
            ),
            None => Run::prs(plan, found, repo, repo_id, dirty),
        }
    }

    fn discovered(plan: Plan<'a>, mut found: Found, org: usize, names: Vec<String>) -> (r: Step<
        Run<'a>,
        (),
    >)
        requires
            org < plan.deep_view().orgs.len(),
        ensures
            r.deep_view() == RunView::discover_from(
                plan.deep_view(),
                FoundView {
                    repos: found.deep_view().repos + discovery::repos_in(
                        plan.deep_view().orgs[org as int],
                        names.deep_view(),
                    ),
                    owners: found.deep_view().owners.push(plan.deep_view().orgs[org as int].owner),
                    ..found.deep_view()
                },
                org + 1,
            ),
            leads_on(r.deep_view()),
    {
        let ghost before = found.deep_view();
        let owner: String = plan.cfg.orgs[org].owner.clone();
        let mut more: Vec<RepoConfig> = org_to_repos(&plan.cfg.orgs[org], names);
        let ghost added = more.deep_view();
        found.repos.append(&mut more);
        assert(found.repos.deep_view() =~= before.repos + added);
        found.owners.push(owner);
        assert(found.owners.deep_view() =~= before.owners.push(owner@));
        let next: usize = next_org(&plan, org);
        Run::discover_from(plan, found, next)
    }

    /// Goes on with what came of the last action.
    pub fn step(self, reply: Reply, now: &Now) -> (r: Step<Run<'a>, ()>)
        requires
            self.deep_view().well_formed(),
        ensures
            r.deep_view() == self.deep_view().next(reply.deep_view(), now.deep_view()),
            leads_on(r.deep_view()),
    {
        let plan: Plan<'a> = self.plan;
        let mut found: Found = self.found;
        match self.stage {
            RunStage::Discover { org, sync } => match sync.step(reply, now) {
                Step::Do(sync, action) => Step::Do(
                    Run { plan, found, stage: RunStage::Discover { org, sync } },
                    action,
                ),
                Step::Finished(names) => Run::discovered(plan, found, org, names),
                Step::Failed => {
                    let next: usize = next_org(&plan, org);
                    Run::discover_from(plan, found, next)
                },
            },
            RunStage::OrgEvents { org, sync } => match sync.step(reply, now) {
                Step::Do(sync, action) => Step::Do(
                    Run { plan, found, stage: RunStage::OrgEvents { org, sync } },
                    action,
                ),
                Step::Finished(table) => {
                    found.dirty.absorb(table);
                    let next: usize = next_org(&plan, org);
                    Run::org_events_from(plan, found, next)
                },
                Step::Failed => {
                    let next: usize = next_org(&plan, org);
                    Run::org_events_from(plan, found, next)
                },
            },
            RunStage::Throttle { repo } => match reply {
                Reply::Done => Step::Do(
                    Run { plan, found, stage: RunStage::Begin { repo } },
                    Action::Begin,
                ),
                _ => Step::Failed,
            },
            RunStage::Begin { repo } => match (reply, repo_at(&plan, &found, repo)) {
                (Reply::Done, Some(config)) => {
                    let record: Statement = upsert_statement(config);
                    Step::Do(
                        Run { plan, found, stage: RunStage::Upsert { repo } },
                        Action::Execute(record),
                    )
                },
                _ => Step::Failed,
            },
            RunStage::Upsert { repo } => match (reply, repo_at(&plan, &found, repo)) {
                (Reply::Executed { .. }, Some(config)) => {
                    let query: Statement = get_repo_id(
                        config.owner.as_str(),
                        config.name.as_str(),
                    );
                    Step::Do(
                        Run { plan, found, stage: RunStage::RepoId { repo } },
                        Action::Query(query),
                    )
                },
                _ => Run::rollback(plan, found, repo),
            },
            RunStage::RepoId { repo } => match reply {
                Reply::Rows(rows) => match first_id(&rows) {
                    Ok(Some(repo_id)) => Run::events(plan, found, repo, repo_id),
                    _ => Run::rollback(plan, found, repo),
                },
                _ => Run::rollback(plan, found, repo),
            },
            RunStage::Events { repo, repo_id, sync } => match sync.step(reply, now) {
                Step::Do(sync, action) => Step::Do(
                    Run { plan, found, stage: RunStage::Events { repo, repo_id, sync } },
                    action,
                ),
                Step::Finished(dirty) => Run::prs(plan, found, repo, repo_id, dirty),
                Step::Failed => Run::rollback(plan, found, repo),
            },
            RunStage::Prs { repo, repo_id, sync } => match sync.step(reply, now) {
                Step::Do(sync, action) => Step::Do(
                    Run { plan, found, stage: RunStage::Prs { repo, repo_id, sync } },
                    action,
                ),
                Step::Finished(()) => Run::branches(plan, found, repo, repo_id),
                Step::Failed => Run::rollback(plan, found, repo),
            },
            RunStage::Branches { repo, sync } => match sync.step(reply, now) {
                Step::Do(sync, action) => Step::Do(
                    Run { plan, found, stage: RunStage::Branches { repo, sync } },
                    action,
                ),
                Step::Finished(()) => Run::commit(plan, found, repo),
                Step::Failed => Run::rollback(plan, found, repo),
            },
            RunStage::Commit { repo } => match reply {
                Reply::Done => {
                    let next: u128 = next_repo(&plan, &found, repo);
                    Run::repos_from(plan, found, next)
                },
                _ => Step::Failed,
            },
            RunStage::Rollback { repo } => {
                let next: u128 = next_repo(&plan, &found, repo);
                Run::repos_from(plan, found, next)
            },
            RunStage::Notifications(sync) => match sync.step(reply, now) {
                Step::Do(sync, action) => Step::Do(
                    Run { plan, found, stage: RunStage::Notifications(sync) },
                    action,
                ),
                Step::Finished(()) => Step::Finished(()),
                Step::Failed => Step::Failed,
            },
        }
    }
}

// ---- what holds of every run -------------------------------------------------------
/// A run that is restricted to one kind of data leaves the others alone.
pub proof fn restricted_run_takes_one_kind(filter: FilterView)
    ensures
        !filter.prs_only && !filter.notifs_only && !filter.events_only ==> filter.takes_prs()
            && filter.takes_notifs() && filter.takes_events(),
        filter.prs_only && !filter.notifs_only && !filter.events_only ==> filter.takes_prs()
            && !filter.takes_notifs() && !filter.takes_events(),
        !filter.prs_only && filter.notifs_only && !filter.events_only ==> !filter.takes_prs()
            && filter.takes_notifs() && !filter.takes_events(),
        !filter.prs_only && !filter.notifs_only && filter.events_only ==> !filter.takes_prs()
            && !filter.takes_notifs() && filter.takes_events(),
{
}

/// Where only those pull requests are fetched that events speak of, and the events speak
/// of none, a run goes on without asking for any.
pub proof fn no_changed_prs_no_query(plan: PlanView, found: FoundView, repo: int, repo_id: i64)
    requires
        !plan.full_sweep,
        !plan.filter.prs_only,
        !is_extra(plan, found, repo),
    ensures
        RunView::prs(plan, found, repo, repo_id, Seq::empty()) == RunView::branches(
            plan,
            found,
            repo,
            repo_id,
        ),
{
}

/// A full sweep fetches all open pull requests of every repository whose pull requests are
/// synced, whatever the events say.
pub proof fn full_sweep_fetches_all_open_prs(
    plan: PlanView,
    found: FoundView,
    repo: int,
    repo_id: i64,
    dirty: Seq<i64>,
)
    requires
        plan.full_sweep,
        plan.filter.takes_prs(),
        config::is_on(all_repos(plan, found)[repo].sync_prs),
    ensures
        ({
            let job = job_for(all_repos(plan, found)[repo], repo_id);
            RunView::prs(plan, found, repo, repo_id, dirty) == RunView::at(
                plan,
                found,
                RunStageView::Prs {
                    repo,
                    repo_id,
                    sync: PrSyncView { job, stage: prs::PrStageView::Throttle(PrScopeView::Full) },
                },
                ActionView::Throttle(Pool::Graphql),
            )
        }),
{
}

/// A repository whose sync fails is undone, and the run goes on with the next one,
/// whatever comes of the undoing.
pub proof fn failed_repo_is_undone_and_passed_over(
    run: RunView,
    repo: int,
    reply: ReplyView,
    reply2: ReplyView,
    now: NowView,
    now2: NowView,
)
    requires
        ({
            ||| run.stage matches RunStageView::Events { repo: r, repo_id, sync } && r == repo
                && sync.next(reply, now) is Failed
            ||| run.stage matches RunStageView::Prs { repo: r, repo_id, sync } && r == repo
                && sync.next(reply, now) is Failed
            ||| run.stage matches RunStageView::Branches { repo: r, sync } && r == repo && sync.next(
                reply,
                now,
            ) is Failed
        }),
    ensures
        run.next(reply, now) == RunView::rollback(run.plan, run.found, repo),
        (RunView { stage: RunStageView::Rollback { repo }, ..run }).next(reply2, now2)
            == RunView::repos_from(run.plan, run.found, repo + 1),
{
}

/// What is left out is passed over: of a repository or an organisation whose time has not come
/// nothing is asked.
pub proof fn resting_entries_are_passed_over(plan: PlanView, found: FoundView, i: int)
    ensures
        0 <= i < plan.repos.len() && plan.resting.has_repo(i) ==> RunView::repos_from(
            plan,
            found,
            i,
        ) == RunView::repos_from(plan, found, i + 1),
        0 <= i < plan.orgs.len() && plan.resting.has_org(i) ==> RunView::discover_from(
            plan,
            found,
            i,
        ) == RunView::discover_from(plan, found, i + 1) && RunView::org_events_from(plan, found, i)
            == RunView::org_events_from(plan, found, i + 1),
        plan.resting.others ==> RunView::notifications(plan, found) is Finished,
{
}

/// An organisation whose repositories cannot be found out is passed over: the run goes on
/// with the next one, and knows of it no more than before.
pub proof fn failed_discovery_is_passed_over(
    run: RunView,
    org: int,
    sync: DiscoveryView,
    reply: ReplyView,
    now: NowView,
)
    requires
        run.stage == (RunStageView::Discover { org, sync }),
        sync.next(reply, now) is Failed,
    ensures
        run.next(reply, now) == RunView::discover_from(run.plan, run.found, org + 1),
{
}

} // verus!
