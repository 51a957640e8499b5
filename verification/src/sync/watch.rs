//! Watching: one run after the other, for as long as the program lives. Beside what is
//! configured, a run syncs what live subscriptions want, and checkouts follow each run.

use vstd::prelude::*;

use crate::checkout::{CheckoutTask, TaskView};
use crate::config::{on, OrgConfig, OrgView, RepoConfig, RepoView, ResolvedConfig};
use crate::db::{first_id, get_repo_id};
use crate::sql::{get_integer, get_text, Row, SqlValue, SqlView, Statement, StatementView};
use crate::sync::prs::{PrScopeView, PrStageView, PrSyncView};
use crate::sync::step::{ActionView, NowView, Pool, ReplyView, StepView};
use crate::sync::{
    FoundView, PlanView, Resting, RestingView, RunStageView, RunView, SyncFilter,
};
use crate::text::same;
use crate::sync::prs;
use crate::{config, db, sql, sync};

verus! {

// ---- turns -------------------------------------------------------------------------
/// For how many milliseconds the loop rests while it is paused.
pub const PAUSE_MILLIS: u64 = 500;

/// What the loop does next.
#[derive(Clone, Copy, PartialEq, Eq, Structural, Debug)]
pub enum Turn {
    /// It rests, and then asks again whether it is paused.
    Rest { millis: u64 },
    /// It syncs everything. In a full sweep all open pull requests are fetched, else only
    /// those that events speak of.
    Sync { full_sweep: bool },
}

/// What the loop does next, where `first_run` says whether it has not synced yet.
pub open spec fn turn_of(first_run: bool, paused: bool) -> Turn {
    if paused {
        Turn::Rest { millis: PAUSE_MILLIS }
    } else {
        Turn::Sync { full_sweep: first_run }
    }
}

/// What the loop does next.
pub fn turn(first_run: bool, paused: bool) -> (r: Turn)
    ensures
        r == turn_of(first_run, paused),
{
    if paused {
        Turn::Rest { millis: PAUSE_MILLIS }
    } else {
        Turn::Sync { full_sweep: first_run }
    }
}

/// What a run of the loop is restricted to: nothing.
pub fn everything() -> (r: SyncFilter)
    ensures
        r.deep_view().takes_all(),
        r.deep_view().repo is None,
{
    SyncFilter { repo: None, prs_only: false, notifs_only: false, events_only: false }
}

// ---- what subscriptions add --------------------------------------------------------
/// Whether a repository is configured.
pub open spec fn is_configured(repos: Seq<RepoView>, owner: Seq<char>, name: Seq<char>) -> bool {
    exists|i: int|
        0 <= i < repos.len() && (#[trigger] repos[i]).owner == owner && repos[i].name == name
}

/// Those of a list of repositories that are not configured.
pub open spec fn unconfigured(
    wanted: Seq<(Seq<char>, Seq<char>)>,
    repos: Seq<RepoView>,
) -> Seq<(Seq<char>, Seq<char>)>
    decreases wanted.len(),
{
    if wanted.len() == 0 {
        Seq::empty()
    } else {
        let before = unconfigured(wanted.drop_last(), repos);
        if is_configured(repos, wanted.last().0, wanted.last().1) {
            before
        } else {
            before.push(wanted.last())
        }
    }
}

/// The configuration of a repository that is synced for its subscribers: its pull requests and
/// all its branches are.
pub open spec fn subscribed_repo(owner: Seq<char>, name: Seq<char>) -> RepoView {
    RepoView {
        owner,
        name,
        default_branch: None,
        sync_prs: Some(true),
        sync_notifications: None,
        sync_events: None,
        sync_branches: Some(seq!["*"@]),
        checkout_on_sync: None,
        poll_interval_seconds: None,
        fs_alias: None,
    }
}

fn configured(repos: &Vec<RepoConfig>, owner: &str, name: &str) -> (r: bool)
    ensures
        r == is_configured(repos.deep_view(), owner@, name@),
{
    let mut i: usize = 0;
    while i < repos.len()
        invariant
            i <= repos.len(),
            forall|k: int|
                0 <= k < i ==> !((#[trigger] repos.deep_view()[k]).owner == owner@
                    && repos.deep_view()[k].name == name@),
        decreases repos.len() - i,
    {
        assert(repos.deep_view()[i as int] == repos@[i as int].deep_view());
        if same(repos[i].owner.as_str(), owner) && same(repos[i].name.as_str(), name) {
            return true;
        }
        i += 1;
    }
    false
}

/// Those of a list of repositories, by owner and name, that are not configured.
pub fn extra_slugs(wanted: Vec<(String, String)>, repos: &Vec<RepoConfig>) -> (r: Vec<
    (String, String),
>)
    ensures
        r.deep_view() == unconfigured(wanted.deep_view(), repos.deep_view()),
{
    let ghost all = wanted.deep_view();
    let mut out: Vec<(String, String)> = Vec::new();
    let mut i: usize = 0;
    assert(all.take(0) =~= Seq::empty());
    assert(out.deep_view() =~= Seq::<(Seq<char>, Seq<char>)>::empty());
    while i < wanted.len()
        invariant
            i <= wanted.len(),
            all == wanted.deep_view(),
            out.deep_view() == unconfigured(all.take(i as int), repos.deep_view()),
        decreases wanted.len() - i,
    {
        let ghost before = out.deep_view();
        proof {
            assert(all.take(i + 1).drop_last() =~= all.take(i as int));
            assert(all.take(i + 1).last() == (wanted@[i as int].0@, wanted@[i as int].1@));
        }
        if !configured(repos, wanted[i].0.as_str(), wanted[i].1.as_str()) {
            out.push((wanted[i].0.clone(), wanted[i].1.clone()));
            assert(out.deep_view() =~= before.push(all[i as int]));
        }
        i += 1;
    }
    assert(all.take(i as int) =~= all);
    out
}

/// The configurations of those of a list of repositories that are not configured.
pub fn extra_repos(wanted: Vec<(String, String)>, repos: &Vec<RepoConfig>) -> (r: Vec<RepoConfig>)
    ensures
        r.deep_view() == unconfigured(wanted.deep_view(), repos.deep_view()).map_values(
            |e: (Seq<char>, Seq<char>)| subscribed_repo(e.0, e.1),
        ),
{
    let extra: Vec<(String, String)> = extra_slugs(wanted, repos);
    let ghost f = |e: (Seq<char>, Seq<char>)| subscribed_repo(e.0, e.1);
    let ghost all = extra.deep_view();
    let mut out: Vec<RepoConfig> = Vec::new();
    let mut i: usize = 0;
    assert(out.deep_view() =~= all.take(0).map_values(f));
    while i < extra.len()
        invariant
            i <= extra.len(),
            all == extra.deep_view(),
            f == (|e: (Seq<char>, Seq<char>)| subscribed_repo(e.0, e.1)),
            out.deep_view() == all.take(i as int).map_values(f),
        decreases extra.len() - i,
    {
        let ghost before = out.deep_view();
        let every: Vec<String> = vec!["*".to_owned()];
        assert(every.deep_view() =~= seq!["*"@]);
        let repo: RepoConfig = RepoConfig {
            owner: extra[i].0.clone(),
            name: extra[i].1.clone(),
            default_branch: None,
            sync_prs: Some(true),
            sync_notifications: None,
            sync_events: None,
            sync_branches: Some(every),
            checkout_on_sync: None,
            poll_interval_seconds: None,
            fs_alias: None,
        };
        assert(repo.deep_view() =~= f(all[i as int]));
        out.push(repo);
        assert(out.deep_view() =~= before.push(f(all[i as int])));
        assert(out.deep_view() =~= all.take(i + 1).map_values(f));
        i += 1;
    }
    assert(all.take(i as int) =~= all);
    out
}

// ---- checkouts ---------------------------------------------------------------------
/// Gives the ids and the names of the repositories of an owner that are in the cache.
pub const SELECT_OWNED: &'static str = "SELECT id, name FROM repo WHERE owner = ?";

/// The task of checking out a branch.
pub open spec fn task_for(
    owner: Seq<char>,
    name: Seq<char>,
    fs_owner: Seq<char>,
    branch: Seq<char>,
) -> TaskView {
    TaskView {
        owner,
        name,
        fs_owner,
        is_dirty: false,
        default_branch: branch,
        fetch_pr_branches: false,
    }
}

/// The tasks of checking out several branches.
pub open spec fn tasks_for(
    owner: Seq<char>,
    name: Seq<char>,
    fs_owner: Seq<char>,
    branches: Option<Seq<Seq<char>>>,
) -> Seq<TaskView> {
    match branches {
        Some(list) => list.map_values(|b: Seq<char>| task_for(owner, name, fs_owner, b)),
        None => Seq::empty(),
    }
}

/// The tasks of a configured repository: its branches, where it is checked out and in the
/// cache.
pub open spec fn tasks_of_repo(repo: RepoView, known: bool) -> Seq<TaskView> {
    if config::is_on(repo.checkout_on_sync) && known {
        tasks_for(
            repo.owner,
            repo.name,
            config::alias_or(repo.fs_alias, repo.owner),
            repo.sync_branches,
        )
    } else {
        Seq::empty()
    }
}

/// The names in rows of ids and names; none where a row does not hold both.
pub open spec fn owned_names(rows: Seq<Seq<SqlView>>) -> Seq<Seq<char>> {
    match all_owned(rows) {
        Some(names) => names,
        None => Seq::empty(),
    }
}

/// The names in rows of ids and names, if every row holds both.
pub open spec fn all_owned(rows: Seq<Seq<SqlView>>) -> Option<Seq<Seq<char>>>
    decreases rows.len(),
{
    if rows.len() == 0 {
        Some(Seq::empty())
    } else {
        let row = rows.last();
        match (all_owned(rows.drop_last()), sql::integer_in(row, 0), sql::text_in(row, 1)) {
            (Some(before), Some(id), Some(name)) => Some(before.push(name)),
            _ => None,
        }
    }
}

/// The tasks of an organisation: the branches of its repositories that are in the cache,
/// where it is checked out.
pub open spec fn tasks_of_org(org: OrgView, rows: Seq<Seq<SqlView>>) -> Seq<TaskView> {
    if config::is_on(org.checkout_on_sync) {
        tasks_of_names(org, owned_names(rows))
    } else {
        Seq::empty()
    }
}

/// The tasks of repositories of an organisation.
pub open spec fn tasks_of_names(org: OrgView, names: Seq<Seq<char>>) -> Seq<TaskView>
    decreases names.len(),
{
    if names.len() == 0 {
        Seq::empty()
    } else {
        tasks_of_names(org, names.drop_last()) + tasks_for(
            org.owner,
            names.last(),
            config::alias_or(org.fs_alias, org.owner),
            org.sync_branches,
        )
    }
}

/// The query for the repositories of an owner.
pub open spec fn owned_query(owner: Seq<char>) -> StatementView {
    StatementView { sql: SELECT_OWNED@, params: seq![SqlView::Text(owner)] }
}

/// The query for the repositories of an owner.
pub fn select_owned(owner: &str) -> (r: Statement)
    ensures
        r.deep_view() == owned_query(owner@),
{
    let params: Vec<SqlValue> = vec![SqlValue::text(owner)];
    assert(params.deep_view() =~= seq![SqlView::Text(owner@)]);
    Statement { sql: SELECT_OWNED.to_owned(), params }
}

fn push_tasks(
    out: &mut Vec<CheckoutTask>,
    owner: &str,
    name: &str,
    fs_owner: &str,
    branches: &Option<Vec<String>>,
)
    ensures
        final(out).deep_view() == old(out).deep_view() + tasks_for(
            owner@,
            name@,
            fs_owner@,
            branches.deep_view(),
        ),
{
    let ghost f = |b: Seq<char>| task_for(owner@, name@, fs_owner@, b);
    match branches {
        Some(list) => {
            let ghost all = list.deep_view();
            let mut i: usize = 0;
            assert(out.deep_view() =~= old(out).deep_view() + all.take(0).map_values(f));
            while i < list.len()
                invariant
                    i <= list.len(),
                    all == list.deep_view(),
                    f == (|b: Seq<char>| task_for(owner@, name@, fs_owner@, b)),
                    out.deep_view() == old(out).deep_view() + all.take(i as int).map_values(f),
                decreases list.len() - i,
            {
                let ghost before = out.deep_view();
                let task: CheckoutTask = CheckoutTask {
                    owner: owner.to_owned(),
                    name: name.to_owned(),
                    fs_owner: fs_owner.to_owned(),
                    is_dirty: false,
                    default_branch: list[i].clone(),
                    fetch_pr_branches: false,
                };
                assert(task.deep_view() =~= f(all[i as int]));
                out.push(task);
                assert(out.deep_view() =~= before.push(f(all[i as int])));
                assert(out.deep_view() =~= old(out).deep_view() + all.take(i + 1).map_values(f));
                i += 1;
            }
            assert(all.take(i as int) =~= all);
        },
        None => {
            assert(out.deep_view() =~= old(out).deep_view() + Seq::<TaskView>::empty());
        },
    }
}

/// The tasks of a configured repository; `known` says whether it is in the cache.
pub fn repo_tasks(repo: &RepoConfig, known: bool) -> (r: Vec<CheckoutTask>)
    ensures
        r.deep_view() == tasks_of_repo(repo.deep_view(), known),
{
    let mut out: Vec<CheckoutTask> = Vec::new();
    assert(out.deep_view() =~= Seq::<TaskView>::empty());
    if on(repo.checkout_on_sync) && known {
        push_tasks(
            &mut out,
            repo.owner.as_str(),
            repo.name.as_str(),
            repo.fs_owner(),
            &repo.sync_branches,
        );
        assert(out.deep_view() =~= tasks_of_repo(repo.deep_view(), known));
    }
    out
}

proof fn lemma_not_all_owned(rows: Seq<Seq<SqlView>>, i: int)
    requires
        0 <= i <= rows.len(),
        all_owned(rows.take(i)) is None,
    ensures
        all_owned(rows) is None,
    decreases rows.len() - i,
{
    if i < rows.len() {
        assert(rows.take(i + 1).drop_last() =~= rows.take(i));
        lemma_not_all_owned(rows, i + 1);
    } else {
        assert(rows.take(i) =~= rows);
    }
}

fn read_owned(rows: &Vec<Row>) -> (r: Vec<String>)
    ensures
        r.deep_view() == owned_names(rows.deep_view()),
{
    let ghost all = rows.deep_view();
    let mut out: Vec<String> = Vec::new();
    let mut i: usize = 0;
    assert(all.take(0) =~= Seq::empty());
    assert(out.deep_view() =~= Seq::<Seq<char>>::empty());
    while i < rows.len()
        invariant
            i <= rows.len(),
            all == rows.deep_view(),
            all_owned(all.take(i as int)) == Some(out.deep_view()),
        decreases rows.len() - i,
    {
        proof {
            assert(all.take(i + 1).drop_last() =~= all.take(i as int));
            assert(all.take(i + 1).last() == rows@[i as int].deep_view());
        }
        match (get_integer(&rows[i], 0), get_text(&rows[i], 1)) {
            (Ok(_), Ok(name)) => {
                let ghost before = out.deep_view();
                out.push(name);
                assert(out.deep_view() =~= before.push(name@));
            },
            _ => {
                proof {
                    lemma_not_all_owned(all, i + 1);
                }
                let none: Vec<String> = Vec::new();
                assert(none.deep_view() =~= Seq::<Seq<char>>::empty());
                return none;
            },
        }
        i += 1;
    }
    assert(all.take(i as int) =~= all);
    out
}

/// The tasks of an organisation, from the rows of its repositories.
pub fn org_tasks(org: &OrgConfig, rows: &Vec<Row>) -> (r: Vec<CheckoutTask>)
    ensures
        r.deep_view() == tasks_of_org(org.deep_view(), rows.deep_view()),
{
    let mut out: Vec<CheckoutTask> = Vec::new();
    assert(out.deep_view() =~= Seq::<TaskView>::empty());
    if on(org.checkout_on_sync) {
        let names: Vec<String> = read_owned(rows);
        let ghost all = names.deep_view();
        let mut i: usize = 0;
        assert(all.take(0) =~= Seq::empty());
        while i < names.len()
            invariant
                i <= names.len(),
                all == names.deep_view(),
                out.deep_view() == tasks_of_names(org.deep_view(), all.take(i as int)),
            decreases names.len() - i,
        {
            proof {
                assert(all.take(i + 1).drop_last() =~= all.take(i as int));
                assert(all.take(i + 1).last() == names@[i as int]@);
            }
            push_tasks(
                &mut out,
                org.owner.as_str(),
                names[i].as_str(),
                org.fs_owner(),
                &org.sync_branches,
            );
            i += 1;
        }
        assert(all.take(i as int) =~= all);
    }
    out
}

// ---- when --------------------------------------------------------------------------
/// When what is configured is to be synced next, in seconds on the clock of the loop. Each
/// repository and each organisation has a time of its own; whatever is synced beside them has
/// one in common.
struct Pace {
    /// Whether the loop has not synced yet.
    first_run: bool,
    /// When the last run was started.
    started: u64,
    others: u64,
    repos: Vec<u64>,
    orgs: Vec<u64>,
}

/// When what is configured is to be synced next.
#[verifier::ext_equal]
pub struct PaceView {
    pub first_run: bool,
    pub started: u64,
    pub others: u64,
    pub repos: Seq<u64>,
    pub orgs: Seq<u64>,
}

impl DeepView for Pace {
    type V = PaceView;

    closed spec fn deep_view(&self) -> PaceView {
        PaceView {
            first_run: self.first_run,
            started: self.started,
            others: self.others,
            repos: self.repos@,
            orgs: self.orgs@,
        }
    }
}

/// The time at a place of a list; the beginning where the list does not reach so far.
pub open spec fn time_at(times: Seq<u64>, i: int) -> u64 {
    if 0 <= i < times.len() {
        times[i]
    } else {
        0
    }
}

fn time_of(times: &Vec<u64>, i: usize) -> (r: u64)
    ensures
        r == time_at(times@, i as int),
{
    if i < times.len() {
        times[i]
    } else {
        0
    }
}

/// How many seconds pass between two syncs: as many as are configured for the repository or the
/// organisation itself, else as many as are configured for all.
pub open spec fn interval_of(own: Option<u64>, common: u64) -> u64 {
    match own {
        Some(seconds) => seconds,
        None => common,
    }
}

/// How many seconds pass between two syncs.
pub fn interval_or(own: Option<u64>, common: u64) -> (r: u64)
    ensures
        r == interval_of(own, common),
{
    match own {
        Some(seconds) => seconds,
        None => common,
    }
}

/// The time some seconds later.
pub open spec fn later_by(now: u64, seconds: u64) -> u64 {
    if now + seconds <= u64::MAX {
        (now + seconds) as u64
    } else {
        u64::MAX
    }
}

/// When something is to be synced next, after a run that is over now: after its interval, where
/// the run has synced it, which it has where its time had come when the run was started.
pub open spec fn next_time(time: u64, started: u64, now: u64, interval: u64) -> u64 {
    if time <= started {
        later_by(now, interval)
    } else {
        time
    }
}

fn time_after(time: u64, started: u64, now: u64, interval: u64) -> (r: u64)
    ensures
        r == next_time(time, started, now, interval),
{
    if time > started {
        time
    } else if interval <= u64::MAX - now {
        now + interval
    } else {
        u64::MAX
    }
}

/// The first of some times, and of one more.
pub open spec fn first_of(times: Seq<u64>, one: u64) -> u64
    decreases times.len(),
{
    if times.len() == 0 {
        one
    } else {
        let before = first_of(times.drop_last(), one);
        if times.last() < before {
            times.last()
        } else {
            before
        }
    }
}

fn first_time(times: &Vec<u64>, one: u64) -> (r: u64)
    ensures
        r == first_of(times@, one),
{
    let mut first: u64 = one;
    let mut i: usize = 0;
    assert(times@.take(0) =~= Seq::empty());
    while i < times.len()
        invariant
            i <= times.len(),
            first == first_of(times@.take(i as int), one),
        decreases times.len() - i,
    {
        assert(times@.take(i + 1).drop_last() =~= times@.take(i as int));
        if times[i] < first {
            first = times[i];
        }
        i += 1;
    }
    assert(times@.take(i as int) =~= times@);
    first
}

/// The time itself, or the present if that is earlier.
pub open spec fn at_latest(time: u64, now: u64) -> u64 {
    if now < time {
        now
    } else {
        time
    }
}

impl PaceView {
    /// The pace at the beginning: the time of everything has come.
    pub open spec fn begun() -> PaceView {
        PaceView {
            first_run: true,
            started: 0,
            others: 0,
            repos: Seq::empty(),
            orgs: Seq::empty(),
        }
    }

    /// What a run that is started now leaves out.
    pub open spec fn resting(self, now: u64, repos: nat, orgs: nat) -> RestingView {
        RestingView {
            repos: Seq::new(repos, |i: int| now < time_at(self.repos, i)),
            orgs: Seq::new(orgs, |i: int| now < time_at(self.orgs, i)),
            others: now < self.others,
        }
    }

    /// The pace after a run that is over now.
    pub open spec fn after_run(
        self,
        now: u64,
        repos: Seq<RepoView>,
        orgs: Seq<OrgView>,
        common: u64,
    ) -> PaceView {
        PaceView {
            first_run: self.first_run,
            started: self.started,
            others: next_time(self.others, self.started, now, common),
            repos: Seq::new(
                repos.len(),
                |i: int|
                    next_time(
                        time_at(self.repos, i),
                        self.started,
                        now,
                        interval_of(repos[i].poll_interval_seconds, common),
                    ),
            ),
            orgs: Seq::new(
                orgs.len(),
                |i: int|
                    next_time(
                        time_at(self.orgs, i),
                        self.started,
                        now,
                        interval_of(orgs[i].poll_interval_seconds, common),
                    ),
            ),
        }
    }

    /// The pace when a new subscription wakes the loop: the time of everything that has no
    /// interval of its own has come.
    pub open spec fn woken(
        self,
        now: u64,
        repos: Seq<RepoView>,
        orgs: Seq<OrgView>,
    ) -> PaceView {
        PaceView {
            first_run: self.first_run,
            started: self.started,
            others: at_latest(self.others, now),
            repos: Seq::new(
                repos.len(),
                |i: int|
                    if repos[i].poll_interval_seconds is Some {
                        time_at(self.repos, i)
                    } else {
                        at_latest(time_at(self.repos, i), now)
                    },
            ),
            orgs: Seq::new(
                orgs.len(),
                |i: int|
                    if orgs[i].poll_interval_seconds is Some {
                        time_at(self.orgs, i)
                    } else {
                        at_latest(time_at(self.orgs, i), now)
                    },
            ),
        }
    }

    /// For how many seconds nothing is to be synced.
    pub open spec fn idle(self, now: u64) -> u64 {
        let first = first_of(self.repos, first_of(self.orgs, self.others));
        if first > now {
            (first - now) as u64
        } else {
            0
        }
    }
}

fn rests(times: &Vec<u64>, n: usize, now: u64) -> (r: Vec<bool>)
    ensures
        r@ == Seq::new(n as nat, |i: int| now < time_at(times@, i)),
{
    let mut out: Vec<bool> = Vec::new();
    let mut i: usize = 0;
    while i < n
        invariant
            i <= n,
            out@ == Seq::new(i as nat, |k: int| now < time_at(times@, k)),
        decreases n - i,
    {
        out.push(now < time_of(times, i));
        i += 1;
        assert(out@ =~= Seq::new(i as nat, |k: int| now < time_at(times@, k)));
    }
    out
}

impl Pace {
    fn new() -> (r: Pace)
        ensures
            r.deep_view() == PaceView::begun(),
    {
        Pace { first_run: true, started: 0, others: 0, repos: Vec::new(), orgs: Vec::new() }
    }

    fn resting(&self, now: u64, repos: usize, orgs: usize) -> (r: Resting)
        ensures
            r.deep_view() == self.deep_view().resting(now, repos as nat, orgs as nat),
    {
        let r: Resting = Resting {
            repos: rests(&self.repos, repos, now),
            orgs: rests(&self.orgs, orgs, now),
            others: now < self.others,
        };
        assert(r.deep_view() =~= self.deep_view().resting(now, repos as nat, orgs as nat));
        r
    }

    fn after_run(self, now: u64, cfg: &ResolvedConfig) -> (r: Pace)
        ensures
            r.deep_view() == self.deep_view().after_run(
                now,
                cfg.repos.deep_view(),
                cfg.orgs.deep_view(),
                cfg.poll_interval_seconds,
            ),
    {
        let common: u64 = cfg.poll_interval_seconds;
        let started: u64 = self.started;
        let ghost goal = self.deep_view().after_run(
            now,
            cfg.repos.deep_view(),
            cfg.orgs.deep_view(),
            common,
        );
        let mut repos: Vec<u64> = Vec::new();
        let mut i: usize = 0;
        while i < cfg.repos.len()
            invariant
                i <= cfg.repos.len(),
                common == cfg.poll_interval_seconds,
                started == self.started,
                goal == self.deep_view().after_run(
                    now,
                    cfg.repos.deep_view(),
                    cfg.orgs.deep_view(),
                    common,
                ),
                repos@.len() == i,
                forall|k: int| 0 <= k < i ==> repos@[k] == goal.repos[k],
            decreases cfg.repos.len() - i,
        {
            assert(cfg.repos.deep_view()[i as int] == cfg.repos@[i as int].deep_view());
            let interval: u64 = interval_or(cfg.repos[i].poll_interval_seconds, common);
            repos.push(time_after(time_of(&self.repos, i), started, now, interval));
            i += 1;
        }
        let mut orgs: Vec<u64> = Vec::new();
        let mut k: usize = 0;
        while k < cfg.orgs.len()
            invariant
                k <= cfg.orgs.len(),
                common == cfg.poll_interval_seconds,
                started == self.started,
                goal == self.deep_view().after_run(
                    now,
                    cfg.repos.deep_view(),
                    cfg.orgs.deep_view(),
                    common,
                ),
                orgs@.len() == k,
                forall|m: int| 0 <= m < k ==> orgs@[m] == goal.orgs[m],
            decreases cfg.orgs.len() - k,
        {
            assert(cfg.orgs.deep_view()[k as int] == cfg.orgs@[k as int].deep_view());
            let interval: u64 = interval_or(cfg.orgs[k].poll_interval_seconds, common);
            orgs.push(time_after(time_of(&self.orgs, k), started, now, interval));
            k += 1;
        }
        let others: u64 = time_after(self.others, started, now, common);
        let r: Pace = Pace { first_run: self.first_run, started, others, repos, orgs };
        assert(r.deep_view() =~= goal);
        r
    }

    fn woken(self, now: u64, cfg: &ResolvedConfig) -> (r: Pace)
        ensures
            r.deep_view() == self.deep_view().woken(
                now,
                cfg.repos.deep_view(),
                cfg.orgs.deep_view(),
            ),
    {
        let ghost goal = self.deep_view().woken(now, cfg.repos.deep_view(), cfg.orgs.deep_view());
        let mut repos: Vec<u64> = Vec::new();
        let mut i: usize = 0;
        while i < cfg.repos.len()
            invariant
                i <= cfg.repos.len(),
                goal == self.deep_view().woken(
                    now,
                    cfg.repos.deep_view(),
                    cfg.orgs.deep_view(),
                ),
                repos@.len() == i,
                forall|k: int| 0 <= k < i ==> repos@[k] == goal.repos[k],
            decreases cfg.repos.len() - i,
        {
            assert(cfg.repos.deep_view()[i as int] == cfg.repos@[i as int].deep_view());
            let time: u64 = time_of(&self.repos, i);
            repos.push(
                if cfg.repos[i].poll_interval_seconds.is_none() && now < time {
                    now
                } else {
                    time
                },
            );
            i += 1;
        }
        let mut orgs: Vec<u64> = Vec::new();
        let mut k: usize = 0;
        while k < cfg.orgs.len()
            invariant
                k <= cfg.orgs.len(),
                goal == self.deep_view().woken(
                    now,
                    cfg.repos.deep_view(),
                    cfg.orgs.deep_view(),
                ),
                orgs@.len() == k,
                forall|m: int| 0 <= m < k ==> orgs@[m] == goal.orgs[m],
            decreases cfg.orgs.len() - k,
        {
            assert(cfg.orgs.deep_view()[k as int] == cfg.orgs@[k as int].deep_view());
            let time: u64 = time_of(&self.orgs, k);
            orgs.push(
                if cfg.orgs[k].poll_interval_seconds.is_none() && now < time {
                    now
                } else {
                    time
                },
            );
            k += 1;
        }
        let others: u64 = if now < self.others {
            now
        } else {
            self.others
        };
        let r: Pace = Pace {
            first_run: self.first_run,
            started: self.started,
            others,
            repos,
            orgs,
        };
        assert(r.deep_view() =~= goal);
        r
    }

    fn idle(&self, now: u64) -> (r: u64)
        ensures
            r == self.deep_view().idle(now),
    {
        let first: u64 = first_time(&self.repos, first_time(&self.orgs, self.others));
        if first > now {
            first - now
        } else {
            0
        }
    }
}

// ---- the loop ----------------------------------------------------------------------
/// The loop.
pub struct Watch<'a> {
    cfg: &'a ResolvedConfig,
    pace: Pace,
    stage: WatchStage,
}

/// What the loop waits for.
#[allow(inconsistent_fields)]
enum WatchStage {
    /// Whether it is paused, and what subscriptions want.
    Ready,
    /// That a rest is over.
    Resting,
    /// That a sync is over.
    Syncing,
    /// Whether a configured repository is in the cache. The tasks of those before it are
    /// known.
    Repo { index: usize, tasks: Vec<CheckoutTask> },
    /// Which repositories of an organisation are in the cache.
    Org { index: usize, tasks: Vec<CheckoutTask> },
    /// That the checkouts are done.
    CheckingOut,
    /// That it is time for the next run.
    Sleeping,
}

/// What the loop is, but for what it waits for: what is configured, how many seconds pass
/// between two syncs of what has no interval of its own, and when what is to be synced next.
pub struct WatchJob {
    pub repos: Seq<RepoView>,
    pub orgs: Seq<OrgView>,
    pub interval: u64,
    pub pace: PaceView,
}

/// What the loop is.
pub struct WatchView {
    pub job: WatchJob,
    pub stage: WatchStageView,
}

/// What the loop waits for.
#[allow(inconsistent_fields)]
pub enum WatchStageView {
    Ready,
    Resting,
    Syncing,
    Repo { index: int, tasks: Seq<TaskView> },
    Org { index: int, tasks: Seq<TaskView> },
    CheckingOut,
    Sleeping,
}

impl DeepView for WatchStage {
    type V = WatchStageView;

    closed spec fn deep_view(&self) -> WatchStageView {
        match *self {
            WatchStage::Ready => WatchStageView::Ready,
            WatchStage::Resting => WatchStageView::Resting,
            WatchStage::Syncing => WatchStageView::Syncing,
            WatchStage::Repo { index, tasks } => WatchStageView::Repo {
                index: index as int,
                tasks: tasks.deep_view(),
            },
            WatchStage::Org { index, tasks } => WatchStageView::Org {
                index: index as int,
                tasks: tasks.deep_view(),
            },
            WatchStage::CheckingOut => WatchStageView::CheckingOut,
            WatchStage::Sleeping => WatchStageView::Sleeping,
        }
    }
}

impl<'a> DeepView for Watch<'a> {
    type V = WatchView;

    closed spec fn deep_view(&self) -> WatchView {
        WatchView { job: job_of(*self.cfg, self.pace.deep_view()), stage: self.stage.deep_view() }
    }
}

/// What the loop asks for.
pub enum WatchAction {
    /// To tell whether it is paused, and what subscriptions want.
    Look,
    /// To wait for some milliseconds.
    Rest { millis: u64 },
    /// To sync everything but what rests, with these repositories, and with the notifications
    /// of these, beside what is configured.
    Sync {
        full_sweep: bool,
        repos: Vec<RepoConfig>,
        notifications: Vec<(String, String)>,
        resting: Resting,
    },
    /// To run a statement and hand back its rows.
    Query(Statement),
    /// To check out branches.
    CheckOut(Vec<CheckoutTask>),
    /// To wait for some seconds, or until there is a new subscription.
    Sleep { seconds: u64 },
}

/// What the loop asks for.
pub enum WatchActionView {
    Look,
    Rest { millis: u64 },
    Sync {
        full_sweep: bool,
        repos: Seq<RepoView>,
        notifications: Seq<(Seq<char>, Seq<char>)>,
        resting: RestingView,
    },
    Query(StatementView),
    CheckOut(Seq<TaskView>),
    Sleep { seconds: u64 },
}

impl DeepView for WatchAction {
    type V = WatchActionView;

    open spec fn deep_view(&self) -> WatchActionView {
        match *self {
            WatchAction::Look => WatchActionView::Look,
            WatchAction::Rest { millis } => WatchActionView::Rest { millis },
            WatchAction::Sync { full_sweep, repos, notifications, resting } => {
                WatchActionView::Sync {
                    full_sweep,
                    repos: repos.deep_view(),
                    notifications: notifications.deep_view(),
                    resting: resting.deep_view(),
                }
            },
            WatchAction::Query(s) => WatchActionView::Query(s.deep_view()),
            WatchAction::CheckOut(tasks) => WatchActionView::CheckOut(tasks.deep_view()),
            WatchAction::Sleep { seconds } => WatchActionView::Sleep { seconds },
        }
    }
}

/// What the loop is told.
pub enum WatchEvent {
    /// Whether it is paused, and the repositories whose pull requests, and those whose
    /// notifications, live subscriptions want.
    State { paused: bool, prs: Vec<(String, String)>, notifications: Vec<(String, String)> },
    /// The rows of a query; none where it failed.
    Rows(Vec<Row>),
    /// What it asked for is done, or has failed.
    Done,
    /// There is a new subscription.
    Woken,
}

/// What the loop is told.
pub enum WatchEventView {
    State {
        paused: bool,
        prs: Seq<(Seq<char>, Seq<char>)>,
        notifications: Seq<(Seq<char>, Seq<char>)>,
    },
    Rows(Seq<Seq<SqlView>>),
    Done,
    Woken,
}

impl DeepView for WatchEvent {
    type V = WatchEventView;

    open spec fn deep_view(&self) -> WatchEventView {
        match *self {
            WatchEvent::State { paused, prs, notifications } => WatchEventView::State {
                paused,
                prs: prs.deep_view(),
                notifications: notifications.deep_view(),
            },
            WatchEvent::Rows(rows) => WatchEventView::Rows(rows.deep_view()),
            WatchEvent::Done => WatchEventView::Done,
            WatchEvent::Woken => WatchEventView::Woken,
        }
    }
}

impl WatchEventView {
    /// The rows that the loop is told.
    pub open spec fn rows(self) -> Seq<Seq<SqlView>> {
        match self {
            WatchEventView::Rows(rows) => rows,
            _ => Seq::empty(),
        }
    }
}

/// The loop of a configuration.
pub open spec fn job_of(cfg: ResolvedConfig, pace: PaceView) -> WatchJob {
    WatchJob {
        repos: cfg.repos.deep_view(),
        orgs: cfg.orgs.deep_view(),
        interval: cfg.poll_interval_seconds,
        pace,
    }
}

impl WatchJob {
    /// The loop at a stage.
    pub open spec fn at(self, stage: WatchStageView) -> WatchView {
        WatchView { job: self, stage }
    }

    /// On to the next configured repository that is checked out, or to the organisations.
    pub open spec fn repo_from(self, index: int, tasks: Seq<TaskView>, now: u64) -> (
        WatchView,
        WatchActionView,
    )
        decreases self.repos.len() - index,
    {
        if index < 0 || index >= self.repos.len() {
            self.org_from(0, tasks, now)
        } else if config::is_on(self.repos[index].checkout_on_sync) {
            (
                self.at(WatchStageView::Repo { index, tasks }),
                WatchActionView::Query(
                    db::repo_id_query(self.repos[index].owner, self.repos[index].name),
                ),
            )
        } else {
            self.repo_from(index + 1, tasks, now)
        }
    }

    /// On to the next organisation that is checked out, or to the checkouts.
    pub open spec fn org_from(self, index: int, tasks: Seq<TaskView>, now: u64) -> (
        WatchView,
        WatchActionView,
    )
        decreases self.orgs.len() - index,
    {
        if index < 0 || index >= self.orgs.len() {
            self.check_out(tasks, now)
        } else if config::is_on(self.orgs[index].checkout_on_sync) {
            (
                self.at(WatchStageView::Org { index, tasks }),
                WatchActionView::Query(owned_query(self.orgs[index].owner)),
            )
        } else {
            self.org_from(index + 1, tasks, now)
        }
    }

    /// On to the checkouts, if there are any, or to sleep.
    pub open spec fn check_out(self, tasks: Seq<TaskView>, now: u64) -> (
        WatchView,
        WatchActionView,
    ) {
        if tasks.len() == 0 {
            self.sleep(now)
        } else {
            (self.at(WatchStageView::CheckingOut), WatchActionView::CheckOut(tasks))
        }
    }

    /// On to sleep, until something is to be synced.
    pub open spec fn sleep(self, now: u64) -> (WatchView, WatchActionView) {
        let pace = self.pace.after_run(now, self.repos, self.orgs, self.interval);
        (
            WatchJob { pace, ..self }.at(WatchStageView::Sleeping),
            WatchActionView::Sleep { seconds: pace.idle(now) },
        )
    }

    /// What the loop does when it is told whether it is paused, and what subscriptions want.
    /// What they want is synced together with what has no interval of its own.
    pub open spec fn run(
        self,
        now: u64,
        paused: bool,
        prs: Seq<(Seq<char>, Seq<char>)>,
        notifications: Seq<(Seq<char>, Seq<char>)>,
    ) -> (WatchView, WatchActionView) {
        let resting = self.pace.resting(now, self.repos.len(), self.orgs.len());
        match turn_of(self.pace.first_run, paused) {
            Turn::Rest { millis } => (
                self.at(WatchStageView::Resting),
                WatchActionView::Rest { millis },
            ),
            Turn::Sync { full_sweep } => (
                WatchJob {
                    pace: PaceView { first_run: false, started: now, ..self.pace },
                    ..self
                }.at(WatchStageView::Syncing),
                WatchActionView::Sync {
                    full_sweep,
                    repos: if resting.others {
                        Seq::empty()
                    } else {
                        unconfigured(prs, self.repos).map_values(
                            |e: (Seq<char>, Seq<char>)| subscribed_repo(e.0, e.1),
                        )
                    },
                    notifications: unconfigured(notifications, self.repos),
                    resting,
                },
            ),
        }
    }
}

impl WatchView {
    /// The loop at its beginning, and what it asks for.
    pub open spec fn start(cfg: ResolvedConfig) -> (WatchView, WatchActionView) {
        (job_of(cfg, PaceView::begun()).at(WatchStageView::Ready), WatchActionView::Look)
    }

    /// How the loop goes on when it is told something, at a time on its clock.
    pub open spec fn next(self, event: WatchEventView, now: u64) -> (WatchView, WatchActionView) {
        let job = self.job;
        match self.stage {
            WatchStageView::Ready => match event {
                WatchEventView::State { paused, prs, notifications } => job.run(
                    now,
                    paused,
                    prs,
                    notifications,
                ),
                _ => (self, WatchActionView::Look),
            },
            WatchStageView::Syncing => job.repo_from(0, Seq::empty(), now),
            WatchStageView::Repo { index, tasks } => if 0 <= index < job.repos.len() {
                job.repo_from(
                    index + 1,
                    tasks + tasks_of_repo(job.repos[index], db::id_in(event.rows()) is Some),
                    now,
                )
            } else {
                job.org_from(0, tasks, now)
            },
            WatchStageView::Org { index, tasks } => if 0 <= index < job.orgs.len() {
                job.org_from(
                    index + 1,
                    tasks + tasks_of_org(job.orgs[index], event.rows()),
                    now,
                )
            } else {
                job.check_out(tasks, now)
            },
            WatchStageView::CheckingOut => job.sleep(now),
            WatchStageView::Resting => (job.at(WatchStageView::Ready), WatchActionView::Look),
            WatchStageView::Sleeping => {
                let pace = if event is Woken {
                    job.pace.woken(now, job.repos, job.orgs)
                } else {
                    job.pace
                };
                (WatchJob { pace, ..job }.at(WatchStageView::Ready), WatchActionView::Look)
            },
        }
    }
}

fn rows_of(event: WatchEvent) -> (r: Vec<Row>)
    ensures
        r.deep_view() == event.deep_view().rows(),
{
    match event {
        WatchEvent::Rows(rows) => rows,
        _ => {
            let none: Vec<Row> = Vec::new();
            assert(none.deep_view() =~= Seq::<Seq<SqlView>>::empty());
            none
        },
    }
}

fn with_tasks(tasks: Vec<CheckoutTask>, more: Vec<CheckoutTask>) -> (r: Vec<CheckoutTask>)
    ensures
        r.deep_view() == tasks.deep_view() + more.deep_view(),
{
    let mut r: Vec<CheckoutTask> = tasks;
    let mut more: Vec<CheckoutTask> = more;
    let ghost added = more.deep_view();
    r.append(&mut more);
    assert(r.deep_view() =~= tasks.deep_view() + added);
    r
}

impl<'a> Watch<'a> {
    /// The loop at its beginning, and what it asks for.
    pub fn start(cfg: &'a ResolvedConfig) -> (r: (Watch<'a>, WatchAction))
        ensures
            (r.0.deep_view(), r.1.deep_view()) == WatchView::start(*cfg),
    {
        (Watch { cfg, pace: Pace::new(), stage: WatchStage::Ready }, WatchAction::Look)
    }

    fn repo_from(
        cfg: &'a ResolvedConfig,
        pace: Pace,
        from: usize,
        tasks: Vec<CheckoutTask>,
        now: u64,
    ) -> (r: (Watch<'a>, WatchAction))
        ensures
            (r.0.deep_view(), r.1.deep_view()) == job_of(*cfg, pace.deep_view()).repo_from(
                from as int,
                tasks.deep_view(),
                now,
            ),
    {
        let ghost job = job_of(*cfg, pace.deep_view());
        let mut index: usize = from;
        while index < cfg.repos.len()
            invariant
                job == job_of(*cfg, pace.deep_view()),
                job.repo_from(from as int, tasks.deep_view(), now) == job.repo_from(
                    index as int,
                    tasks.deep_view(),
                    now,
                ),
            decreases cfg.repos.len() - index,
        {
            let repo: &RepoConfig = &cfg.repos[index];
            assert(job.repos[index as int] == repo.deep_view());
            if on(repo.checkout_on_sync) {
                let query: Statement = get_repo_id(repo.owner.as_str(), repo.name.as_str());
                let stage: WatchStage = WatchStage::Repo { index, tasks };
                return (Watch { cfg, pace, stage }, WatchAction::Query(query));
            }
            index += 1;
        }
        Self::org_from(cfg, pace, 0, tasks, now)
    }

    fn org_from(
        cfg: &'a ResolvedConfig,
        pace: Pace,
        from: usize,
        tasks: Vec<CheckoutTask>,
        now: u64,
    ) -> (r: (Watch<'a>, WatchAction))
        ensures
            (r.0.deep_view(), r.1.deep_view()) == job_of(*cfg, pace.deep_view()).org_from(
                from as int,
                tasks.deep_view(),
                now,
            ),
    {
        let ghost job = job_of(*cfg, pace.deep_view());
        let mut index: usize = from;
        while index < cfg.orgs.len()
            invariant
                job == job_of(*cfg, pace.deep_view()),
                job.org_from(from as int, tasks.deep_view(), now) == job.org_from(
                    index as int,
                    tasks.deep_view(),
                    now,
                ),
            decreases cfg.orgs.len() - index,
        {
            let org: &OrgConfig = &cfg.orgs[index];
            assert(job.orgs[index as int] == org.deep_view());
            if on(org.checkout_on_sync) {
                let query: Statement = select_owned(org.owner.as_str());
                let stage: WatchStage = WatchStage::Org { index, tasks };
                return (Watch { cfg, pace, stage }, WatchAction::Query(query));
            }
            index += 1;
        }
        Self::check_out(cfg, pace, tasks, now)
    }

    fn check_out(
        cfg: &'a ResolvedConfig,
        pace: Pace,
        tasks: Vec<CheckoutTask>,
        now: u64,
    ) -> (r: (Watch<'a>, WatchAction))
        ensures
            (r.0.deep_view(), r.1.deep_view()) == job_of(*cfg, pace.deep_view()).check_out(
                tasks.deep_view(),
                now,
            ),
    {
        if tasks.len() == 0 {
            return Self::sleep(cfg, pace, now);
        }
        let stage: WatchStage = WatchStage::CheckingOut;
        (Watch { cfg, pace, stage }, WatchAction::CheckOut(tasks))
    }

    fn sleep(cfg: &'a ResolvedConfig, pace: Pace, now: u64) -> (r: (Watch<'a>, WatchAction))
        ensures
            (r.0.deep_view(), r.1.deep_view()) == job_of(*cfg, pace.deep_view()).sleep(now),
    {
        let pace: Pace = pace.after_run(now, cfg);
        let seconds: u64 = pace.idle(now);
        let stage: WatchStage = WatchStage::Sleeping;
        (Watch { cfg, pace, stage }, WatchAction::Sleep { seconds })
    }

    fn look(cfg: &'a ResolvedConfig, pace: Pace) -> (r: (Watch<'a>, WatchAction))
        ensures
            r.0.deep_view() == job_of(*cfg, pace.deep_view()).at(WatchStageView::Ready),
            r.1.deep_view() == WatchActionView::Look,
    {
        (Watch { cfg, pace, stage: WatchStage::Ready }, WatchAction::Look)
    }

    fn run(
        cfg: &'a ResolvedConfig,
        pace: Pace,
        now: u64,
        paused: bool,
        prs: Vec<(String, String)>,
        notifications: Vec<(String, String)>,
    ) -> (r: (Watch<'a>, WatchAction))
        ensures
            (r.0.deep_view(), r.1.deep_view()) == job_of(*cfg, pace.deep_view()).run(
                now,
                paused,
                prs.deep_view(),
                notifications.deep_view(),
            ),
    {
        match turn(pace.first_run, paused) {
            Turn::Rest { millis } => {
                let stage: WatchStage = WatchStage::Resting;
                (Watch { cfg, pace, stage }, WatchAction::Rest { millis })
            },
            Turn::Sync { full_sweep } => {
                let resting: Resting = pace.resting(now, cfg.repos.len(), cfg.orgs.len());
                let repos: Vec<RepoConfig> = if resting.others {
                    let none: Vec<RepoConfig> = Vec::new();
                    assert(none.deep_view() =~= Seq::<RepoView>::empty());
                    none
                } else {
                    extra_repos(prs, &cfg.repos)
                };
                let notifications: Vec<(String, String)> = extra_slugs(notifications, &cfg.repos);
                let pace: Pace = Pace { first_run: false, started: now, ..pace };
                let stage: WatchStage = WatchStage::Syncing;
                (
                    Watch { cfg, pace, stage },
                    WatchAction::Sync { full_sweep, repos, notifications, resting },
                )
            },
        }
    }

    /// How the loop goes on when it is told something. The clock of the loop shows `now`, in
    /// seconds since some point that stays the same.
    pub fn step(self, event: WatchEvent, now: u64) -> (r: (Watch<'a>, WatchAction))
        ensures
            (r.0.deep_view(), r.1.deep_view()) == self.deep_view().next(event.deep_view(), now),
    {
        let cfg: &'a ResolvedConfig = self.cfg;
        let pace: Pace = self.pace;
        match self.stage {
            WatchStage::Ready => match event {
                WatchEvent::State { paused, prs, notifications } => Self::run(
                    cfg,
                    pace,
                    now,
                    paused,
                    prs,
                    notifications,
                ),
                _ => Self::look(cfg, pace),
            },
            WatchStage::Syncing => {
                let tasks: Vec<CheckoutTask> = Vec::new();
                assert(tasks.deep_view() =~= Seq::<TaskView>::empty());
                Self::repo_from(cfg, pace, 0, tasks, now)
            },
            WatchStage::Repo { index, tasks } => {
                if index >= cfg.repos.len() {
                    return Self::org_from(cfg, pace, 0, tasks, now);
                }
                let rows: Vec<Row> = rows_of(event);
                let known: bool = match first_id(&rows) {
                    Ok(Some(_)) => true,
                    _ => false,
                };
                let tasks: Vec<CheckoutTask> = with_tasks(
                    tasks,
                    repo_tasks(&cfg.repos[index], known),
                );
                Self::repo_from(cfg, pace, index + 1, tasks, now)
            },
            WatchStage::Org { index, tasks } => {
                if index >= cfg.orgs.len() {
                    return Self::check_out(cfg, pace, tasks, now);
                }
                let rows: Vec<Row> = rows_of(event);
                let tasks: Vec<CheckoutTask> = with_tasks(
                    tasks,
                    org_tasks(&cfg.orgs[index], &rows),
                );
                Self::org_from(cfg, pace, index + 1, tasks, now)
            },
            WatchStage::CheckingOut => Self::sleep(cfg, pace, now),
            WatchStage::Resting => Self::look(cfg, pace),
            WatchStage::Sleeping => match event {
                WatchEvent::Woken => Self::look(cfg, pace.woken(now, cfg)),
                _ => Self::look(cfg, pace),
            },
        }
    }
}

// ---- laws --------------------------------------------------------------------------
/// The loop, and what it asks for last, when it has been told these things one after the
/// other, each at a time on its clock.
pub open spec fn after(cfg: ResolvedConfig, events: Seq<(WatchEventView, u64)>) -> (
    WatchView,
    WatchActionView,
)
    decreases events.len(),
{
    if events.len() == 0 {
        WatchView::start(cfg)
    } else {
        after(cfg, events.drop_last()).0.next(events.last().0, events.last().1)
    }
}

/// Whether the loop has asked for a sync.
pub open spec fn has_synced(cfg: ResolvedConfig, events: Seq<(WatchEventView, u64)>) -> bool
    decreases events.len(),
{
    events.len() > 0 && (after(cfg, events).1 is Sync || has_synced(cfg, events.drop_last()))
}

proof fn lemma_org_from(job: WatchJob, index: int, tasks: Seq<TaskView>, now: u64)
    ensures
        job.org_from(index, tasks, now).0.job.pace.first_run == job.pace.first_run,
        !(job.org_from(index, tasks, now).1 is Sync),
    decreases job.orgs.len() - index,
{
    if 0 <= index < job.orgs.len() && !config::is_on(job.orgs[index].checkout_on_sync) {
        lemma_org_from(job, index + 1, tasks, now);
    }
}

proof fn lemma_repo_from(job: WatchJob, index: int, tasks: Seq<TaskView>, now: u64)
    ensures
        job.repo_from(index, tasks, now).0.job.pace.first_run == job.pace.first_run,
        !(job.repo_from(index, tasks, now).1 is Sync),
    decreases job.repos.len() - index,
{
    lemma_org_from(job, 0, tasks, now);
    if 0 <= index < job.repos.len() && !config::is_on(job.repos[index].checkout_on_sync) {
        lemma_repo_from(job, index + 1, tasks, now);
    }
}

proof fn lemma_next(w: WatchView, event: WatchEventView, now: u64)
    ensures
        w.next(event, now).0.job.pace.first_run == (w.job.pace.first_run && !(w.next(
            event,
            now,
        ).1 is Sync)),
        w.next(event, now).1 matches WatchActionView::Sync { full_sweep, .. } ==> {
            &&& full_sweep == w.job.pace.first_run
            &&& w.stage is Ready
            &&& event matches WatchEventView::State { paused, .. } && !paused
        },
{
    match w.stage {
        WatchStageView::Syncing => {
            lemma_repo_from(w.job, 0, Seq::empty(), now);
        },
        WatchStageView::Repo { index, tasks } => {
            lemma_org_from(w.job, 0, tasks, now);
            lemma_repo_from(
                w.job,
                index + 1,
                tasks + tasks_of_repo(w.job.repos[index], db::id_in(event.rows()) is Some),
                now,
            );
        },
        WatchStageView::Org { index, tasks } => {
            lemma_org_from(
                w.job,
                index + 1,
                tasks + tasks_of_org(w.job.orgs[index], event.rows()),
                now,
            );
        },
        _ => {},
    }
}

proof fn lemma_first_run(cfg: ResolvedConfig, events: Seq<(WatchEventView, u64)>)
    ensures
        after(cfg, events).0.job.pace.first_run == !has_synced(cfg, events),
    decreases events.len(),
{
    if events.len() > 0 {
        lemma_first_run(cfg, events.drop_last());
        lemma_next(after(cfg, events.drop_last()).0, events.last().0, events.last().1);
    }
}

proof fn lemma_not_synced(cfg: ResolvedConfig, events: Seq<(WatchEventView, u64)>)
    ensures
        !has_synced(cfg, events) ==> {
            let w = after(cfg, events).0;
            w.job.pace == PaceView::begun() && (w.stage is Ready || w.stage is Resting)
        },
    decreases events.len(),
{
    if events.len() > 0 {
        lemma_not_synced(cfg, events.drop_last());
    }
}

/// The first sync of the loop is a full sweep of everything, and no later one is.
pub proof fn first_sync_is_the_full_sweep(
    cfg: ResolvedConfig,
    events: Seq<(WatchEventView, u64)>,
    event: WatchEventView,
    now: u64,
)
    ensures
        after(cfg, events.push((event, now))).1 matches WatchActionView::Sync {
            full_sweep,
            resting,
            ..
        } ==> {
            &&& full_sweep == !has_synced(cfg, events)
            &&& full_sweep ==> !resting.others && forall|i: int|
                !resting.has_repo(i) && !resting.has_org(i)
        },
{
    assert(events.push((event, now)).drop_last() =~= events);
    lemma_first_run(cfg, events);
    lemma_not_synced(cfg, events);
    lemma_next(after(cfg, events).0, event, now);
}

pub(crate) proof fn lemma_first_of(times: Seq<u64>, one: u64)
    ensures
        first_of(times, one) <= one,
        forall|i: int| 0 <= i < times.len() ==> first_of(times, one) <= #[trigger] times[i],
        first_of(times, one) == one || times.contains(first_of(times, one)),
    decreases times.len(),
{
    if times.len() > 0 {
        let fewer = times.drop_last();
        lemma_first_of(fewer, one);
        assert forall|i: int| 0 <= i < times.len() implies first_of(times, one)
            <= #[trigger] times[i] by {
            if i < fewer.len() {
                assert(fewer[i] == times[i]);
            }
        }
        if fewer.contains(first_of(fewer, one)) {
            let k = choose|k: int| 0 <= k < fewer.len() && fewer[k] == first_of(fewer, one);
            assert(times[k] == first_of(fewer, one));
        }
        assert(times[times.len() - 1] == times.last());
    }
}

/// A repository that was synced rests for the interval that is configured for it, or for the
/// common one where none is, and then it is synced again; the loop does not sleep longer than
/// that.
pub proof fn repo_follows_its_own_interval(job: WatchJob, i: int, now: u64, later: u64)
    requires
        0 <= i < job.repos.len(),
        time_at(job.pace.repos, i) <= job.pace.started,
    ensures
        ({
            let interval = interval_of(job.repos[i].poll_interval_seconds, job.interval);
            let (w, action) = job.sleep(now);
            &&& w.job.pace.resting(later, job.repos.len(), job.orgs.len()).has_repo(i) <==> later
                < later_by(now, interval)
            &&& action matches WatchActionView::Sleep { seconds } && seconds <= interval
        }),
{
    let pace = job.sleep(now).0.job.pace;
    lemma_first_of(pace.repos, first_of(pace.orgs, pace.others));
    assert(pace.repos[i] == time_at(pace.repos, i));
}

/// An organisation that was synced rests for the interval that is configured for it, or for the
/// common one where none is, and then it is synced again; the loop does not sleep longer than
/// that.
pub proof fn organisation_follows_its_own_interval(job: WatchJob, i: int, now: u64, later: u64)
    requires
        0 <= i < job.orgs.len(),
        time_at(job.pace.orgs, i) <= job.pace.started,
    ensures
        ({
            let interval = interval_of(job.orgs[i].poll_interval_seconds, job.interval);
            let (w, action) = job.sleep(now);
            &&& w.job.pace.resting(later, job.repos.len(), job.orgs.len()).has_org(i) <==> later
                < later_by(now, interval)
            &&& action matches WatchActionView::Sleep { seconds } && seconds <= interval
        }),
{
    let pace = job.sleep(now).0.job.pace;
    lemma_first_of(pace.repos, first_of(pace.orgs, pace.others));
    lemma_first_of(pace.orgs, pace.others);
    assert(pace.orgs[i] == time_at(pace.orgs, i));
}

/// Where nothing has an interval of its own, the loop sleeps for the common one after a run, and
/// then syncs everything.
pub proof fn common_interval_is_slept(job: WatchJob, now: u64, later: u64)
    requires
        forall|i: int|
            0 <= i < job.repos.len() ==> (#[trigger] job.repos[i]).poll_interval_seconds is None
                && time_at(job.pace.repos, i) <= job.pace.started,
        forall|i: int|
            0 <= i < job.orgs.len() ==> (#[trigger] job.orgs[i]).poll_interval_seconds is None
                && time_at(job.pace.orgs, i) <= job.pace.started,
        job.pace.others <= job.pace.started,
        now + job.interval <= later,
    ensures
        job.sleep(now).1 == (WatchActionView::Sleep { seconds: job.interval }),
        ({
            let resting = job.sleep(now).0.job.pace.resting(
                later,
                job.repos.len(),
                job.orgs.len(),
            );
            !resting.others && forall|i: int| !resting.has_repo(i) && !resting.has_org(i)
        }),
{
    let pace = job.sleep(now).0.job.pace;
    let due = later_by(now, job.interval);
    assert forall|i: int| 0 <= i < pace.repos.len() implies #[trigger] pace.repos[i] == due by {
        assert(job.repos[i].poll_interval_seconds is None);
    }
    assert forall|i: int| 0 <= i < pace.orgs.len() implies #[trigger] pace.orgs[i] == due by {
        assert(job.orgs[i].poll_interval_seconds is None);
    }
    lemma_first_of(pace.orgs, pace.others);
    lemma_first_of(pace.repos, first_of(pace.orgs, pace.others));
}

/// The loop does not sync while it is paused: it syncs only when it is told that it is not.
pub proof fn paused_loop_does_not_sync(w: WatchView, event: WatchEventView, now: u64)
    ensures
        w.next(event, now).1 is Sync ==> w.stage is Ready && (event matches WatchEventView::State {
            paused,
            ..
        } && !paused),
{
    lemma_next(w, event, now);
}

/// Whenever the loop is not paused and the time of what is synced beside the configuration has
/// come, it asks for a sync of every repository that a subscription wants and that is not
/// configured.
pub proof fn wanted_repos_are_synced(
    job: WatchJob,
    now: u64,
    prs: Seq<(Seq<char>, Seq<char>)>,
    notifications: Seq<(Seq<char>, Seq<char>)>,
    owner: Seq<char>,
    name: Seq<char>,
)
    requires
        job.pace.others <= now,
        prs.contains((owner, name)),
        !is_configured(job.repos, owner, name),
    ensures
        ({
            let event = WatchEventView::State { paused: false, prs, notifications };
            job.at(WatchStageView::Ready).next(event, now).1 matches WatchActionView::Sync {
                repos,
                ..
            } && repos.contains(subscribed_repo(owner, name))
        }),
{
    let extra = unconfigured(prs, job.repos);
    let f = |e: (Seq<char>, Seq<char>)| subscribed_repo(e.0, e.1);
    subscriptions_add_what_is_not_configured(prs, job.repos, owner, name);
    let k = choose|k: int| 0 <= k < extra.len() && extra[k] == (owner, name);
    assert(extra.map_values(f)[k] == subscribed_repo(owner, name));
}

/// In every run that is asked to sync a repository for its subscribers, all its open pull requests
/// are asked for, whether or not events speak of any: once there are points left, with one query,
/// and after that its branches are.
pub proof fn subscribed_repo_is_fetched(
    plan: PlanView,
    found: FoundView,
    i: int,
    repo_id: i64,
    now: NowView,
)
    requires
        plan.filter.takes_all(),
        plan.filter.repo is None,
        sync::is_extra(plan, found, i),
        0 <= i < sync::all_repos(plan, found).len(),
        ({
            let repo = sync::all_repos(plan, found)[i];
            repo == subscribed_repo(repo.owner, repo.name)
        }),
    ensures
        ({
            let repo = sync::all_repos(plan, found)[i];
            let job = sync::job_for(repo, repo_id);
            let waiting = PrSyncView { job, stage: PrStageView::Throttle(PrScopeView::Full) };
            &&& RunView::repos_from(plan, found, i) == RunView::at(
                plan,
                found,
                RunStageView::Throttle { repo: i },
                ActionView::Throttle(Pool::Rest),
            )
            &&& RunView::events(plan, found, i, repo_id) == RunView::at(
                plan,
                found,
                RunStageView::Prs { repo: i, repo_id, sync: waiting },
                ActionView::Throttle(Pool::Graphql),
            )
            &&& waiting.next(ReplyView::Done, now) matches StepView::Do(_, action) && action == (
            ActionView::Graphql {
                endpoint: prs::endpoint_for(job, PrScopeView::Full),
                query: prs::query_for(job, PrScopeView::Full),
            })
            &&& RunView::branches(plan, found, i, repo_id) matches StepView::Do(run, _)
                && run.stage is Branches
        }),
{
}

/// Beside what is configured, exactly those repositories are synced for subscriptions that
/// are wanted and not configured.
pub proof fn subscriptions_add_what_is_not_configured(
    wanted: Seq<(Seq<char>, Seq<char>)>,
    repos: Seq<RepoView>,
    owner: Seq<char>,
    name: Seq<char>,
)
    ensures
        unconfigured(wanted, repos).contains((owner, name)) <==> wanted.contains((owner, name))
            && !is_configured(repos, owner, name),
    decreases wanted.len(),
{
    let e = (owner, name);
    let all = unconfigured(wanted, repos);
    if wanted.len() > 0 {
        let fewer = wanted.drop_last();
        let before = unconfigured(fewer, repos);
        subscriptions_add_what_is_not_configured(fewer, repos, owner, name);
        if all.contains(e) {
            let i = choose|i: int| 0 <= i < all.len() && all[i] == e;
            if i < before.len() {
                assert(before[i] == e);
                let k = choose|k: int| 0 <= k < fewer.len() && fewer[k] == e;
                assert(wanted[k] == e);
            } else {
                assert(wanted[wanted.len() - 1] == e);
            }
        }
        if wanted.contains(e) && !is_configured(repos, owner, name) {
            let k = choose|k: int| 0 <= k < wanted.len() && wanted[k] == e;
            if k < fewer.len() {
                assert(fewer[k] == e);
                let i = choose|i: int| 0 <= i < before.len() && before[i] == e;
                assert(all[i] == e);
            } else {
                assert(all[all.len() - 1] == e);
            }
        }
    }
}

} // verus!
