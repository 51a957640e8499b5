//! Discovery: which repositories a user or an organisation has.

use vstd::prelude::*;

use crate::config::{OrgConfig, OrgView, RepoConfig, RepoView};
use crate::db::{get_poll_state, poll_state_from, set_poll_state, PollState, PollStateView};
use crate::gh::{GhResponseView, Poll};
use crate::json::{Json, JsonView};
use crate::sql::{read_texts, SqlValue, SqlView, Statement, StatementView};
use crate::sync::events::last_poll;
use crate::sync::notifications::holds_text;
use crate::sync::step::{Action, ActionView, Now, NowView, Reply, ReplyView, Step, StepView};
use crate::text::{cat3, same};
use crate::time::Moment;
use crate::sync::events;
use crate::{db, gh, sql};

verus! {

/// The tag that is recorded of an account that is no organisation.
pub const NOT_ORG: &'static str = "__user__";

/// Gives the names of the repositories of an owner that are in the cache.
pub const SELECT_REPO_NAMES: &'static str = "SELECT name FROM repo WHERE owner = ? ORDER BY name";

/// The nanoseconds of a day.
pub const DAY: i128 = 86_400_000_000_000;

/// The endpoint of the repositories of an organisation.
pub open spec fn org_repos_endpoint(owner: Seq<char>) -> Seq<char> {
    "/orgs/"@ + owner + "/repos?per_page=100"@
}

/// The endpoint of the repositories of a user.
pub open spec fn user_repos_endpoint(owner: Seq<char>) -> Seq<char> {
    "/users/"@ + owner + "/repos?per_page=100"@
}

fn org_endpoint(owner: &str) -> (r: String)
    ensures
        r@ == org_repos_endpoint(owner@),
{
    cat3("/orgs/", owner, "/repos?per_page=100")
}

fn user_endpoint(owner: &str) -> (r: String)
    ensures
        r@ == user_repos_endpoint(owner@),
{
    cat3("/users/", owner, "/repos?per_page=100")
}

/// The query for the repositories of an owner that are in the cache.
pub open spec fn stored_query(owner: Seq<char>) -> StatementView {
    StatementView { sql: SELECT_REPO_NAMES@, params: seq![SqlView::Text(owner)] }
}

/// The query for the repositories of an owner that are in the cache.
pub fn repos_from_db(owner: &str) -> (r: Statement)
    ensures
        r.deep_view() == stored_query(owner@),
{
    let params: Vec<SqlValue> = vec![SqlValue::text(owner)];
    assert(params.deep_view() =~= seq![SqlView::Text(owner@)]);
    Statement { sql: SELECT_REPO_NAMES.to_owned(), params }
}

/// Whether a list was asked for less than a day ago.
pub open spec fn within_a_day(last: Option<Moment>, now: Moment) -> bool {
    match last {
        Some(l) => now.nanos_since(l) < 86_400_000_000_000,
        None => false,
    }
}

/// Whether a list was asked for less than a day ago.
pub fn asked_within_a_day(last: Option<Moment>, now: &Moment) -> (r: bool)
    ensures
        r == within_a_day(last, *now),
{
    match last {
        Some(l) => now.elapsed_nanos(&l) < DAY,
        None => false,
    }
}

/// The names in a list of repositories; a repository without a name is left out, and a
/// body that is no list holds none.
pub open spec fn names_in(repos: Seq<JsonView>) -> Seq<Seq<char>>
    decreases repos.len(),
{
    if repos.len() == 0 {
        Seq::empty()
    } else {
        let before = names_in(repos.drop_last());
        match repos.last().at("name"@).as_str() {
            Some(n) => before.push(n),
            None => before,
        }
    }
}

/// The names of the repositories in the body of an answer.
pub open spec fn names_of(body: JsonView) -> Seq<Seq<char>> {
    match body {
        JsonView::Array(repos) => names_in(repos),
        _ => Seq::empty(),
    }
}

/// The names of the repositories in the body of an answer.
pub fn repo_names(body: &Json) -> (r: Vec<String>)
    ensures
        r.deep_view() == names_of(body.deep_view()),
{
    let mut out: Vec<String> = Vec::new();
    assert(out.deep_view() =~= Seq::<Seq<char>>::empty());
    if let Some(repos) = body.as_array() {
        let ghost all = repos.deep_view();
        let mut i: usize = 0;
        assert(all.take(0) =~= Seq::empty());
        while i < repos.len()
            invariant
                i <= repos.len(),
                all == repos.deep_view(),
                out.deep_view() == names_in(all.take(i as int)),
            decreases repos.len() - i,
        {
            let ghost before = out.deep_view();
            proof {
                assert(all.take(i + 1).drop_last() =~= all.take(i as int));
                assert(all.take(i + 1).last() == repos@[i as int].deep_view());
            }
            if let Some(n) = repos[i].at("name").as_str() {
                out.push(n.to_owned());
                assert(out.deep_view() =~= before.push(n@));
            }
            i += 1;
        }
        assert(all.take(i as int) =~= all);
    }
    out
}

// ---- the discovery -----------------------------------------------------------------
/// A discovery of the repositories of one owner.
pub struct Discovery {
    owner: String,
    stage: DiscoveryStage,
}

/// What a discovery waits for.
#[derive(Clone, Copy, PartialEq, Eq, Structural)]
pub enum DiscoveryStage {
    /// The state of the endpoint for organisations.
    OrgPoll,
    /// The answer of the endpoint for organisations.
    OrgCall,
    /// That it is recorded that the owner is no organisation.
    NotOrg,
    /// The state of the endpoint for users.
    UserPoll,
    /// The answer of the endpoint for users.
    UserCall,
    /// The names in the cache.
    Stored,
}

/// What a discovery is.
pub struct DiscoveryView {
    pub owner: Seq<char>,
    pub stage: DiscoveryStage,
}

/// How a discovery goes on; its result is the list of the names of the repositories.
pub type DiscoveryStep = StepView<DiscoveryView, Seq<Seq<char>>>;

impl DeepView for Discovery {
    type V = DiscoveryView;

    closed spec fn deep_view(&self) -> DiscoveryView {
        DiscoveryView { owner: self.owner@, stage: self.stage }
    }
}

impl DiscoveryView {
    /// A discovery at its beginning, and what it asks for first.
    pub open spec fn start(owner: Seq<char>) -> (DiscoveryView, ActionView) {
        (
            DiscoveryView { owner, stage: DiscoveryStage::OrgPoll },
            ActionView::Query(db::poll_query(org_repos_endpoint(owner))),
        )
    }

    /// The step that asks the cache.
    pub open spec fn ask_cache(owner: Seq<char>) -> DiscoveryStep {
        StepView::Do(
            DiscoveryView { owner, stage: DiscoveryStage::Stored },
            ActionView::Query(stored_query(owner)),
        )
    }

    /// The step that asks how things stand with the endpoint for users.
    pub open spec fn ask_user(owner: Seq<char>) -> DiscoveryStep {
        StepView::Do(
            DiscoveryView { owner, stage: DiscoveryStage::UserPoll },
            ActionView::Query(db::poll_query(user_repos_endpoint(owner))),
        )
    }

    /// The step that follows the state of the endpoint for organisations: within a day of
    /// the last time the cache is asked, an account that is known to be no organisation is
    /// asked for as a user, and any other as an organisation.
    pub open spec fn begin(owner: Seq<char>, poll: PollStateView, now: Moment) -> DiscoveryStep {
        if within_a_day(events::last_asked(poll), now) {
            Self::ask_cache(owner)
        } else if poll.etag == Some(NOT_ORG@) {
            Self::ask_user(owner)
        } else {
            StepView::Do(
                DiscoveryView { owner, stage: DiscoveryStage::OrgCall },
                ActionView::Call(gh::pages_request(org_repos_endpoint(owner), poll.etag)),
            )
        }
    }

    /// The step that a discovery takes when it is told what came of its last action.
    pub open spec fn next(self, reply: ReplyView, now: NowView) -> DiscoveryStep {
        let owner = self.owner;
        match (self.stage, reply) {
            (DiscoveryStage::OrgPoll, ReplyView::Rows(rows)) => match db::polled_state(rows) {
                Some(poll) => Self::begin(owner, poll, now.moment),
                None => StepView::Failed,
            },
            (DiscoveryStage::OrgCall, ReplyView::Answer(resp)) => if resp.status == 404 {
                StepView::Do(
                    DiscoveryView { owner, stage: DiscoveryStage::NotOrg },
                    ActionView::Execute(
                        db::poll_record(
                            org_repos_endpoint(owner),
                            Some(NOT_ORG@),
                            None,
                            None,
                            false,
                            now.text,
                        ),
                    ),
                )
            } else if resp.status == 304 {
                Self::ask_cache(owner)
            } else {
                StepView::Finished(names_of(resp.body))
            },
            (DiscoveryStage::NotOrg, ReplyView::Executed { changed, row_id }) => Self::ask_user(
                owner,
            ),
            (DiscoveryStage::UserPoll, ReplyView::Rows(rows)) => match db::polled_state(rows) {
                Some(poll) => StepView::Do(
                    DiscoveryView { owner, stage: DiscoveryStage::UserCall },
                    ActionView::Call(gh::pages_request(user_repos_endpoint(owner), poll.etag)),
                ),
                None => StepView::Failed,
            },
            (DiscoveryStage::UserCall, ReplyView::Answer(resp)) => if resp.status == 304 {
                Self::ask_cache(owner)
            } else {
                StepView::Finished(names_of(resp.body))
            },
            (DiscoveryStage::Stored, ReplyView::Rows(rows)) => match sql::texts_of(rows) {
                Some(names) => StepView::Finished(names),
                None => StepView::Failed,
            },
            _ => StepView::Failed,
        }
    }
}

impl Discovery {
    /// A discovery at its beginning, and what it asks for first.
    pub fn start(owner: String) -> (r: (Discovery, Action))
        ensures
            (r.0.deep_view(), r.1.deep_view()) == DiscoveryView::start(owner@),
    {
        let endpoint: String = org_endpoint(owner.as_str());
        let query: Statement = get_poll_state(endpoint.as_str());
        (Discovery { owner, stage: DiscoveryStage::OrgPoll }, Action::Query(query))
    }

    fn ask_cache(owner: String) -> (r: Step<Discovery, Vec<String>>)
        ensures
            r.deep_view() == DiscoveryView::ask_cache(owner@),
    {
        let query: Statement = repos_from_db(owner.as_str());
        Step::Do(Discovery { owner, stage: DiscoveryStage::Stored }, Action::Query(query))
    }

    fn ask_user(owner: String) -> (r: Step<Discovery, Vec<String>>)
        ensures
            r.deep_view() == DiscoveryView::ask_user(owner@),
    {
        let endpoint: String = user_endpoint(owner.as_str());
        let query: Statement = get_poll_state(endpoint.as_str());
        Step::Do(Discovery { owner, stage: DiscoveryStage::UserPoll }, Action::Query(query))
    }

    fn begin(owner: String, poll: PollState, now: &Now) -> (r: Step<Discovery, Vec<String>>)
        ensures
            r.deep_view() == DiscoveryView::begin(owner@, poll.deep_view(), now.moment),
    {
        if asked_within_a_day(last_poll(&poll), &now.moment) {
            return Discovery::ask_cache(owner);
        }
        let is_user: bool = match &poll.etag {
            Some(tag) => same(tag.as_str(), NOT_ORG),
            None => false,
        };
        if is_user {
            Discovery::ask_user(owner)
        } else {
            let endpoint: String = org_endpoint(owner.as_str());
            Step::Do(
                Discovery { owner, stage: DiscoveryStage::OrgCall },
                Action::Call(Poll::pages(endpoint, poll.etag)),
            )
        }
    }

    /// Goes on with what came of the last action. The result is the list of the names of
    /// the repositories.
    pub fn step(self, reply: Reply, now: &Now) -> (r: Step<Discovery, Vec<String>>)
        ensures
            r.deep_view() == self.deep_view().next(reply.deep_view(), now.deep_view()),
    {
        let owner: String = self.owner;
        match (self.stage, reply) {
            (DiscoveryStage::OrgPoll, Reply::Rows(rows)) => match poll_state_from(&rows) {
                Ok(poll) => Discovery::begin(owner, poll, now),
                Err(_) => Step::Failed,
            },
            (DiscoveryStage::OrgCall, Reply::Answer(resp)) => {
                if resp.status == 404 {
                    let endpoint: String = org_endpoint(owner.as_str());
                    let record: Statement = set_poll_state(
                        endpoint.as_str(),
                        Some(NOT_ORG),
                        None,
                        None,
                        false,
                        now.text.as_str(),
                    );
                    Step::Do(
                        Discovery { owner, stage: DiscoveryStage::NotOrg },
                        Action::Execute(record),
                    )
                } else if resp.is_not_modified() {
                    Discovery::ask_cache(owner)
                } else {
                    Step::Finished(repo_names(&resp.body))
                }
            },
            (DiscoveryStage::NotOrg, Reply::Executed { .. }) => Discovery::ask_user(owner),
            (DiscoveryStage::UserPoll, Reply::Rows(rows)) => match poll_state_from(&rows) {
                Ok(poll) => {
                    let endpoint: String = user_endpoint(owner.as_str());
                    Step::Do(
                        Discovery { owner, stage: DiscoveryStage::UserCall },
                        Action::Call(Poll::pages(endpoint, poll.etag)),
                    )
                },
                Err(_) => Step::Failed,
            },
            (DiscoveryStage::UserCall, Reply::Answer(resp)) => {
                if resp.is_not_modified() {
                    Discovery::ask_cache(owner)
                } else {
                    Step::Finished(repo_names(&resp.body))
                }
            },
            (DiscoveryStage::Stored, Reply::Rows(rows)) => match read_texts(&rows) {
                Some(names) => Step::Finished(names),
                None => Step::Failed,
            },
            _ => Step::Failed,
        }
    }
}

// ---- the repositories of an organisation -------------------------------------------
/// The configuration of a repository of an organisation: that of the organisation, with
/// the repository's name and no default branch.
pub open spec fn repo_in(org: OrgView, name: Seq<char>) -> RepoView {
    RepoView {
        owner: org.owner,
        name,
        default_branch: None,
        sync_prs: org.sync_prs,
        sync_notifications: org.sync_notifications,
        sync_events: org.sync_events,
        sync_branches: org.sync_branches,
        checkout_on_sync: org.checkout_on_sync,
        poll_interval_seconds: org.poll_interval_seconds,
        fs_alias: org.fs_alias,
    }
}

/// The configurations of the repositories with the given names, without those that are
/// left out.
pub open spec fn repos_in(org: OrgView, names: Seq<Seq<char>>) -> Seq<RepoView>
    decreases names.len(),
{
    if names.len() == 0 {
        Seq::empty()
    } else {
        let before = repos_in(org, names.drop_last());
        if org.exclude.contains(names.last()) {
            before
        } else {
            before.push(repo_in(org, names.last()))
        }
    }
}

/// A copy of a list of patterns.
pub fn copy_patterns(patterns: &Option<Vec<String>>) -> (r: Option<Vec<String>>)
    ensures
        r.deep_view() == patterns.deep_view(),
{
    match patterns {
        Some(v) => Some(v.clone()),
        None => None,
    }
}

/// A copy of a text that may be missing.
pub fn copy_text(text: &Option<String>) -> (r: Option<String>)
    ensures
        r.deep_view() == text.deep_view(),
{
    match text {
        Some(t) => Some(t.clone()),
        None => None,
    }
}

/// The configurations of the repositories of an organisation that have the given names,
/// without those that the organisation leaves out.
pub fn org_to_repos(org: &OrgConfig, names: Vec<String>) -> (r: Vec<RepoConfig>)
    ensures
        r.deep_view() == repos_in(org.deep_view(), names.deep_view()),
{
    let ghost all = names.deep_view();
    let mut out: Vec<RepoConfig> = Vec::new();
    let mut i: usize = 0;
    assert(all.take(0) =~= Seq::empty());
    assert(out.deep_view() =~= Seq::<RepoView>::empty());
    while i < names.len()
        invariant
            i <= names.len(),
            all == names.deep_view(),
            out.deep_view() == repos_in(org.deep_view(), all.take(i as int)),
        decreases names.len() - i,
    {
        let ghost before = out.deep_view();
        proof {
            assert(all.take(i + 1).drop_last() =~= all.take(i as int));
            assert(all.take(i + 1).last() == names@[i as int]@);
        }
        if !holds_text(&org.exclude, names[i].as_str()) {
            let repo: RepoConfig = RepoConfig {
                owner: org.owner.clone(),
                name: names[i].clone(),
                default_branch: None,
                sync_prs: org.sync_prs,
                sync_notifications: org.sync_notifications,
                sync_events: org.sync_events,
                sync_branches: copy_patterns(&org.sync_branches),
                checkout_on_sync: org.checkout_on_sync,
                poll_interval_seconds: org.poll_interval_seconds,
                fs_alias: copy_text(&org.fs_alias),
            };
            assert(repo.deep_view() =~= repo_in(org.deep_view(), names@[i as int]@));
            out.push(repo);
            assert(out.deep_view() =~= before.push(repo_in(org.deep_view(), names@[i as int]@)));
        }
        i += 1;
    }
    assert(all.take(i as int) =~= all);
    out
}

// ---- what holds of every discovery -------------------------------------------------
/// A list that was asked for less than a day ago is taken from the cache, without a call.
pub proof fn recent_list_comes_from_the_cache(
    sync: DiscoveryView,
    rows: Seq<Seq<SqlView>>,
    poll: PollStateView,
    last: Moment,
    now: NowView,
)
    requires
        sync.stage is OrgPoll,
        db::polled_state(rows) == Some(poll),
        events::last_asked(poll) == Some(last),
        now.moment.nanos_since(last) < 86_400_000_000_000,
    ensures
        sync.next(ReplyView::Rows(rows), now) == DiscoveryView::ask_cache(sync.owner),
{
}

/// An answer that says that nothing has changed makes the list be taken from the cache.
pub proof fn unchanged_list_comes_from_the_cache(
    sync: DiscoveryView,
    resp: GhResponseView,
    now: NowView,
)
    requires
        sync.stage is OrgCall || sync.stage is UserCall,
        resp.status == 304,
    ensures
        sync.next(ReplyView::Answer(resp), now) == DiscoveryView::ask_cache(sync.owner),
{
}

/// An owner of which GitHub knows no organisation is remembered as a user and asked for as
/// one, and from then on is asked for as a user at once.
pub proof fn unknown_organisation_is_asked_for_as_a_user(
    owner: Seq<char>,
    resp: GhResponseView,
    changed: u64,
    row_id: i64,
    poll: PollStateView,
    now: NowView,
    later: NowView,
)
    requires
        resp.status == 404,
        poll.etag == Some(NOT_ORG@),
        !within_a_day(events::last_asked(poll), later.moment),
    ensures
        (DiscoveryView { owner, stage: DiscoveryStage::OrgCall }).next(
            ReplyView::Answer(resp),
            now,
        ) == DiscoveryStep::Do(
            DiscoveryView { owner, stage: DiscoveryStage::NotOrg },
            ActionView::Execute(
                db::poll_record(
                    org_repos_endpoint(owner),
                    Some(NOT_ORG@),
                    None,
                    None,
                    false,
                    now.text,
                ),
            ),
        ),
        (DiscoveryView { owner, stage: DiscoveryStage::NotOrg }).next(
            ReplyView::Executed { changed, row_id },
            now,
        ) == DiscoveryView::ask_user(owner),
        DiscoveryView::begin(owner, poll, later.moment) == DiscoveryView::ask_user(owner),
{
}

/// The repositories of an organisation are those that were found, in their order, without
/// those that it leaves out; each is configured as the organisation is.
pub proof fn excluded_repos_are_left_out(org: OrgView, names: Seq<Seq<char>>)
    ensures
        forall|i: int|
            0 <= i < repos_in(org, names).len() ==> {
                let repo = #[trigger] repos_in(org, names)[i];
                &&& repo == repo_in(org, repo.name)
                &&& !org.exclude.contains(repo.name)
                &&& names.contains(repo.name)
            },
        forall|k: int|
            0 <= k < names.len() && !org.exclude.contains(#[trigger] names[k]) ==> repos_in(
                org,
                names,
            ).contains(repo_in(org, names[k])),
    decreases names.len(),
{
    if names.len() > 0 {
        let before = names.drop_last();
        let all = repos_in(org, names);
        excluded_repos_are_left_out(org, before);
        assert forall|i: int| 0 <= i < all.len() implies {
            let repo = #[trigger] all[i];
            &&& repo == repo_in(org, repo.name)
            &&& !org.exclude.contains(repo.name)
            &&& names.contains(repo.name)
        } by {
            if i < repos_in(org, before).len() {
                let repo = repos_in(org, before)[i];
                assert(all[i] == repo);
                let k = choose|k: int| 0 <= k < before.len() && before[k] == repo.name;
                assert(names[k] == repo.name);
            } else {
                assert(names[names.len() - 1] == all[i].name);
            }
        }
        assert forall|k: int|
            0 <= k < names.len() && !org.exclude.contains(#[trigger] names[k]) implies all.contains(
            repo_in(org, names[k]),
        ) by {
            if k < before.len() {
                assert(before[k] == names[k]);
                let old = repos_in(org, before);
                let j = choose|j: int| 0 <= j < old.len() && old[j] == repo_in(org, names[k]);
                assert(all[j] == repo_in(org, names[k]));
            } else {
                assert(all[all.len() - 1] == repo_in(org, names[k]));
            }
        }
    }
}

} // verus!
