//! Events: the cheapest sign of what has changed on GitHub. The events of a repository,
//! or of a whole organisation, are recorded once each, and the pull requests that the new
//! ones speak of are to be fetched again.

use vstd::hash_map::StringHashMap;
use vstd::prelude::*;

use crate::db::{
    first_id, get_poll_state, get_repo_id, log_change, poll_state_from, ChangeEvent, PollState,
    PollStateView,
};
use crate::gh::{GhResponseView, Poll};
use crate::json::{to_text, Json, JsonView};
use crate::sql::{SqlValue, SqlView, Statement, StatementView};
use crate::sync::dirty::{no_numbers, push_number, PrTable};
use crate::sync::step::{
    Action, ActionView, Now, NowView, RepoJob, RepoJobView, Reply, ReplyView, Step, StepView,
};
use crate::text::{cat3, cut, same};
use crate::time::{parse_moment, Moment};
use crate::sync::dirty;
use crate::{db, gh, json, sql, text, time};

verus! {

// ---- when to ask -------------------------------------------------------------------
/// Whether so much time has passed since an endpoint was last asked that it may be asked
/// again. One that was never asked, or that named no interval, may always be.
pub open spec fn due_after(last: Option<Moment>, interval: Option<i64>, now: Moment) -> bool {
    match (last, interval) {
        (Some(l), Some(i)) => now.seconds_since(l) >= i,
        _ => true,
    }
}

/// Whether so much time has passed since an endpoint was last asked that it may be asked
/// again.
pub fn elapsed_enough(last: Option<Moment>, interval: Option<i64>, now: &Moment) -> (r: bool)
    ensures
        r == due_after(last, interval, *now),
{
    match (last, interval) {
        (Some(l), Some(i)) => now.elapsed_seconds(&l) >= i as i128,
        _ => true,
    }
}

/// The point in time at which an endpoint was last asked, if it is recorded in a form
/// that can be read.
pub open spec fn last_asked(poll: PollStateView) -> Option<Moment> {
    match poll.last_polled_at {
        Some(t) => time::moment_of(t),
        None => None,
    }
}

/// The point in time at which an endpoint was last asked.
pub fn last_poll(poll: &PollState) -> (r: Option<Moment>)
    ensures
        r == last_asked(poll.deep_view()),
{
    match &poll.last_polled_at {
        Some(t) => parse_moment(t.as_str()),
        None => None,
    }
}

/// Whether an endpoint may be asked again.
pub open spec fn is_due(poll: PollStateView, now: Moment) -> bool {
    due_after(last_asked(poll), poll.poll_interval, now)
}

/// Whether an endpoint may be asked again.
pub fn due(poll: &PollState, now: &Moment) -> (r: bool)
    ensures
        r == is_due(poll.deep_view(), *now),
{
    elapsed_enough(last_poll(poll), poll.poll_interval, now)
}

// ---- one event ---------------------------------------------------------------------
/// Records an event, unless it is recorded already.
pub const INSERT_EVENT: &'static str = "INSERT OR IGNORE INTO repo_event (repo_id, gh_id, type, actor, payload_json, created_at)
             VALUES (?, ?, ?, ?, ?, ?)";

/// The number of the pull request that an event speaks of, if it speaks of one.
pub open spec fn event_pr(ev_type: Seq<char>, payload: JsonView) -> Option<i64> {
    if ev_type == "PullRequestEvent"@ {
        payload.at("number"@).as_i64()
    } else if ev_type == "PullRequestReviewEvent"@ {
        payload.at("pull_request"@).at("number"@).as_i64()
    } else {
        None
    }
}

/// The number of the pull request that an event speaks of, if it speaks of one.
pub fn pr_number_from_event(ev_type: &str, payload: &Json) -> (r: Option<i64>)
    ensures
        r == event_pr(ev_type@, payload.deep_view()),
{
    if same(ev_type, "PullRequestEvent") {
        payload.at("number").as_i64()
    } else if same(ev_type, "PullRequestReviewEvent") {
        payload.at("pull_request").at("number").as_i64()
    } else {
        None
    }
}

/// The statement that records an event of a repository.
pub open spec fn event_record(repo_id: i64, gh_id: Seq<char>, ev: JsonView) -> StatementView {
    StatementView {
        sql: INSERT_EVENT@,
        params: seq![
            SqlView::Integer(repo_id),
            SqlView::Text(gh_id),
            SqlView::Text(ev.at("type"@).str_or(""@)),
            sql::text_or_null(ev.at("actor"@).at("login"@).as_str()),
            SqlView::Text(json::compact_text(ev.at("payload"@))),
            SqlView::Text(ev.at("created_at"@).str_or(""@)),
        ],
    }
}

/// The statement that records an event of a repository under the id that GitHub gave it.
pub fn insert_event(repo_id: i64, gh_id: &str, ev: &Json) -> (r: Statement)
    ensures
        r.deep_view() == event_record(repo_id, gh_id@, ev.deep_view()),
{
    let params: Vec<SqlValue> = vec![
        SqlValue::Integer(repo_id),
        SqlValue::text(gh_id),
        SqlValue::text(ev.at("type").str_or("")),
        SqlValue::opt_text(ev.at("actor").at("login").as_str()),
        SqlValue::Text(to_text(ev.at("payload"))),
        SqlValue::text(ev.at("created_at").str_or("")),
    ];
    let r: Statement = Statement { sql: INSERT_EVENT.to_owned(), params };
    assert(r.deep_view() =~= event_record(repo_id, gh_id@, ev.deep_view()));
    r
}

/// The pull request that an event, as GitHub sends it, speaks of.
pub open spec fn pr_of(ev: JsonView) -> Option<i64> {
    event_pr(ev.at("type"@).str_or(""@), ev.at("payload"@))
}

fn changed_pr(ev: &Json) -> (r: Option<i64>)
    ensures
        r == pr_of(ev.deep_view()),
{
    pr_number_from_event(ev.at("type").str_or(""), ev.at("payload"))
}

/// The list with the number of a pull request added, if there is one.
pub open spec fn with_pr(dirty: Seq<i64>, pr: Option<i64>) -> Seq<i64> {
    match pr {
        Some(n) => dirty.push(n),
        None => dirty,
    }
}

// ---- the events of a repository ----------------------------------------------------
/// A sync of the events of one repository.
pub struct EventSync {
    job: RepoJob,
    stage: EventStage,
}

/// What a sync of events waits for.
enum EventStage {
    /// The state of the endpoint.
    Poll,
    /// The answer with the events.
    Call,
    /// That an event is recorded. The events from `next` on are still to come.
    Insert { events: Vec<Json>, next: usize, pr: Option<i64>, dirty: Vec<i64> },
    /// That the change is logged.
    Log { events: Vec<Json>, next: usize, pr: Option<i64>, dirty: Vec<i64> },
}

/// What a sync of events is.
pub struct EventSyncView {
    pub job: RepoJobView,
    pub stage: EventStageView,
}

/// What a sync of events waits for.
pub enum EventStageView {
    Poll,
    Call,
    Insert { events: Seq<JsonView>, next: int, pr: Option<i64>, dirty: Seq<i64> },
    Log { events: Seq<JsonView>, next: int, pr: Option<i64>, dirty: Seq<i64> },
}

/// How a sync of events goes on; its result is the list of the pull requests that the new
/// events speak of.
pub type EventStep = StepView<EventSyncView, Seq<i64>>;

impl DeepView for EventSync {
    type V = EventSyncView;

    closed spec fn deep_view(&self) -> EventSyncView {
        EventSyncView {
            job: self.job.deep_view(),
            stage: match self.stage {
                EventStage::Poll => EventStageView::Poll,
                EventStage::Call => EventStageView::Call,
                EventStage::Insert { events, next, pr, dirty } => EventStageView::Insert {
                    events: events.deep_view(),
                    next: next as int,
                    pr,
                    dirty: dirty.deep_view(),
                },
                EventStage::Log { events, next, pr, dirty } => EventStageView::Log {
                    events: events.deep_view(),
                    next: next as int,
                    pr,
                    dirty: dirty.deep_view(),
                },
            },
        }
    }
}

impl EventSyncView {
    /// A sync at its beginning, and what it asks for first.
    pub open spec fn start(job: RepoJobView) -> (EventSyncView, ActionView) {
        (
            EventSyncView { job, stage: EventStageView::Poll },
            ActionView::Query(db::poll_query(job.endpoint("/events"@))),
        )
    }

    /// The step that asks for the events, if it is time to ask.
    pub open spec fn ask(job: RepoJobView, poll: PollStateView, now: Moment) -> EventStep {
        if is_due(poll, now) {
            StepView::Do(
                EventSyncView { job, stage: EventStageView::Call },
                ActionView::Call(gh::pages_request(job.endpoint("/events"@), poll.etag)),
            )
        } else {
            StepView::Finished(Seq::empty())
        }
    }

    /// The step to the first event from `i` on that has an id, or to the end.
    pub open spec fn seek(
        job: RepoJobView,
        events: Seq<JsonView>,
        i: int,
        dirty: Seq<i64>,
    ) -> EventStep
        decreases events.len() - i,
    {
        if i < 0 || i >= events.len() {
            StepView::Finished(dirty)
        } else {
            match events[i].at("id"@).as_str() {
                Some(gh_id) => StepView::Do(
                    EventSyncView {
                        job,
                        stage: EventStageView::Insert {
                            events,
                            next: i + 1,
                            pr: pr_of(events[i]),
                            dirty,
                        },
                    },
                    ActionView::Execute(event_record(job.repo_id, gh_id, events[i])),
                ),
                None => Self::seek(job, events, i + 1, dirty),
            }
        }
    }

    /// The step that a sync takes when it is told what came of its last action.
    pub open spec fn next(self, reply: ReplyView, now: NowView) -> EventStep {
        let job = self.job;
        match (self.stage, reply) {
            (EventStageView::Poll, ReplyView::Rows(rows)) => match db::polled_state(rows) {
                Some(poll) => Self::ask(job, poll, now.moment),
                None => StepView::Failed,
            },
            (EventStageView::Call, ReplyView::Answer(resp)) => if resp.status == 304 {
                StepView::Finished(Seq::empty())
            } else {
                match resp.body.as_array() {
                    Some(events) => Self::seek(job, events, 0, Seq::empty()),
                    None => StepView::Finished(Seq::empty()),
                }
            },
            (
                EventStageView::Insert { events, next, pr, dirty },
                ReplyView::Executed { changed, row_id },
            ) => if changed > 0 {
                StepView::Do(
                    EventSyncView { job, stage: EventStageView::Log { events, next, pr, dirty } },
                    ActionView::Execute(
                        db::change_record(
                            "repo_event"@,
                            row_id,
                            ChangeEvent::Inserted,
                            Some(job.slug()),
                            None,
                        ),
                    ),
                )
            } else {
                Self::seek(job, events, next, dirty)
            },
            (
                EventStageView::Log { events, next, pr, dirty },
                ReplyView::Executed { changed, row_id },
            ) => Self::seek(job, events, next, with_pr(dirty, pr)),
            _ => StepView::Failed,
        }
    }
}

/// A sync of the events of a repository at its beginning, and what it asks for first.
pub fn sync(job: RepoJob) -> (r: (EventSync, Action))
    ensures
        (r.0.deep_view(), r.1.deep_view()) == EventSyncView::start(job.deep_view()),
{
    let endpoint: String = job.endpoint("/events");
    let query: Statement = get_poll_state(endpoint.as_str());
    (EventSync { job, stage: EventStage::Poll }, Action::Query(query))
}

impl EventSync {
    fn ask(job: RepoJob, poll: PollState, now: &Now) -> (r: Step<EventSync, Vec<i64>>)
        ensures
            r.deep_view() == EventSyncView::ask(job.deep_view(), poll.deep_view(), now.moment),
    {
        if due(&poll, &now.moment) {
            let endpoint: String = job.endpoint("/events");
            Step::Do(
                EventSync { job, stage: EventStage::Call },
                Action::Call(Poll::pages(endpoint, poll.etag)),
            )
        } else {
            Step::Finished(no_numbers())
        }
    }

    fn seek(job: RepoJob, events: Vec<Json>, from: usize, dirty: Vec<i64>) -> (r: Step<
        EventSync,
        Vec<i64>,
    >)
        ensures
            r.deep_view() == EventSyncView::seek(
                job.deep_view(),
                events.deep_view(),
                from as int,
                dirty.deep_view(),
            ),
    {
        let ghost all = events.deep_view();
        let ghost found = dirty.deep_view();
        let mut i: usize = from;
        while i < events.len()
            invariant
                all == events.deep_view(),
                found == dirty.deep_view(),
                EventSyncView::seek(job.deep_view(), all, from as int, found)
                    == EventSyncView::seek(job.deep_view(), all, i as int, found),
            decreases events.len() - i,
        {
            if let Some(gh_id) = events[i].at("id").as_str() {
                let record: Statement = insert_event(job.repo_id, gh_id, &events[i]);
                let pr: Option<i64> = changed_pr(&events[i]);
                return Step::Do(
                    EventSync { job, stage: EventStage::Insert { events, next: i + 1, pr, dirty } },
                    Action::Execute(record),
                );
            }
            i += 1;
        }
        Step::Finished(dirty)
    }

    /// Goes on with what came of the last action. The result is the list of the pull
    /// requests that the new events speak of.
    pub fn step(self, reply: Reply, now: &Now) -> (r: Step<EventSync, Vec<i64>>)
        ensures
            r.deep_view() == self.deep_view().next(reply.deep_view(), now.deep_view()),
    {
        let job: RepoJob = self.job;
        match (self.stage, reply) {
            (EventStage::Poll, Reply::Rows(rows)) => match poll_state_from(&rows) {
                Ok(poll) => EventSync::ask(job, poll, now),
                Err(_) => Step::Failed,
            },
            (EventStage::Call, Reply::Answer(resp)) => {
                if resp.is_not_modified() {
                    Step::Finished(no_numbers())
                } else {
                    match resp.body.into_array() {
                        Some(events) => EventSync::seek(job, events, 0, no_numbers()),
                        None => Step::Finished(no_numbers()),
                    }
                }
            },
            (
                EventStage::Insert { events, next, pr, dirty },
                Reply::Executed { changed, row_id },
            ) => {
                if changed > 0 {
                    let name: String = job.slug();
                    let record: Statement = log_change(
                        "repo_event",
                        row_id,
                        ChangeEvent::Inserted,
                        Some(name.as_str()),
                        None,
                    );
                    Step::Do(
                        EventSync { job, stage: EventStage::Log { events, next, pr, dirty } },
                        Action::Execute(record),
                    )
                } else {
                    EventSync::seek(job, events, next, dirty)
                }
            },
            (EventStage::Log { events, next, pr, mut dirty }, Reply::Executed { .. }) => {
                if let Some(n) = pr {
                    push_number(&mut dirty, n);
                }
                EventSync::seek(job, events, next, dirty)
            },
            _ => Step::Failed,
        }
    }
}

// ---- the events of an organisation -------------------------------------------------
/// An event of an organisation, with the repository that it belongs to.
struct Located {
    event: Json,
    slug: String,
    name: String,
}

/// What an event of an organisation is.
pub struct LocatedView {
    pub event: JsonView,
    pub slug: Seq<char>,
    pub name: Seq<char>,
}

impl DeepView for Located {
    type V = LocatedView;

    closed spec fn deep_view(&self) -> LocatedView {
        LocatedView { event: self.event.deep_view(), slug: self.slug@, name: self.name@ }
    }
}

/// The full name of the repository of an event, and the part of it after the owner. An
/// event without an id, or whose repository is not named with its owner, is left out.
pub open spec fn located(ev: JsonView) -> Option<LocatedView> {
    match ev.at("repo"@).at("name"@).as_str() {
        Some(slug) => match text::cut_at(slug, '/') {
            Some((owner, name)) => if ev.at("id"@).as_str() is Some {
                Some(LocatedView { event: ev, slug, name })
            } else {
                None
            },
            None => None,
        },
        None => None,
    }
}

fn locate(ev: &Json) -> (r: Option<Located>)
    ensures
        r.deep_view() == located(ev.deep_view()),
{
    let slug: &str = match ev.at("repo").at("name").as_str() {
        Some(s) => s,
        None => {
            return None;
        },
    };
    match cut(slug, '/') {
        Some((_, name)) => {
            if ev.at("id").as_str().is_some() {
                Some(Located { event: ev.copy(), slug: slug.to_owned(), name: name.to_owned() })
            } else {
                None
            }
        },
        None => None,
    }
}

/// A sync of the events of all repositories of an organisation.
pub struct OrgEventSync {
    owner: String,
    stage: OrgStage,
}

/// How far a sync has come with the events that it was sent: which are still to come, the
/// ids of the repositories that were looked up, and the pull requests found so far.
struct Progress {
    events: Vec<Json>,
    next: usize,
    ids: StringHashMap<Option<i64>>,
    dirty: PrTable,
}

/// What a sync of the events of an organisation waits for.
enum OrgStage {
    /// The state of the endpoint.
    Poll,
    /// The answer with the events.
    Call,
    /// The id of the repository of an event.
    Lookup(Located, Progress),
    /// That an event is recorded.
    Insert(Located, Progress),
    /// That the change is logged.
    Log(Located, Progress),
}

/// What a sync of the events of an organisation is.
pub struct OrgEventSyncView {
    pub owner: Seq<char>,
    pub stage: OrgStageView,
}

/// How far a sync has come with the events that it was sent.
pub struct ProgressView {
    pub events: Seq<JsonView>,
    pub next: int,
    pub ids: Map<Seq<char>, Option<i64>>,
    pub dirty: Map<(Seq<char>, Seq<char>), Seq<i64>>,
}

/// What a sync of the events of an organisation waits for.
pub enum OrgStageView {
    Poll,
    Call,
    Lookup(LocatedView, ProgressView),
    Insert(LocatedView, ProgressView),
    Log(LocatedView, ProgressView),
}

/// How a sync of the events of an organisation goes on; its result names the pull
/// requests that the new events speak of.
pub type OrgStep = StepView<OrgEventSyncView, Map<(Seq<char>, Seq<char>), Seq<i64>>>;

impl DeepView for Progress {
    type V = ProgressView;

    closed spec fn deep_view(&self) -> ProgressView {
        ProgressView {
            events: self.events.deep_view(),
            next: self.next as int,
            ids: self.ids@,
            dirty: self.dirty.deep_view(),
        }
    }
}

impl DeepView for OrgEventSync {
    type V = OrgEventSyncView;

    closed spec fn deep_view(&self) -> OrgEventSyncView {
        OrgEventSyncView {
            owner: self.owner@,
            stage: match self.stage {
                OrgStage::Poll => OrgStageView::Poll,
                OrgStage::Call => OrgStageView::Call,
                OrgStage::Lookup(l, p) => OrgStageView::Lookup(l.deep_view(), p.deep_view()),
                OrgStage::Insert(l, p) => OrgStageView::Insert(l.deep_view(), p.deep_view()),
                OrgStage::Log(l, p) => OrgStageView::Log(l.deep_view(), p.deep_view()),
            },
        }
    }
}

/// The endpoint of the events of an organisation.
pub open spec fn org_events_endpoint(owner: Seq<char>) -> Seq<char> {
    "/orgs/"@ + owner + "/events"@
}

fn org_endpoint(owner: &str) -> (r: String)
    ensures
        r@ == org_events_endpoint(owner@),
{
    cat3("/orgs/", owner, "/events")
}

impl OrgEventSyncView {
    /// A sync at its beginning, and what it asks for first.
    pub open spec fn start(owner: Seq<char>) -> (OrgEventSyncView, ActionView) {
        (
            OrgEventSyncView { owner, stage: OrgStageView::Poll },
            ActionView::Query(db::poll_query(org_events_endpoint(owner))),
        )
    }

    /// The step that asks for the events, if it is time to ask.
    pub open spec fn ask(owner: Seq<char>, poll: PollStateView, now: Moment) -> OrgStep {
        if is_due(poll, now) {
            StepView::Do(
                OrgEventSyncView { owner, stage: OrgStageView::Call },
                ActionView::Call(gh::pages_request(org_events_endpoint(owner), poll.etag)),
            )
        } else {
            StepView::Finished(Map::empty())
        }
    }

    /// The step that records an event of a repository.
    pub open spec fn record(
        owner: Seq<char>,
        repo_id: i64,
        at: LocatedView,
        progress: ProgressView,
    ) -> OrgStep {
        StepView::Do(
            OrgEventSyncView { owner, stage: OrgStageView::Insert(at, progress) },
            ActionView::Execute(
                event_record(repo_id, at.event.at("id"@).str_or(""@), at.event),
            ),
        )
    }

    /// The step to the next event that is to be recorded or whose repository is to be
    /// looked up, or to the end. Events of repositories that are not in the cache are
    /// passed over.
    pub open spec fn seek(owner: Seq<char>, progress: ProgressView) -> OrgStep
        decreases progress.events.len() - progress.next,
    {
        let i = progress.next;
        if i < 0 || i >= progress.events.len() {
            StepView::Finished(progress.dirty)
        } else {
            let rest = ProgressView { next: i + 1, ..progress };
            match located(progress.events[i]) {
                None => Self::seek(owner, rest),
                Some(at) => if progress.ids.dom().contains(at.name) {
                    match progress.ids[at.name] {
                        Some(repo_id) => Self::record(owner, repo_id, at, rest),
                        None => Self::seek(owner, rest),
                    }
                } else {
                    StepView::Do(
                        OrgEventSyncView { owner, stage: OrgStageView::Lookup(at, rest) },
                        ActionView::Query(db::repo_id_query(owner, at.name)),
                    )
                },
            }
        }
    }

    /// The step that follows when the id of the repository of an event is known, or known
    /// to be missing.
    pub open spec fn found(
        owner: Seq<char>,
        id: Option<i64>,
        at: LocatedView,
        progress: ProgressView,
    ) -> OrgStep {
        let known = ProgressView { ids: progress.ids.insert(at.name, id), ..progress };
        match id {
            Some(repo_id) => Self::record(owner, repo_id, at, known),
            None => Self::seek(owner, known),
        }
    }

    /// The progress with the pull request of an event noted, if it speaks of one.
    pub open spec fn noted(
        owner: Seq<char>,
        at: LocatedView,
        progress: ProgressView,
    ) -> ProgressView {
        match pr_of(at.event) {
            Some(n) => ProgressView {
                dirty: dirty::with_number(progress.dirty, owner, at.name, n),
                ..progress
            },
            None => progress,
        }
    }

    /// The step that a sync takes when it is told what came of its last action. A lookup
    /// that fails is taken as one that found nothing.
    pub open spec fn next(self, reply: ReplyView, now: NowView) -> OrgStep {
        let owner = self.owner;
        match (self.stage, reply) {
            (OrgStageView::Poll, ReplyView::Rows(rows)) => match db::polled_state(rows) {
                Some(poll) => Self::ask(owner, poll, now.moment),
                None => StepView::Failed,
            },
            (OrgStageView::Call, ReplyView::Answer(resp)) => if resp.status == 304 {
                StepView::Finished(Map::empty())
            } else {
                match resp.body.as_array() {
                    Some(events) => Self::seek(
                        owner,
                        ProgressView { events, next: 0, ids: Map::empty(), dirty: Map::empty() },
                    ),
                    None => StepView::Finished(Map::empty()),
                }
            },
            (OrgStageView::Lookup(at, progress), ReplyView::Rows(rows)) => Self::found(
                owner,
                db::id_in(rows),
                at,
                progress,
            ),
            (OrgStageView::Lookup(at, progress), ReplyView::Failed) => Self::found(
                owner,
                None,
                at,
                progress,
            ),
            (OrgStageView::Insert(at, progress), ReplyView::Executed { changed, row_id }) => {
                if changed > 0 {
                    StepView::Do(
                        OrgEventSyncView { owner, stage: OrgStageView::Log(at, progress) },
                        ActionView::Execute(
                            db::change_record(
                                "repo_event"@,
                                row_id,
                                ChangeEvent::Inserted,
                                Some(at.slug),
                                None,
                            ),
                        ),
                    )
                } else {
                    Self::seek(owner, progress)
                }
            },
            (OrgStageView::Log(at, progress), ReplyView::Executed { changed, row_id }) => {
                Self::seek(owner, Self::noted(owner, at, progress))
            },
            _ => StepView::Failed,
        }
    }
}

/// A sync of the events of an organisation at its beginning, and what it asks for first.
pub fn sync_org(owner: String) -> (r: (OrgEventSync, Action))
    ensures
        (r.0.deep_view(), r.1.deep_view()) == OrgEventSyncView::start(owner@),
{
    let endpoint: String = org_endpoint(owner.as_str());
    let query: Statement = get_poll_state(endpoint.as_str());
    (OrgEventSync { owner, stage: OrgStage::Poll }, Action::Query(query))
}

impl OrgEventSync {
    fn ask(owner: String, poll: PollState, now: &Now) -> (r: Step<OrgEventSync, PrTable>)
        ensures
            r.deep_view() == OrgEventSyncView::ask(owner@, poll.deep_view(), now.moment),
    {
        if due(&poll, &now.moment) {
            let endpoint: String = org_endpoint(owner.as_str());
            Step::Do(
                OrgEventSync { owner, stage: OrgStage::Call },
                Action::Call(Poll::pages(endpoint, poll.etag)),
            )
        } else {
            Step::Finished(PrTable::new())
        }
    }

    fn record(owner: String, repo_id: i64, at: Located, progress: Progress) -> (r: Step<
        OrgEventSync,
        PrTable,
    >)
        ensures
            r.deep_view() == OrgEventSyncView::record(
                owner@,
                repo_id,
                at.deep_view(),
                progress.deep_view(),
            ),
    {
        let record: Statement = insert_event(repo_id, at.event.at("id").str_or(""), &at.event);
        Step::Do(
            OrgEventSync { owner, stage: OrgStage::Insert(at, progress) },
            Action::Execute(record),
        )
    }

    fn seek(owner: String, from: Progress) -> (r: Step<OrgEventSync, PrTable>)
        ensures
            r.deep_view() == OrgEventSyncView::seek(owner@, from.deep_view()),
    {
        let ghost start = from.deep_view();
        let mut progress: Progress = from;
        while progress.next < progress.events.len()
            invariant
                start == from.deep_view(),
                OrgEventSyncView::seek(owner@, start) == OrgEventSyncView::seek(
                    owner@,
                    progress.deep_view(),
                ),
            decreases progress.events.len() - progress.next,
        {
            let i: usize = progress.next;
            let ghost before = progress.deep_view();
            let here: Option<Located> = locate(&progress.events[i]);
            progress.next = i + 1;
            assert(progress.deep_view() == (ProgressView { next: i + 1, ..before }));
            if let Some(at) = here {
                let known: Option<Option<i64>> = match progress.ids.get(at.name.as_str()) {
                    Some(id) => Some(*id),
                    None => None,
                };
                match known {
                    Some(Some(repo_id)) => {
                        return OrgEventSync::record(owner, repo_id, at, progress);
                    },
                    Some(None) => {},
                    None => {
                        let query: Statement = get_repo_id(owner.as_str(), at.name.as_str());
                        return Step::Do(
                            OrgEventSync { owner, stage: OrgStage::Lookup(at, progress) },
                            Action::Query(query),
                        );
                    },
                }
            }
        }
        Step::Finished(progress.dirty)
    }

    fn found(owner: String, id: Option<i64>, at: Located, mut progress: Progress) -> (r: Step<
        OrgEventSync,
        PrTable,
    >)
        ensures
            r.deep_view() == OrgEventSyncView::found(
                owner@,
                id,
                at.deep_view(),
                progress.deep_view(),
            ),
    {
        progress.ids.insert(at.name.clone(), id);
        match id {
            Some(repo_id) => OrgEventSync::record(owner, repo_id, at, progress),
            None => OrgEventSync::seek(owner, progress),
        }
    }

    /// Goes on with what came of the last action. The result names the pull requests that
    /// the new events speak of.
    pub fn step(self, reply: Reply, now: &Now) -> (r: Step<OrgEventSync, PrTable>)
        ensures
            r.deep_view() == self.deep_view().next(reply.deep_view(), now.deep_view()),
    {
        let owner: String = self.owner;
        match (self.stage, reply) {
            (OrgStage::Poll, Reply::Rows(rows)) => match poll_state_from(&rows) {
                Ok(poll) => OrgEventSync::ask(owner, poll, now),
                Err(_) => Step::Failed,
            },
            (OrgStage::Call, Reply::Answer(resp)) => {
                if resp.is_not_modified() {
                    Step::Finished(PrTable::new())
                } else {
                    match resp.body.into_array() {
                        Some(events) => {
                            let progress: Progress = Progress {
                                events,
                                next: 0,
                                ids: StringHashMap::new(),
                                dirty: PrTable::new(),
                            };
                            OrgEventSync::seek(owner, progress)
                        },
                        None => Step::Finished(PrTable::new()),
                    }
                }
            },
            (OrgStage::Lookup(at, progress), Reply::Rows(rows)) => {
                let id: Option<i64> = match first_id(&rows) {
                    Ok(id) => id,
                    Err(_) => None,
                };
                OrgEventSync::found(owner, id, at, progress)
            },
            (OrgStage::Lookup(at, progress), Reply::Failed) => {
                OrgEventSync::found(owner, None, at, progress)
            },
            (OrgStage::Insert(at, progress), Reply::Executed { changed, row_id }) => {
                if changed > 0 {
                    let record: Statement = log_change(
                        "repo_event",
                        row_id,
                        ChangeEvent::Inserted,
                        Some(at.slug.as_str()),
                        None,
                    );
                    Step::Do(
                        OrgEventSync { owner, stage: OrgStage::Log(at, progress) },
                        Action::Execute(record),
                    )
                } else {
                    OrgEventSync::seek(owner, progress)
                }
            },
            (OrgStage::Log(at, mut progress), Reply::Executed { .. }) => {
                if let Some(n) = changed_pr(&at.event) {
                    progress.dirty.push(owner.as_str(), at.name.as_str(), n);
                }
                OrgEventSync::seek(owner, progress)
            },
            _ => Step::Failed,
        }
    }
}

// ---- what holds of every sync ------------------------------------------------------
/// An endpoint that was asked less than its interval ago is not asked again: the sync of a
/// repository, or of an organisation, is at its end and has found nothing.
pub proof fn recently_asked_endpoint_is_left_alone(
    sync: EventSyncView,
    org: OrgEventSyncView,
    rows: Seq<Seq<SqlView>>,
    poll: PollStateView,
    last: Moment,
    interval: i64,
    now: NowView,
)
    requires
        sync.stage is Poll,
        org.stage is Poll,
        db::polled_state(rows) == Some(poll),
        last_asked(poll) == Some(last),
        poll.poll_interval == Some(interval),
        now.moment.seconds_since(last) < interval,
    ensures
        sync.next(ReplyView::Rows(rows), now) == EventStep::Finished(Seq::empty()),
        org.next(ReplyView::Rows(rows), now) == OrgStep::Finished(Map::empty()),
{
}

/// An answer that says that nothing has changed ends a sync: nothing is recorded, and no
/// pull request is to be fetched.
pub proof fn unchanged_events_record_nothing(
    sync: EventSyncView,
    org: OrgEventSyncView,
    resp: GhResponseView,
    now: NowView,
)
    requires
        sync.stage is Call,
        org.stage is Call,
        resp.status == 304,
    ensures
        sync.next(ReplyView::Answer(resp), now) == EventStep::Finished(Seq::empty()),
        org.next(ReplyView::Answer(resp), now) == OrgStep::Finished(Map::empty()),
{
}

/// Only events about pull requests and about their reviews make a pull request be fetched
/// again.
pub proof fn only_pr_events_mark_prs(ev: JsonView)
    requires
        pr_of(ev) is Some,
    ensures
        ev.at("type"@) == JsonView::Str("PullRequestEvent"@) || ev.at("type"@) == JsonView::Str(
            "PullRequestReviewEvent"@,
        ),
{
    reveal_strlit("");
    reveal_strlit("PullRequestEvent");
    reveal_strlit("PullRequestReviewEvent");
    assert(""@.len() == 0);
    assert("PullRequestEvent"@.len() > 0);
    assert("PullRequestReviewEvent"@.len() > 0);
}

/// Whether one of the events speaks of the pull request with that number.
pub open spec fn speak_of(events: Seq<JsonView>, number: i64) -> bool {
    exists|k: int| 0 <= k < events.len() && pr_of(#[trigger] events[k]) == Some(number)
}

/// Whether every number is that of a pull request that one of the events speaks of.
pub open spec fn come_from(numbers: Seq<i64>, events: Seq<JsonView>) -> bool {
    forall|i: int| 0 <= i < numbers.len() ==> speak_of(events, #[trigger] numbers[i])
}

/// The events that a sync works through, and the pull requests that it has found.
pub open spec fn found_so_far(sync: EventSyncView) -> Option<
    (Seq<JsonView>, Seq<i64>, Option<i64>),
> {
    match sync.stage {
        EventStageView::Insert { events, next, pr, dirty } => Some((events, dirty, pr)),
        EventStageView::Log { events, next, pr, dirty } => Some((events, dirty, pr)),
        _ => None,
    }
}

/// Whether all that a sync has found comes from the events that it works through.
pub open spec fn is_sound(sync: EventSyncView) -> bool {
    match found_so_far(sync) {
        Some((events, dirty, pr)) => come_from(dirty, events) && come_from(
            with_pr(Seq::empty(), pr),
            events,
        ),
        None => true,
    }
}

proof fn lemma_seek_is_sound(job: RepoJobView, events: Seq<JsonView>, i: int, dirty: Seq<i64>)
    requires
        come_from(dirty, events),
    ensures
        EventSyncView::seek(job, events, i, dirty) matches StepView::Do(s, _) ==> is_sound(s)
            && found_so_far(s)->Some_0.0 == events,
        EventSyncView::seek(job, events, i, dirty) matches StepView::Finished(d) ==> d == dirty,
    decreases events.len() - i,
{
    if 0 <= i < events.len() {
        lemma_seek_is_sound(job, events, i + 1, dirty);
        if let Some(n) = pr_of(events[i]) {
            assert(speak_of(events, n));
        }
    }
}

/// A sync finds no pull request that the events it was sent do not speak of: what it has
/// found comes from them at every step, and so does its result.
pub proof fn found_prs_come_from_the_events(sync: EventSyncView, reply: ReplyView, now: NowView)
    requires
        is_sound(sync),
    ensures
        sync.next(reply, now) matches StepView::Do(s, _) ==> is_sound(s),
        sync.next(reply, now) matches StepView::Finished(numbers) ==> match found_so_far(sync) {
            Some((events, _, _)) => come_from(numbers, events),
            None => numbers == Seq::<i64>::empty(),
        },
{
    match (sync.stage, reply) {
        (EventStageView::Call, ReplyView::Answer(resp)) => {
            if let Some(events) = resp.body.as_array() {
                lemma_seek_is_sound(sync.job, events, 0, Seq::empty());
            }
        },
        (EventStageView::Insert { events, next, pr, dirty }, _) => {
            lemma_seek_is_sound(sync.job, events, next, dirty);
        },
        (EventStageView::Log { events, next, pr, dirty }, _) => {
            let more = with_pr(dirty, pr);
            assert forall|i: int| 0 <= i < more.len() implies speak_of(
                events,
                #[trigger] more[i],
            ) by {
                if i < dirty.len() {
                    assert(more[i] == dirty[i]);
                } else {
                    assert(with_pr(Seq::empty(), pr)[0] == more[i]);
                }
            }
            lemma_seek_is_sound(sync.job, events, next, more);
        },
        _ => {},
    }
}

/// The pull requests that a sync has found when it takes a step.
pub open spec fn marked(step: EventStep) -> Option<Seq<i64>> {
    match step {
        StepView::Do(sync, _) => match found_so_far(sync) {
            Some((_, dirty, _)) => Some(dirty),
            None => None,
        },
        StepView::Finished(dirty) => Some(dirty),
        StepView::Failed => None,
    }
}

proof fn lemma_seek_keeps_marks(job: RepoJobView, events: Seq<JsonView>, i: int, dirty: Seq<i64>)
    ensures
        marked(EventSyncView::seek(job, events, i, dirty)) == Some(dirty),
    decreases events.len() - i,
{
    if 0 <= i < events.len() {
        lemma_seek_keeps_marks(job, events, i + 1, dirty);
    }
}

/// An event that was not recorded before is logged as a change, and the pull request that it
/// speaks of is fetched again. One that was recorded before does neither.
pub proof fn new_events_mark_their_prs(
    job: RepoJobView,
    events: Seq<JsonView>,
    next: int,
    pr: Option<i64>,
    dirty: Seq<i64>,
    row_id: i64,
    logged: ReplyView,
    now: NowView,
)
    requires
        logged is Executed,
    ensures
        ({
            let sync = EventSyncView {
                job,
                stage: EventStageView::Insert { events, next, pr, dirty },
            };
            &&& marked(sync.next(ReplyView::Executed { changed: 0, row_id }, now)) == Some(dirty)
            &&& forall|changed: u64|
                changed > 0 ==> {
                    &&& #[trigger] sync.next(
                        ReplyView::Executed { changed, row_id },
                        now,
                    ) matches StepView::Do(log, action)
                    &&& action == ActionView::Execute(
                        db::change_record(
                            "repo_event"@,
                            row_id,
                            ChangeEvent::Inserted,
                            Some(job.slug()),
                            None,
                        ),
                    )
                    &&& marked(log.next(logged, now)) == Some(with_pr(dirty, pr))
                }
        }),
{
    lemma_seek_keeps_marks(job, events, next, dirty);
    lemma_seek_keeps_marks(job, events, next, with_pr(dirty, pr));
}

// ---- the same events twice ---------------------------------------------------------
/// What a sync of events writes to: which events are recorded, by repository and id, and the
/// statements that have logged changes.
pub struct EventTables {
    pub recorded: Set<(SqlView, SqlView)>,
    pub logged: Seq<StatementView>,
}

/// What the tables are after a statement, and what is told of it. An event that is recorded
/// already is left as it is, and no row is changed. Which id a row has is up to the database.
pub open spec fn written(tables: EventTables, s: StatementView, row_id: i64) -> (
    EventTables,
    ReplyView,
) {
    if s.sql == INSERT_EVENT@ {
        let key = (s.params[0], s.params[1]);
        if tables.recorded.contains(key) {
            (tables, ReplyView::Executed { changed: 0, row_id })
        } else {
            (
                EventTables { recorded: tables.recorded.insert(key), ..tables },
                ReplyView::Executed { changed: 1, row_id },
            )
        }
    } else {
        (
            EventTables { logged: tables.logged.push(s), ..tables },
            ReplyView::Executed { changed: 1, row_id },
        )
    }
}

/// How a sync goes on, and what the tables are, when what it asks to write is written, for at
/// most `n` statements; `row_ids` are the ids of the rows.
pub open spec fn carried_out(
    step: EventStep,
    tables: EventTables,
    row_ids: spec_fn(nat) -> i64,
    now: NowView,
    n: nat,
) -> (EventStep, EventTables)
    decreases n,
{
    match step {
        StepView::Do(sync, ActionView::Execute(s)) if n > 0 => {
            let (after, reply) = written(tables, s, row_ids(n));
            carried_out(sync.next(reply, now), after, row_ids, now, (n - 1) as nat)
        },
        _ => (step, tables),
    }
}

/// Under what an event is recorded, if it has an id.
pub open spec fn event_key(job: RepoJobView, ev: JsonView) -> Option<(SqlView, SqlView)> {
    match ev.at("id"@).as_str() {
        Some(gh_id) => Some((SqlView::Integer(job.repo_id), SqlView::Text(gh_id))),
        None => None,
    }
}

/// Those of the events from `i` on that have an id and are not recorded yet, each once, in
/// their order.
pub open spec fn fresh_from(
    job: RepoJobView,
    events: Seq<JsonView>,
    i: int,
    recorded: Set<(SqlView, SqlView)>,
) -> Seq<JsonView>
    decreases events.len() - i,
{
    if i < 0 || i >= events.len() {
        Seq::empty()
    } else {
        match event_key(job, events[i]) {
            Some(key) if !recorded.contains(key) => seq![events[i]] + fresh_from(
                job,
                events,
                i + 1,
                recorded.insert(key),
            ),
            _ => fresh_from(job, events, i + 1, recorded),
        }
    }
}

/// What is recorded after the events from `i` on.
pub open spec fn recorded_from(
    job: RepoJobView,
    events: Seq<JsonView>,
    i: int,
    recorded: Set<(SqlView, SqlView)>,
) -> Set<(SqlView, SqlView)>
    decreases events.len() - i,
{
    if i < 0 || i >= events.len() {
        recorded
    } else {
        match event_key(job, events[i]) {
            Some(key) => recorded_from(job, events, i + 1, recorded.insert(key)),
            None => recorded_from(job, events, i + 1, recorded),
        }
    }
}

/// The pull requests that events speak of, in the order of the events.
pub open spec fn prs_in(events: Seq<JsonView>) -> Seq<i64>
    decreases events.len(),
{
    if events.len() == 0 {
        Seq::empty()
    } else {
        with_pr(Seq::empty(), pr_of(events[0])) + prs_in(events.skip(1))
    }
}

proof fn lemma_statements_differ()
    ensures
        INSERT_EVENT@ != db::INSERT_CHANGE@,
{
    reveal_strlit(
        "INSERT OR IGNORE INTO repo_event (repo_id, gh_id, type, actor, payload_json, created_at)
             VALUES (?, ?, ?, ?, ?, ?)",
    );
    reveal_strlit(
        "INSERT INTO change_log (entity_type, entity_id, event, repo_slug, payload_json)
         VALUES (?1, ?2, ?3, ?4, ?5)",
    );
    assert(INSERT_EVENT@[7] == 'O');
    assert(db::INSERT_CHANGE@[7] == 'I');
}

proof fn lemma_carried_out(
    job: RepoJobView,
    events: Seq<JsonView>,
    i: int,
    dirty: Seq<i64>,
    tables: EventTables,
    row_ids: spec_fn(nat) -> i64,
    now: NowView,
    n: nat,
)
    requires
        0 <= i <= events.len(),
        n >= 2 * (events.len() - i),
    ensures
        ({
            let (end, after) = carried_out(
                EventSyncView::seek(job, events, i, dirty),
                tables,
                row_ids,
                now,
                n,
            );
            let fresh = fresh_from(job, events, i, tables.recorded);
            &&& end == EventStep::Finished(dirty + prs_in(fresh))
            &&& after.recorded == recorded_from(job, events, i, tables.recorded)
            &&& after.logged.len() == tables.logged.len() + fresh.len()
            &&& fresh.len() == 0 ==> after.logged == tables.logged
        }),
    decreases events.len() - i,
{
    let step = EventSyncView::seek(job, events, i, dirty);
    if i == events.len() {
        assert(dirty + prs_in(Seq::empty()) =~= dirty);
    } else {
        match events[i].at("id"@).as_str() {
            None => {
                lemma_carried_out(job, events, i + 1, dirty, tables, row_ids, now, n);
            },
            Some(gh_id) => {
                lemma_statements_differ();
                let s = event_record(job.repo_id, gh_id, events[i]);
                let key = (s.params[0], s.params[1]);
                assert(event_key(job, events[i]) == Some(key));
                let pr = pr_of(events[i]);
                let at = EventSyncView {
                    job,
                    stage: EventStageView::Insert { events, next: i + 1, pr, dirty },
                };
                let (after, reply) = written(tables, s, row_ids(n));
                let m = (n - 1) as nat;
                assert(carried_out(step, tables, row_ids, now, n) == carried_out(
                    at.next(reply, now),
                    after,
                    row_ids,
                    now,
                    m,
                ));
                if tables.recorded.contains(key) {
                    assert(tables.recorded.insert(key) =~= tables.recorded);
                    lemma_carried_out(job, events, i + 1, dirty, tables, row_ids, now, m);
                } else {
                    let change = db::change_record(
                        "repo_event"@,
                        row_ids(n),
                        ChangeEvent::Inserted,
                        Some(job.slug()),
                        None,
                    );
                    let log = EventSyncView {
                        job,
                        stage: EventStageView::Log { events, next: i + 1, pr, dirty },
                    };
                    assert(at.next(reply, now) == EventStep::Do(log, ActionView::Execute(change)));
                    let (logged, told) = written(after, change, row_ids(m));
                    let more = with_pr(dirty, pr);
                    let k = (m - 1) as nat;
                    assert(log.next(told, now) == EventSyncView::seek(job, events, i + 1, more));
                    assert(carried_out(at.next(reply, now), after, row_ids, now, m) == carried_out(
                        EventSyncView::seek(job, events, i + 1, more),
                        logged,
                        row_ids,
                        now,
                        k,
                    ));
                    lemma_carried_out(job, events, i + 1, more, logged, row_ids, now, k);
                    let rest = fresh_from(job, events, i + 1, after.recorded);
                    let fresh = seq![events[i]] + rest;
                    assert(fresh.skip(1) =~= rest);
                    assert(more + prs_in(rest) =~= dirty + prs_in(fresh));
                }
            },
        }
    }
}

proof fn lemma_all_recorded(
    job: RepoJobView,
    events: Seq<JsonView>,
    i: int,
    recorded: Set<(SqlView, SqlView)>,
)
    requires
        0 <= i <= events.len(),
    ensures
        recorded.subset_of(recorded_from(job, events, i, recorded)),
        forall|k: int, key: (SqlView, SqlView)|
            i <= k < events.len() && #[trigger] event_key(job, events[k]) == Some(key)
                ==> #[trigger] recorded_from(job, events, i, recorded).contains(key),
    decreases events.len() - i,
{
    if i < events.len() {
        match event_key(job, events[i]) {
            Some(key) => {
                lemma_all_recorded(job, events, i + 1, recorded.insert(key));
                assert(recorded.insert(key).contains(key));
            },
            None => {
                lemma_all_recorded(job, events, i + 1, recorded);
            },
        }
    }
}

proof fn lemma_nothing_fresh(
    job: RepoJobView,
    events: Seq<JsonView>,
    i: int,
    recorded: Set<(SqlView, SqlView)>,
)
    requires
        0 <= i <= events.len(),
        forall|k: int, key: (SqlView, SqlView)|
            i <= k < events.len() && #[trigger] event_key(job, events[k]) == Some(key)
                ==> #[trigger] recorded.contains(key),
    ensures
        fresh_from(job, events, i, recorded) == Seq::<JsonView>::empty(),
        recorded_from(job, events, i, recorded) == recorded,
    decreases events.len() - i,
{
    if i < events.len() {
        if let Some(key) = event_key(job, events[i]) {
            assert(recorded.contains(key));
            assert(recorded.insert(key) =~= recorded);
        }
        lemma_nothing_fresh(job, events, i + 1, recorded);
    }
}

/// A sync that is sent events records those that are not recorded yet, logs as many changes, and
/// finds the pull requests that they speak of, in the order of the events. When it is sent the
/// same events again, it finds none, records nothing and logs nothing.
pub proof fn same_events_find_nothing_again(
    job: RepoJobView,
    first: GhResponseView,
    again: GhResponseView,
    events: Seq<JsonView>,
    tables: EventTables,
    row_ids: spec_fn(nat) -> i64,
    now: NowView,
    later: NowView,
    n: nat,
)
    requires
        first.status != 304,
        again.status != 304,
        first.body.as_array() == Some(events),
        again.body.as_array() == Some(events),
        n >= 2 * events.len(),
    ensures
        ({
            let asked = EventSyncView { job, stage: EventStageView::Call };
            let (end, after) = carried_out(
                asked.next(ReplyView::Answer(first), now),
                tables,
                row_ids,
                now,
                n,
            );
            let fresh = fresh_from(job, events, 0, tables.recorded);
            &&& end == EventStep::Finished(prs_in(fresh))
            &&& after.recorded == recorded_from(job, events, 0, tables.recorded)
            &&& after.logged.len() == tables.logged.len() + fresh.len()
            &&& carried_out(
                asked.next(ReplyView::Answer(again), later),
                after,
                row_ids,
                later,
                n,
            ) == (EventStep::Finished(Seq::empty()), after)
        }),
{
    let asked = EventSyncView { job, stage: EventStageView::Call };
    let fresh = fresh_from(job, events, 0, tables.recorded);
    lemma_carried_out(job, events, 0, Seq::empty(), tables, row_ids, now, n);
    assert(Seq::<i64>::empty() + prs_in(fresh) =~= prs_in(fresh));
    let after = carried_out(
        asked.next(ReplyView::Answer(first), now),
        tables,
        row_ids,
        now,
        n,
    ).1;
    lemma_all_recorded(job, events, 0, tables.recorded);
    lemma_nothing_fresh(job, events, 0, after.recorded);
    lemma_carried_out(job, events, 0, Seq::empty(), after, row_ids, later, n);
    assert(Seq::<i64>::empty() + prs_in(Seq::empty()) =~= Seq::<i64>::empty());
}

} // verus!
