//! What is read from the events, the branches and the lists of repositories, and what follows
//! from them.

use vstd::prelude::*;

use crate::config::{OrgView, RepoView};
use crate::db::PollStateView;
use crate::gh;
use crate::gh::GhResponseView;
use crate::json::JsonView;
use crate::laws;
use crate::laws::{polling, values};
use crate::sql::{SqlView, StatementView};
use crate::sync::branches;
use crate::sync::branches::{BranchStageView, BranchStep, BranchSyncView, BranchWorkView, TipView};
use crate::sync::discovery;
use crate::sync::discovery::{DiscoveryStage, DiscoveryStep, DiscoveryView};
use crate::sync::events;
use crate::sync::events::{
    EventStageView, EventStep, EventSyncView, LocatedView, OrgEventSyncView, OrgStageView, OrgStep,
    ProgressView,
};
use crate::sync::step::{ActionView, NowView, RepoJobView, ReplyView};
use crate::sync::dirty;
use crate::time::Moment;
use crate::{db, json, sql, text, time};

verus! {

// ---- events ------------------------------------------------------------------------
/// An event about a pull request marks the pull request whose number its payload gives; one about
/// a review marks the pull request that was reviewed; no other event marks any.
pub proof fn events_mark_the_prs_they_speak_of(ev: JsonView)
    ensures
        ev.at("type"@) == JsonView::Str("PullRequestEvent"@) ==> events::pr_of(ev) == ev.at(
            "payload"@,
        ).at("number"@).as_i64(),
        ev.at("type"@) == JsonView::Str("PullRequestReviewEvent"@) ==> events::pr_of(ev) == ev.at(
            "payload"@,
        ).at("pull_request"@).at("number"@).as_i64(),
        ev.at("type"@) != JsonView::Str("PullRequestEvent"@) && ev.at("type"@) != JsonView::Str(
            "PullRequestReviewEvent"@,
        ) ==> events::pr_of(ev) is None,
{
    reveal_strlit("");
    reveal_strlit("PullRequestEvent");
    reveal_strlit("PullRequestReviewEvent");
    assert("PullRequestEvent"@.len() != "PullRequestReviewEvent"@.len());
    assert(""@.len() == 0 && "PullRequestEvent"@.len() > 0 && "PullRequestReviewEvent"@.len() > 0);
}

/// The columns of a recorded event.
pub proof fn columns_of_a_recorded_event(repo_id: i64, gh_id: Seq<char>, ev: JsonView)
    ensures
        events::event_record(repo_id, gh_id, ev).sql == "INSERT OR IGNORE INTO repo_event (repo_id, gh_id, type, actor, payload_json, created_at)
             VALUES (?, ?, ?, ?, ?, ?)"@,
        events::event_record(repo_id, gh_id, ev).params == seq![
            SqlView::Integer(repo_id),
            SqlView::Text(gh_id),
            SqlView::Text(ev.at("type"@).str_or(""@)),
            sql::text_or_null(ev.at("actor"@).at("login"@).as_str()),
            SqlView::Text(json::json_text(ev.at("payload"@))),
            SqlView::Text(ev.at("created_at"@).str_or(""@)),
        ],
{
}

/// An endpoint is due where it was never asked, or no interval is known, or the interval has
/// passed since it was asked; until then it is not.
pub proof fn endpoint_is_due_once_its_interval_has_passed(
    poll: PollStateView,
    asked_at: Seq<char>,
    last: Moment,
    interval: i64,
    now: Moment,
)
    requires
        time::rfc3339(asked_at) == Some((last.secs, last.nanos)),
    ensures
        poll.last_polled_at is None ==> events::is_due(poll, now),
        poll.poll_interval is None ==> events::is_due(poll, now),
        poll.last_polled_at == Some(asked_at) && poll.poll_interval == Some(interval) ==> (
        events::is_due(poll, now) <==> now.seconds_since(last) >= interval),
{
}

/// The events of a repository are asked for under its owner and name, and those of an organisation
/// under its own; all pages of them, with the tag that is known, where they are due.
pub proof fn events_are_asked_for_where_they_happen(
    job: RepoJobView,
    owner: Seq<char>,
    poll: PollStateView,
    now: NowView,
)
    ensures
        EventSyncView::start(job) == (
            EventSyncView { job, stage: EventStageView::Poll },
            ActionView::Query(
                db::poll_query("/repos/"@ + (job.owner.push('/') + job.name) + "/events"@),
            ),
        ),
        OrgEventSyncView::start(owner) == (
            OrgEventSyncView { owner, stage: OrgStageView::Poll },
            ActionView::Query(db::poll_query("/orgs/"@ + owner + "/events"@)),
        ),
        EventSyncView::ask(job, poll, now.moment) == (if events::is_due(poll, now.moment) {
            EventStep::Do(
                EventSyncView { job, stage: EventStageView::Call },
                ActionView::Call(
                    gh::pages_request(
                        "/repos/"@ + (job.owner.push('/') + job.name) + "/events"@,
                        poll.etag,
                    ),
                ),
            )
        } else {
            EventStep::Finished(Seq::empty())
        }),
        OrgEventSyncView::ask(owner, poll, now.moment) == (if events::is_due(poll, now.moment) {
            OrgStep::Do(
                OrgEventSyncView { owner, stage: OrgStageView::Call },
                ActionView::Call(gh::pages_request("/orgs/"@ + owner + "/events"@, poll.etag)),
            )
        } else {
            OrgStep::Finished(Map::empty())
        }),
{
    values::endpoint_names_the_repository(job, "/events"@);
    values::full_name_is_owner_slash_name(job.owner, job.name);
}

/// Events are gone through from the first to the last. One with an id is recorded under the
/// repository; where it was not there before it is logged, and the pull request that it speaks of
/// is marked. One without an id is passed over.
pub proof fn events_are_gone_through_in_order(
    job: RepoJobView,
    all: Seq<JsonView>,
    i: int,
    marked: Seq<i64>,
    gh_id: Seq<char>,
    changed: u64,
    row_id: i64,
    now: NowView,
    resp: GhResponseView,
)
    requires
        0 <= i < all.len(),
        resp.status != 304,
        resp.body == JsonView::Array(all),
    ensures
        ({
            let pr = events::pr_of(all[i]);
            let inserting = EventSyncView {
                job,
                stage: EventStageView::Insert { events: all, next: i + 1, pr, dirty: marked },
            };
            let logging = EventSyncView {
                job,
                stage: EventStageView::Log { events: all, next: i + 1, pr, dirty: marked },
            };
            &&& (EventSyncView { job, stage: EventStageView::Call }).next(
                ReplyView::Answer(resp),
                now,
            ) == EventSyncView::seek(job, all, 0, Seq::empty())
            &&& EventSyncView::seek(job, all, all.len() as int, marked) == EventStep::Finished(
                marked,
            )
            &&& all[i].at("id"@) == JsonView::Str(gh_id) ==> EventSyncView::seek(
                job,
                all,
                i,
                marked,
            ) == EventStep::Do(
                inserting,
                ActionView::Execute(events::event_record(job.repo_id, gh_id, all[i])),
            )
            &&& !(all[i].at("id"@) is Str) ==> EventSyncView::seek(job, all, i, marked)
                == EventSyncView::seek(job, all, i + 1, marked)
            &&& inserting.next(ReplyView::Executed { changed: 0, row_id }, now)
                == EventSyncView::seek(job, all, i + 1, marked)
            &&& changed > 0 ==> inserting.next(ReplyView::Executed { changed, row_id }, now)
                == EventStep::Do(
                logging,
                ActionView::Execute(
                    StatementView {
                        sql: "INSERT INTO change_log (entity_type, entity_id, event, repo_slug, payload_json)
         VALUES (?1, ?2, ?3, ?4, ?5)"@,
                        params: seq![
                            SqlView::Text("repo_event"@),
                            SqlView::Integer(row_id),
                            SqlView::Text("inserted"@),
                            SqlView::Text(job.owner.push('/') + job.name),
                            SqlView::Null,
                        ],
                    },
                ),
            )
            &&& logging.next(ReplyView::Executed { changed, row_id }, now) == EventSyncView::seek(
                job,
                all,
                i + 1,
                match pr {
                    Some(n) => marked.push(n),
                    None => marked,
                },
            )
        }),
{
    values::full_name_is_owner_slash_name(job.owner, job.name);
    polling::lemma_logged("repo_event"@, row_id, true, job.owner.push('/') + job.name);
}

/// An event of an organisation belongs to the repository whose full name it gives; one without an
/// id or a full name belongs to none.
pub proof fn event_belongs_to_the_repository_it_names(
    ev: JsonView,
    owner: Seq<char>,
    name: Seq<char>,
)
    requires
        !owner.contains('/'),
    ensures
        ev.at("repo"@).at("name"@) == JsonView::Str(owner.push('/') + name) && ev.at("id"@) is Str
            ==> events::located(ev) == Some(
            LocatedView { event: ev, slug: owner.push('/') + name, name },
        ),
        !(ev.at("repo"@).at("name"@) is Str) || !(ev.at("id"@) is Str) ==> events::located(
            ev,
        ) is None,
{
    values::text_is_cut_at_the_first_place(owner.push('/') + name, '/', owner, name);
}

/// The events of an organisation are recorded under the repository that each belongs to: one whose
/// id is not known is looked up once, by the owner and the name; those of a repository that is not
/// in the cache are passed over.
pub proof fn org_events_go_to_their_repositories(
    owner: Seq<char>,
    progress: ProgressView,
    at: LocatedView,
    gh_id: Seq<char>,
    id: i64,
    now: NowView,
)
    requires
        0 <= progress.next < progress.events.len(),
        events::located(progress.events[progress.next]) == Some(at),
        at.event.at("id"@) == JsonView::Str(gh_id),
    ensures
        ({
            let rest = ProgressView { next: progress.next + 1, ..progress };
            let looking = OrgEventSyncView { owner, stage: OrgStageView::Lookup(at, rest) };
            let record = |repo_id: i64, p: ProgressView|
                OrgStep::Do(
                    OrgEventSyncView { owner, stage: OrgStageView::Insert(at, p) },
                    ActionView::Execute(events::event_record(repo_id, gh_id, at.event)),
                );
            &&& !progress.ids.dom().contains(at.name) ==> OrgEventSyncView::seek(owner, progress)
                == OrgStep::Do(looking, ActionView::Query(db::repo_id_query(owner, at.name)))
            &&& progress.ids.dom().contains(at.name) && progress.ids[at.name] == Some(id)
                ==> OrgEventSyncView::seek(owner, progress) == record(id, rest)
            &&& progress.ids.dom().contains(at.name) && progress.ids[at.name] is None
                ==> OrgEventSyncView::seek(owner, progress) == OrgEventSyncView::seek(owner, rest)
            &&& looking.next(ReplyView::Rows(seq![seq![SqlView::Integer(id)]]), now) == record(
                id,
                ProgressView { ids: rest.ids.insert(at.name, Some(id)), ..rest },
            )
            &&& looking.next(ReplyView::Rows(Seq::empty()), now) == OrgEventSyncView::seek(
                owner,
                ProgressView { ids: rest.ids.insert(at.name, None), ..rest },
            )
        }),
{
    let rows = seq![seq![SqlView::Integer(id)]];
    assert(rows[0][0] == SqlView::Integer(id));
}

/// An event of an organisation that was not there before is logged under the full name of its
/// repository, and the pull request that it speaks of is marked under the owner and the name. One
/// that was there does neither. At the end all that was marked is given.
pub proof fn new_org_events_mark_their_prs(
    owner: Seq<char>,
    at: LocatedView,
    progress: ProgressView,
    changed: u64,
    row_id: i64,
    n: i64,
    now: NowView,
)
    requires
        changed > 0,
    ensures
        ({
            let inserting = OrgEventSyncView { owner, stage: OrgStageView::Insert(at, progress) };
            let logging = OrgEventSyncView { owner, stage: OrgStageView::Log(at, progress) };
            &&& inserting.next(ReplyView::Executed { changed, row_id }, now) == OrgStep::Do(
                logging,
                ActionView::Execute(
                    StatementView {
                        sql: "INSERT INTO change_log (entity_type, entity_id, event, repo_slug, payload_json)
         VALUES (?1, ?2, ?3, ?4, ?5)"@,
                        params: seq![
                            SqlView::Text("repo_event"@),
                            SqlView::Integer(row_id),
                            SqlView::Text("inserted"@),
                            SqlView::Text(at.slug),
                            SqlView::Null,
                        ],
                    },
                ),
            )
            &&& inserting.next(ReplyView::Executed { changed: 0, row_id }, now)
                == OrgEventSyncView::seek(owner, progress)
            &&& events::pr_of(at.event) is None ==> logging.next(
                ReplyView::Executed { changed, row_id },
                now,
            ) == OrgEventSyncView::seek(owner, progress)
            &&& events::pr_of(at.event) == Some(n) ==> logging.next(
                ReplyView::Executed { changed, row_id },
                now,
            ) == OrgEventSyncView::seek(
                owner,
                ProgressView {
                    dirty: progress.dirty.insert(
                        (owner, at.name),
                        (if progress.dirty.dom().contains((owner, at.name)) {
                            progress.dirty[(owner, at.name)]
                        } else {
                            Seq::empty()
                        }).push(n),
                    ),
                    ..progress
                },
            )
            &&& OrgEventSyncView::seek(
                owner,
                ProgressView { next: progress.events.len() as int, ..progress },
            ) == OrgStep::Finished(progress.dirty)
        }),
{
    polling::lemma_logged("repo_event"@, row_id, true, at.slug);
}

/// The pull requests of a repository that are marked are those that were marked under its owner
/// and its name.
pub proof fn marked_prs_are_kept_by_repository(
    table: Map<(Seq<char>, Seq<char>), Seq<i64>>,
    owner: Seq<char>,
    name: Seq<char>,
    n: i64,
    other: (Seq<char>, Seq<char>),
)
    ensures
        dirty::numbers_for(dirty::with_number(table, owner, name, n), owner, name)
            == dirty::numbers_for(table, owner, name).push(n),
        other != (owner, name) ==> dirty::numbers_for(
            dirty::with_number(table, owner, name, n),
            other.0,
            other.1,
        ) == dirty::numbers_for(table, other.0, other.1),
        dirty::numbers_for(Map::empty(), owner, name).len() == 0,
        table.dom().contains((owner, name)) ==> dirty::numbers_for(table, owner, name) == table[(
            owner,
            name,
        )],
{
}

// ---- branches ----------------------------------------------------------------------
/// A name is wanted where one of the patterns is that name, or ends with a star and the name goes
/// on from what stands before the star.
pub proof fn branch_is_wanted_where_a_pattern_fits(patterns: Seq<Seq<char>>, name: Seq<char>)
    ensures
        branches::any_matches(patterns, name) <==> exists|i: int|
            0 <= i < patterns.len() && (#[trigger] patterns[i] == name && !(patterns[i].len() > 0
                && patterns[i].last() == '*') || patterns[i].len() > 0 && patterns[i].last() == '*'
                && laws::opens(name, patterns[i].drop_last())),
{
    assert forall|i: int| 0 <= i < patterns.len() implies (branches::glob_matches(
        #[trigger] patterns[i],
        name,
    ) <==> (patterns[i] == name && !(patterns[i].len() > 0 && patterns[i].last() == '*')
        || patterns[i].len() > 0 && patterns[i].last() == '*' && laws::opens(
        name,
        patterns[i].drop_last(),
    ))) by {
        if patterns[i].len() > 0 {
            values::prefix_and_rest_make_the_text(name, patterns[i].drop_last());
        }
    }
}

/// The branches of a repository are asked for under its owner and name; all pages of them, with
/// the tag that is known. Where they did not change nothing is done.
pub proof fn branches_are_asked_for_by_repository(
    job: RepoJobView,
    patterns: Seq<Seq<char>>,
    poll: PollStateView,
    list: Seq<JsonView>,
    resp: GhResponseView,
    now: NowView,
)
    requires
        resp.body == JsonView::Array(list),
    ensures
        ({
            let endpoint = "/repos/"@ + (job.owner.push('/') + job.name) + "/branches"@;
            let asked = BranchSyncView { job, stage: BranchStageView::Call(patterns) };
            &&& BranchSyncView::start(job, patterns) == (
                BranchSyncView { job, stage: BranchStageView::Poll(patterns) },
                ActionView::Query(db::poll_query(endpoint)),
            )
            &&& BranchSyncView::start(job, patterns).0.next(
                ReplyView::Rows(
                    seq![
                        seq![
                            sql::text_or_null(poll.etag),
                            sql::text_or_null(poll.last_modified),
                            sql::integer_or_null(poll.poll_interval),
                            sql::text_or_null(poll.last_polled_at),
                        ],
                    ],
                ),
                now,
            ) == BranchStep::Do(
                asked,
                ActionView::Call(gh::pages_request(endpoint, poll.etag)),
            )
            &&& resp.status == 304 ==> asked.next(ReplyView::Answer(resp), now)
                == BranchStep::Finished(())
            &&& resp.status != 304 ==> asked.next(ReplyView::Answer(resp), now) == BranchStep::Do(
                BranchSyncView {
                    job,
                    stage: BranchStageView::Existing(branches::wanted_tips(list, patterns)),
                },
                ActionView::Query(
                    StatementView {
                        sql: "SELECT name FROM branch WHERE repo_id=?1"@,
                        params: seq![SqlView::Integer(job.repo_id)],
                    },
                ),
            )
        }),
{
    values::endpoint_names_the_repository(job, "/branches"@);
    values::full_name_is_owner_slash_name(job.owner, job.name);
    polling::recorded_poll_is_read(Seq::empty(), poll, Seq::empty());
    let row = seq![
        sql::text_or_null(poll.etag),
        sql::text_or_null(poll.last_modified),
        sql::integer_or_null(poll.poll_interval),
        sql::text_or_null(poll.last_polled_at),
    ];
    assert(seq![row] + Seq::<Seq<SqlView>>::empty() =~= seq![row]);
}

/// Wanted branches are recorded one after the other, each with its name and commit under the
/// repository, and the change is logged: as an insertion where the branch was not there, else as
/// an update.
pub proof fn wanted_branches_are_recorded(
    job: RepoJobView,
    tips: Seq<TipView>,
    existing: Seq<Seq<char>>,
    i: int,
    id: i64,
    changed: u64,
    row_id: i64,
    now: NowView,
)
    requires
        0 <= i < tips.len(),
    ensures
        ({
            let work = BranchWorkView { tips, next: i, existing };
            let rest = BranchWorkView { tips, next: i + 1, existing };
            let recording = BranchSyncView {
                job,
                stage: BranchStageView::Upsert {
                    is_new: !existing.contains(tips[i].name),
                    work: rest,
                },
            };
            let logging = BranchSyncView { job, stage: BranchStageView::Log(rest) };
            &&& (BranchSyncView { job, stage: BranchStageView::Existing(tips) }).next(
                ReplyView::Rows(existing.map_values(|s: Seq<char>| seq![SqlView::Text(s)])),
                now,
            ) == BranchSyncView::advance(job, BranchWorkView { tips, next: 0, existing }, now.text)
            &&& BranchSyncView::advance(job, work, now.text) == BranchStep::Do(
                recording,
                ActionView::Query(
                    StatementView {
                        sql: "INSERT INTO branch (repo_id, name, sha, updated_at)
             VALUES (?1, ?2, ?3, ?4)
             ON CONFLICT(repo_id, name) DO UPDATE SET
                 sha        = excluded.sha,
                 updated_at = excluded.updated_at
             RETURNING id"@,
                        params: seq![
                            SqlView::Integer(job.repo_id),
                            SqlView::Text(tips[i].name),
                            sql::text_or_null(tips[i].sha),
                            SqlView::Text(now.text),
                        ],
                    },
                ),
            )
            &&& recording.next(ReplyView::Rows(seq![seq![SqlView::Integer(id)]]), now)
                == BranchStep::Do(
                logging,
                ActionView::Execute(
                    StatementView {
                        sql: "INSERT INTO change_log (entity_type, entity_id, event, repo_slug, payload_json)
         VALUES (?1, ?2, ?3, ?4, ?5)"@,
                        params: seq![
                            SqlView::Text("branch"@),
                            SqlView::Integer(id),
                            SqlView::Text(
                                if existing.contains(tips[i].name) {
                                    "updated"@
                                } else {
                                    "inserted"@
                                },
                            ),
                            SqlView::Text(job.owner.push('/') + job.name),
                            SqlView::Null,
                        ],
                    },
                ),
            )
            &&& logging.next(ReplyView::Executed { changed, row_id }, now)
                == BranchSyncView::advance(job, rest, now.text)
            &&& BranchSyncView::advance(
                job,
                BranchWorkView { tips, next: tips.len() as int, existing },
                now.text,
            ) == BranchStep::Finished(())
        }),
{
    values::full_name_is_owner_slash_name(job.owner, job.name);
    values::every_row_is_read(Seq::empty(), existing);
    let is_new = !existing.contains(tips[i].name);
    let slug = job.owner.push('/') + job.name;
    polling::lemma_logged("branch"@, id, is_new, slug);
    let rows = seq![seq![SqlView::Integer(id)]];
    assert(rows[0][0] == SqlView::Integer(id));
}

// ---- lists of repositories ---------------------------------------------------------
/// The repositories of an organisation are asked for under its name, those of a user under theirs,
/// and those that are in the cache by their owner.
pub proof fn repositories_are_asked_for_by_owner(owner: Seq<char>)
    ensures
        discovery::org_repos_endpoint(owner) == "/orgs/"@ + owner + "/repos?per_page=100"@,
        discovery::user_repos_endpoint(owner) == "/users/"@ + owner + "/repos?per_page=100"@,
        discovery::stored_query(owner) == (StatementView {
            sql: "SELECT name FROM repo WHERE owner = ? ORDER BY name"@,
            params: seq![SqlView::Text(owner)],
        }),
        DiscoveryView::start(owner) == (
            DiscoveryView { owner, stage: DiscoveryStage::OrgPoll },
            ActionView::Query(db::poll_query("/orgs/"@ + owner + "/repos?per_page=100"@)),
        ),
{
}

/// The list of an organisation is asked for once a day: within a day of the last time it is taken
/// from the cache. An owner that is known to be a user is asked for as a user; any other as an
/// organisation, with the tag that is known.
pub proof fn list_is_asked_for_once_a_day(
    owner: Seq<char>,
    poll: PollStateView,
    asked_at: Seq<char>,
    last: Moment,
    now: Moment,
)
    requires
        time::rfc3339(asked_at) == Some((last.secs, last.nanos)),
        poll.last_polled_at == Some(asked_at) || poll.last_polled_at is None,
    ensures
        ({
            let recent = poll.last_polled_at is Some && now.nanos_since(last) < 24 * 60 * 60
                * 1_000_000_000;
            &&& recent ==> DiscoveryView::begin(owner, poll, now) == DiscoveryStep::Do(
                DiscoveryView { owner, stage: DiscoveryStage::Stored },
                ActionView::Query(discovery::stored_query(owner)),
            )
            &&& !recent && poll.etag == Some(discovery::NOT_ORG@) ==> DiscoveryView::begin(
                owner,
                poll,
                now,
            ) == DiscoveryStep::Do(
                DiscoveryView { owner, stage: DiscoveryStage::UserPoll },
                ActionView::Query(db::poll_query("/users/"@ + owner + "/repos?per_page=100"@)),
            )
            &&& !recent && poll.etag != Some(discovery::NOT_ORG@) ==> DiscoveryView::begin(
                owner,
                poll,
                now,
            ) == DiscoveryStep::Do(
                DiscoveryView { owner, stage: DiscoveryStage::OrgCall },
                ActionView::Call(
                    gh::pages_request("/orgs/"@ + owner + "/repos?per_page=100"@, poll.etag),
                ),
            )
        }),
{
}

/// What a list gives are the names of its repositories, in their order: those of the answer, or
/// those of the cache.
pub proof fn list_gives_the_names(
    owner: Seq<char>,
    list: Seq<JsonView>,
    more: JsonView,
    name: Seq<char>,
    names: Seq<Seq<char>>,
    resp: GhResponseView,
    now: NowView,
)
    requires
        more.at("name"@) == JsonView::Str(name),
        resp.body == JsonView::Array(list),
        resp.status != 304,
        resp.status != 404,
    ensures
        discovery::names_in(Seq::empty()).len() == 0,
        discovery::names_in(list.push(more)) == discovery::names_in(list).push(name),
        discovery::names_in(list.push(JsonView::Null)) == discovery::names_in(list),
        (DiscoveryView { owner, stage: DiscoveryStage::OrgCall }).next(
            ReplyView::Answer(resp),
            now,
        ) == DiscoveryStep::Finished(discovery::names_in(list)),
        (DiscoveryView { owner, stage: DiscoveryStage::UserCall }).next(
            ReplyView::Answer(resp),
            now,
        ) == DiscoveryStep::Finished(discovery::names_in(list)),
        (DiscoveryView { owner, stage: DiscoveryStage::Stored }).next(
            ReplyView::Rows(names.map_values(|s: Seq<char>| seq![SqlView::Text(s)])),
            now,
        ) == DiscoveryStep::Finished(names),
{
    assert(list.push(more).drop_last() =~= list);
    assert(list.push(JsonView::Null).drop_last() =~= list);
    values::every_row_is_read(Seq::empty(), names);
}

/// The repositories of an organisation are synced as the organisation says, those that it leaves
/// out are not synced at all, and the others in the order of the list.
pub proof fn repositories_follow_their_organisation(
    org: OrgView,
    names: Seq<Seq<char>>,
    name: Seq<char>,
)
    ensures
        discovery::repos_in(org, Seq::empty()).len() == 0,
        org.exclude.contains(name) ==> discovery::repos_in(org, names.push(name))
            == discovery::repos_in(org, names),
        !org.exclude.contains(name) ==> discovery::repos_in(org, names.push(name))
            == discovery::repos_in(org, names).push(
            RepoView {
                owner: org.owner,
                name,
                default_branch: None,
                sync_prs: org.sync_prs,
                sync_notifications: org.sync_notifications,
                sync_events: org.sync_events,
                sync_branches: org.sync_branches,
                checkout_on_sync: org.checkout_on_sync,
                poll_interval_seconds: org.poll_interval_seconds,
                fs_alias: org.fs_alias,
            },
        ),
{
    assert(names.push(name).drop_last() =~= names);
}

} // verus!
