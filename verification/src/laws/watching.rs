//! Which notifications are stored, and what of them.

use vstd::prelude::*;

use crate::config::{OrgView, RepoView};
use crate::db::ChangeEvent;
use crate::gh::{GhRequestView, GhResponseView};
use crate::json::JsonView;
use crate::laws::values;
use crate::sql::{SqlView, StatementView};
use crate::sync::notifications;
use crate::sync::notifications::{
    NotificationStageView, NotificationSyncView, ThreadsView, WatchedView, WatcherView,
};
use crate::sync::step::{ActionView, NowView, ReplyView, StepView};
use crate::{config, db, number, sql};

verus! {

// ---- whose notifications are stored ------------------------------------------------
/// Whether one of the repositories asks for its notifications and has this full name.
pub open spec fn a_repo_asks(repos: Seq<RepoView>, full_name: Seq<char>) -> bool {
    exists|i: int|
        0 <= i < repos.len() && (#[trigger] repos[i]).sync_notifications == Some(true) && full_name
            == repos[i].owner.push('/') + repos[i].name
}

/// Whether one of the subscribed repositories has this full name.
pub open spec fn is_subscribed_to(extra: Seq<(Seq<char>, Seq<char>)>, full_name: Seq<char>) -> bool {
    exists|i: int|
        0 <= i < extra.len() && full_name == (#[trigger] extra[i]).0.push('/') + extra[i].1
}

/// Whether one of the organisations asks for its notifications and has this owner and leaves out
/// these names.
pub open spec fn an_org_asks(orgs: Seq<OrgView>, owner: Seq<char>, exclude: Seq<Seq<char>>) -> bool {
    exists|i: int|
        0 <= i < orgs.len() && (#[trigger] orgs[i]).sync_notifications == Some(true) && orgs[i].owner
            == owner && orgs[i].exclude == exclude
}

/// The names that are watched are those of the configured repositories whose notifications are
/// switched on, and those of the subscribed ones; no other.
pub proof fn watched_names_are_those_that_ask(
    repos: Seq<RepoView>,
    orgs: Seq<OrgView>,
    extra: Seq<(Seq<char>, Seq<char>)>,
    full_name: Seq<char>,
)
    ensures
        notifications::watched_of(repos, orgs, extra).slugs.contains(full_name) <==> a_repo_asks(
            repos,
            full_name,
        ) || is_subscribed_to(extra, full_name),
{
    let f = |e: (Seq<char>, Seq<char>)| config::slug_of(e.0, e.1);
    let configured = notifications::configured_slugs(repos);
    let subscribed = extra.map_values(f);
    let all = notifications::watched_of(repos, orgs, extra).slugs;
    lemma_configured(repos, full_name);
    assert forall|k: int| 0 <= k < extra.len() implies #[trigger] subscribed[k]
        == extra[k].0.push('/') + extra[k].1 by {
        values::full_name_is_owner_slash_name(extra[k].0, extra[k].1);
    }
    if all.contains(full_name) {
        let k = choose|k: int| 0 <= k < all.len() && all[k] == full_name;
        if k < configured.len() {
            assert(configured[k] == full_name);
        } else {
            assert(subscribed[k - configured.len()] == full_name);
            assert(extra[k - configured.len()].0.push('/') + extra[k - configured.len()].1
                == full_name);
        }
    }
    if a_repo_asks(repos, full_name) {
        let k = choose|k: int| 0 <= k < configured.len() && configured[k] == full_name;
        assert(all[k] == full_name);
    }
    if is_subscribed_to(extra, full_name) {
        let k = choose|k: int|
            0 <= k < extra.len() && full_name == (#[trigger] extra[k]).0.push('/') + extra[k].1;
        assert(all[configured.len() + k] == subscribed[k]);
    }
}

proof fn lemma_configured(repos: Seq<RepoView>, full_name: Seq<char>)
    ensures
        notifications::configured_slugs(repos).contains(full_name) <==> a_repo_asks(
            repos,
            full_name,
        ),
    decreases repos.len(),
{
    let all = notifications::configured_slugs(repos);
    if repos.len() > 0 {
        let fewer = repos.drop_last();
        let last = repos.last();
        let before = notifications::configured_slugs(fewer);
        lemma_configured(fewer, full_name);
        values::full_name_is_owner_slash_name(last.owner, last.name);
        assert(repos[repos.len() - 1] == last);
        if all.contains(full_name) {
            let k = choose|k: int| 0 <= k < all.len() && all[k] == full_name;
            if k < before.len() {
                assert(before[k] == full_name);
                let i = choose|i: int|
                    0 <= i < fewer.len() && (#[trigger] fewer[i]).sync_notifications == Some(true)
                        && full_name == fewer[i].owner.push('/') + fewer[i].name;
                assert(repos[i] == fewer[i]);
            }
        }
        if a_repo_asks(repos, full_name) {
            let i = choose|i: int|
                0 <= i < repos.len() && (#[trigger] repos[i]).sync_notifications == Some(true)
                    && full_name == repos[i].owner.push('/') + repos[i].name;
            if i < fewer.len() {
                assert(fewer[i] == repos[i]);
                let k = choose|k: int| 0 <= k < before.len() && before[k] == full_name;
                assert(all[k] == full_name);
            } else {
                assert(all[all.len() - 1] == full_name);
            }
        }
    }
}

/// The owners that are watched are those of the organisations whose notifications are switched
/// on, each with the names that it leaves out; no other.
pub proof fn watched_owners_are_those_that_ask(
    repos: Seq<RepoView>,
    orgs: Seq<OrgView>,
    extra: Seq<(Seq<char>, Seq<char>)>,
    owner: Seq<char>,
    exclude: Seq<Seq<char>>,
)
    ensures
        notifications::watched_of(repos, orgs, extra).owners.contains(
            WatcherView { owner, exclude },
        ) <==> an_org_asks(orgs, owner, exclude),
{
    lemma_asking(orgs, owner, exclude);
}

proof fn lemma_asking(orgs: Seq<OrgView>, owner: Seq<char>, exclude: Seq<Seq<char>>)
    ensures
        notifications::asking_owners(orgs).contains(WatcherView { owner, exclude })
            <==> an_org_asks(orgs, owner, exclude),
    decreases orgs.len(),
{
    let all = notifications::asking_owners(orgs);
    let one = WatcherView { owner, exclude };
    if orgs.len() > 0 {
        let fewer = orgs.drop_last();
        let before = notifications::asking_owners(fewer);
        lemma_asking(fewer, owner, exclude);
        assert(orgs[orgs.len() - 1] == orgs.last());
        if all.contains(one) {
            let k = choose|k: int| 0 <= k < all.len() && all[k] == one;
            if k < before.len() {
                assert(before[k] == one);
                let i = choose|i: int|
                    0 <= i < fewer.len() && (#[trigger] fewer[i]).sync_notifications == Some(true)
                        && fewer[i].owner == owner && fewer[i].exclude == exclude;
                assert(orgs[i] == fewer[i]);
            }
        }
        if an_org_asks(orgs, owner, exclude) {
            let i = choose|i: int|
                0 <= i < orgs.len() && (#[trigger] orgs[i]).sync_notifications == Some(true)
                    && orgs[i].owner == owner && orgs[i].exclude == exclude;
            if i < fewer.len() {
                assert(fewer[i] == orgs[i]);
                let k = choose|k: int| 0 <= k < before.len() && before[k] == one;
                assert(all[k] == one);
            } else {
                assert(all[all.len() - 1] == one);
            }
        }
    }
}

/// A thread is watched where the full name that it gives of its repository is among the watched
/// names, or has a watched owner that does not leave it out, or where nothing in particular is
/// watched.
pub proof fn thread_is_watched_by_the_name_of_its_repository(
    watched: WatchedView,
    thread: JsonView,
    owner: Seq<char>,
    name: Seq<char>,
)
    requires
        !owner.contains('/'),
        thread.at("repository"@).at("full_name"@) == JsonView::Str(owner.push('/') + name),
    ensures
        notifications::is_watched(watched, thread) <==> {
            ||| watched.slugs.len() == 0 && watched.owners.len() == 0
            ||| watched.slugs.contains(owner.push('/') + name)
            ||| exists|i: int|
                0 <= i < watched.owners.len() && (#[trigger] watched.owners[i]).owner == owner
                    && !watched.owners[i].exclude.contains(name)
        },
{
    let full_name = owner.push('/') + name;
    values::text_is_cut_at_the_first_place(full_name, '/', owner, name);
    if exists|i: int|
        0 <= i < watched.owners.len() && (#[trigger] watched.owners[i]).owner == owner
            && !watched.owners[i].exclude.contains(name) {
        let i = choose|i: int|
            0 <= i < watched.owners.len() && (#[trigger] watched.owners[i]).owner == owner
                && !watched.owners[i].exclude.contains(name);
        assert(notifications::belongs_to(full_name, watched.owners[i]));
    }
    if notifications::is_watched(watched, thread) && !(watched.slugs.len() == 0
        && watched.owners.len() == 0) && !watched.slugs.contains(full_name) {
        let i = choose|i: int|
            0 <= i < watched.owners.len() && notifications::belongs_to(
                full_name,
                #[trigger] watched.owners[i],
            );
        assert(watched.owners[i].owner == owner);
    }
}

/// With configured repositories, organisations and subscriptions, a thread is stored where its
/// repository asks, or is subscribed to, or belongs to an organisation that asks and does not
/// leave it out; where nobody asks at all, every thread is.
pub proof fn thread_is_stored_where_somebody_asks(
    repos: Seq<RepoView>,
    orgs: Seq<OrgView>,
    extra: Seq<(Seq<char>, Seq<char>)>,
    thread: JsonView,
    owner: Seq<char>,
    name: Seq<char>,
    i: int,
)
    requires
        !owner.contains('/'),
        thread.at("repository"@).at("full_name"@) == JsonView::Str(owner.push('/') + name),
    ensures
        ({
            let stored = notifications::is_watched(
                notifications::watched_of(repos, orgs, extra),
                thread,
            );
            &&& 0 <= i < repos.len() && repos[i].owner == owner && repos[i].name == name
                && repos[i].sync_notifications == Some(true) ==> stored
            &&& 0 <= i < extra.len() && extra[i] == (owner, name) ==> stored
            &&& 0 <= i < orgs.len() && orgs[i].owner == owner && orgs[i].sync_notifications == Some(
                true,
            ) && !orgs[i].exclude.contains(name) ==> stored
            &&& 0 <= i < repos.len() && repos[i].sync_notifications == Some(true) && stored ==> {
                ||| a_repo_asks(repos, owner.push('/') + name)
                ||| is_subscribed_to(extra, owner.push('/') + name)
                ||| exists|k: int|
                    0 <= k < orgs.len() && (#[trigger] orgs[k]).sync_notifications == Some(true)
                        && orgs[k].owner == owner && !orgs[k].exclude.contains(name)
            }
        }),
{
    let watched = notifications::watched_of(repos, orgs, extra);
    let full_name = owner.push('/') + name;
    thread_is_watched_by_the_name_of_its_repository(watched, thread, owner, name);
    watched_names_are_those_that_ask(repos, orgs, extra, full_name);
    if 0 <= i < repos.len() && repos[i].sync_notifications == Some(true) {
        let mine = repos[i].owner.push('/') + repos[i].name;
        watched_names_are_those_that_ask(repos, orgs, extra, mine);
        assert(a_repo_asks(repos, mine));
        assert(watched.slugs.len() > 0);
    }
    if 0 <= i < extra.len() && extra[i] == (owner, name) {
        assert(full_name == extra[i].0.push('/') + extra[i].1);
        assert(is_subscribed_to(extra, full_name));
    }
    if 0 <= i < orgs.len() && orgs[i].owner == owner && orgs[i].sync_notifications == Some(true)
        && !orgs[i].exclude.contains(name) {
        watched_owners_are_those_that_ask(repos, orgs, extra, owner, orgs[i].exclude);
        assert(an_org_asks(orgs, owner, orgs[i].exclude));
        let one = WatcherView { owner, exclude: orgs[i].exclude };
        let k = choose|k: int| 0 <= k < watched.owners.len() && watched.owners[k] == one;
        assert(watched.owners[k].owner == owner);
    }
    if notifications::is_watched(watched, thread) && exists|k: int|
        0 <= k < watched.owners.len() && (#[trigger] watched.owners[k]).owner == owner
            && !watched.owners[k].exclude.contains(name) {
        let k = choose|k: int|
            0 <= k < watched.owners.len() && (#[trigger] watched.owners[k]).owner == owner
                && !watched.owners[k].exclude.contains(name);
        let one = watched.owners[k];
        watched_owners_are_those_that_ask(repos, orgs, extra, one.owner, one.exclude);
        assert(watched.owners.contains(WatcherView { owner: one.owner, exclude: one.exclude }));
        let m = choose|m: int|
            0 <= m < orgs.len() && (#[trigger] orgs[m]).sync_notifications == Some(true)
                && orgs[m].owner == one.owner && orgs[m].exclude == one.exclude;
        assert(orgs[m].owner == owner && !orgs[m].exclude.contains(name));
    }
}

// ---- what is stored ----------------------------------------------------------------
/// The columns of a stored notification. One is unread unless its thread says that it is read.
pub proof fn columns_of_a_stored_notification(
    gh_id: Seq<char>,
    repo_id: Option<i64>,
    thread: JsonView,
)
    ensures
        ({
            let s = notifications::notification_record(gh_id, repo_id, thread);
            let p = s.params;
            &&& s.sql == "INSERT INTO notification
         (gh_id, repo_id, subject_type, subject_title, subject_url, subject_number, html_url,
          reason, unread, updated_at, last_read_at)
         VALUES (?1,?2,?3,?4,?5,?6,?7,?8,?9,?10,?11)
         ON CONFLICT(gh_id) DO UPDATE SET
             subject_title  = excluded.subject_title,
             subject_url    = excluded.subject_url,
             subject_number = excluded.subject_number,
             html_url       = excluded.html_url,
             reason         = excluded.reason,
             unread         = excluded.unread,
             updated_at     = excluded.updated_at,
             last_read_at   = excluded.last_read_at
         RETURNING id"@
            &&& p.len() == 11
            &&& p[0] == SqlView::Text(gh_id)
            &&& p[1] == sql::integer_or_null(repo_id)
            &&& p[2] == SqlView::Text(thread.at("subject"@).at("type"@).str_or(""@))
            &&& p[3] == SqlView::Text(thread.at("subject"@).at("title"@).str_or(""@))
            &&& p[4] == sql::text_or_null(thread.at("subject"@).at("url"@).as_str())
            &&& p[7] == SqlView::Text(thread.at("reason"@).str_or(""@))
            &&& p[8] == SqlView::Integer(
                if thread.at("unread"@) == JsonView::Bool(false) {
                    0
                } else {
                    1
                },
            )
            &&& p[9] == SqlView::Text(thread.at("updated_at"@).str_or(""@))
            &&& p[10] == sql::text_or_null(thread.at("last_read_at"@).as_str())
            &&& thread.at("subject"@).at("url"@) matches JsonView::Str(url) ==> p[5]
                == sql::integer_or_null(notifications::subject_of(url).1) && p[6]
                == sql::text_or_null(notifications::subject_of(url).0)
            &&& !(thread.at("subject"@).at("url"@) is Str) ==> p[5] == SqlView::Null && p[6]
                == SqlView::Null
        }),
{
}

/// A notification about a pull request or an issue has its number and the address of its page;
/// one about a commit has the address alone.
pub proof fn subjects_have_their_pages(
    owner: Seq<char>,
    repo: Seq<char>,
    n: i64,
    sha: Seq<char>,
)
    requires
        !owner.contains('/'),
        !repo.contains('/'),
    ensures
        notifications::subject_of(
            "https://api.github.com/repos/"@ + owner + "/"@ + repo + "/pulls/"@ + number::int_text(
                n as int,
            ),
        ) == (
            Some(
                "https://github.com/"@ + owner + "/"@ + repo + "/pull/"@ + number::int_text(
                    n as int,
                ),
            ),
            Some(n),
        ),
        notifications::subject_of(
            "https://api.github.com/repos/"@ + owner + "/"@ + repo + "/issues/"@ + number::int_text(
                n as int,
            ),
        ) == (
            Some(
                "https://github.com/"@ + owner + "/"@ + repo + "/issues/"@ + number::int_text(
                    n as int,
                ),
            ),
            Some(n),
        ),
        notifications::subject_of(
            "https://api.github.com/repos/"@ + owner + "/"@ + repo + "/commits/"@ + sha,
        ) == (
            Some("https://github.com/"@ + owner + "/"@ + repo + "/commit/"@ + sha),
            None::<i64>,
        ),
{
    let digits = number::int_text(n as int);
    lemma_kinds();
    notifications::numbered_subjects_have_pages(owner, repo, n);
    notifications::commits_have_pages(owner, repo, sha);
    lemma_address(owner, repo, "pulls"@, digits);
    lemma_address(owner, repo, "pull"@, digits);
    lemma_address(owner, repo, "issues"@, digits);
    lemma_address(owner, repo, "commits"@, sha);
    lemma_address(owner, repo, "commit"@, sha);
}

proof fn lemma_kinds()
    ensures
        "/pulls/"@ == "/"@ + "pulls"@ + "/"@,
        "/pull/"@ == "/"@ + "pull"@ + "/"@,
        "/issues/"@ == "/"@ + "issues"@ + "/"@,
        "/commits/"@ == "/"@ + "commits"@ + "/"@,
        "/commit/"@ == "/"@ + "commit"@ + "/"@,
{
    reveal_strlit("/");
    reveal_strlit("pulls");
    reveal_strlit("/pulls/");
    reveal_strlit("pull");
    reveal_strlit("/pull/");
    reveal_strlit("issues");
    reveal_strlit("/issues/");
    reveal_strlit("commits");
    reveal_strlit("/commits/");
    reveal_strlit("commit");
    reveal_strlit("/commit/");
    assert("/pulls/"@ =~= "/"@ + "pulls"@ + "/"@);
    assert("/pull/"@ =~= "/"@ + "pull"@ + "/"@);
    assert("/issues/"@ =~= "/"@ + "issues"@ + "/"@);
    assert("/commits/"@ =~= "/"@ + "commits"@ + "/"@);
    assert("/commit/"@ =~= "/"@ + "commit"@ + "/"@);
}

proof fn lemma_address(owner: Seq<char>, repo: Seq<char>, kind: Seq<char>, tail: Seq<char>)
    ensures
        notifications::api_url(owner, repo, kind, tail) == "https://api.github.com/repos/"@ + owner
            + "/"@ + repo + ("/"@ + kind + "/"@) + tail,
        notifications::page_url(owner, repo, kind, tail) == "https://github.com/"@ + owner + "/"@
            + repo + ("/"@ + kind + "/"@) + tail,
{
    assert(notifications::api_url(owner, repo, kind, tail) =~= "https://api.github.com/repos/"@
        + owner + "/"@ + repo + ("/"@ + kind + "/"@) + tail);
    assert(notifications::page_url(owner, repo, kind, tail) =~= "https://github.com/"@ + owner
        + "/"@ + repo + ("/"@ + kind + "/"@) + tail);
}

// ---- the sync as a whole -----------------------------------------------------------
/// Notifications are asked for where they changed since the last time: the time of the last change
/// that is known goes with the request. Where nothing changed nothing is done.
pub proof fn notifications_are_asked_for_since_the_last_change(
    watched: WatchedView,
    etag: Option<Seq<char>>,
    last_modified: Option<Seq<char>>,
    now: NowView,
)
    ensures
        NotificationSyncView::start(watched).1 == ActionView::Query(
            StatementView {
                sql: "SELECT etag, last_modified, poll_interval, last_polled_at FROM poll_state WHERE endpoint = ?1"@,
                params: seq![SqlView::Text("/notifications"@)],
            },
        ),
        notifications::notifications_request(last_modified) == (GhRequestView {
            endpoint: "/notifications"@,
            method: "GET"@,
            headers: match last_modified {
                Some(date) => seq![("If-Modified-Since"@, date)],
                None => Seq::empty(),
            },
            body: None,
            paginate: false,
        }),
        NotificationSyncView::start(watched).0.next(
            ReplyView::Rows(
                seq![
                    seq![
                        sql::text_or_null(etag),
                        sql::text_or_null(last_modified),
                        SqlView::Null,
                        SqlView::Null,
                    ],
                ],
            ),
            now,
        ) == StepView::<NotificationSyncView, ()>::Do(
            NotificationSyncView { watched, stage: NotificationStageView::Call },
            ActionView::Call(notifications::notifications_request(last_modified)),
        ),
{
    assert(Seq::empty().push(("If-Modified-Since"@, last_modified->Some_0)) =~= seq![
        ("If-Modified-Since"@, last_modified->Some_0),
    ]);
    let row = seq![
        sql::text_or_null(etag),
        sql::text_or_null(last_modified),
        SqlView::Null,
        SqlView::Null,
    ];
    assert(seq![row][0] == row);
    assert(row.len() == 4);
}

/// An answer that says that nothing changed ends the sync; of any other the list is taken up, after
/// it was read which repositories and which notifications there are.
pub proof fn unchanged_notifications_end_the_sync(
    watched: WatchedView,
    threads: Seq<JsonView>,
    ids: Map<Seq<char>, i64>,
    rows: Seq<Seq<SqlView>>,
    resp: GhResponseView,
    now: NowView,
)
    requires
        resp.body == JsonView::Array(threads),
        notifications::repo_ids(rows) == Some(ids),
    ensures
        ({
            let asked = NotificationSyncView { watched, stage: NotificationStageView::Call };
            let known = NotificationSyncView {
                watched,
                stage: NotificationStageView::RepoIds(threads),
            };
            &&& resp.status == 304 ==> asked.next(ReplyView::Answer(resp), now) == StepView::<
                NotificationSyncView,
                (),
            >::Finished(())
            &&& resp.status != 304 ==> asked.next(ReplyView::Answer(resp), now) == StepView::<
                NotificationSyncView,
                (),
            >::Do(
                known,
                ActionView::Query(
                    StatementView {
                        sql: "SELECT owner || '/' || name, id FROM repo"@,
                        params: Seq::empty(),
                    },
                ),
            )
            &&& known.next(ReplyView::Rows(rows), now) == StepView::<NotificationSyncView, ()>::Do(
                NotificationSyncView {
                    watched,
                    stage: NotificationStageView::Existing(threads, ids),
                },
                ActionView::Query(
                    StatementView {
                        sql: "SELECT gh_id FROM notification"@,
                        params: Seq::empty(),
                    },
                ),
            )
        }),
{
}

/// Before threads are stored, the ids of the repositories are read by their full names, and which
/// notifications there are.
pub proof fn repositories_are_known_by_their_full_names(
    rows: Seq<Seq<SqlView>>,
    slug: Seq<char>,
    id: i64,
    ids: Map<Seq<char>, i64>,
)
    requires
        notifications::repo_ids(rows) == Some(ids),
    ensures
        notifications::SELECT_REPO_IDS@ == "SELECT owner || '/' || name, id FROM repo"@,
        notifications::SELECT_GH_IDS@ == "SELECT gh_id FROM notification"@,
        notifications::repo_ids(Seq::empty()) == Some(Map::<Seq<char>, i64>::empty()),
        notifications::repo_ids(rows.push(seq![SqlView::Text(slug), SqlView::Integer(id)]))
            == Some(ids.insert(slug, id)),
{
    let row = seq![SqlView::Text(slug), SqlView::Integer(id)];
    assert(rows.push(row).drop_last() =~= rows);
    assert(rows.push(row).last() == row);
}

/// A thread that is watched and has an id is stored: under its id, with the repository whose full
/// name it gives where that is known; the change is logged as an insertion where it was not there
/// and as an update where it was. Then the next thread follows. Every other thread is passed over.
pub proof fn watched_thread_is_stored(
    watched: WatchedView,
    work: ThreadsView,
    owner: Seq<char>,
    name: Seq<char>,
    gh_id: Seq<char>,
    id: i64,
    changed: u64,
    row_id: i64,
    now: NowView,
)
    requires
        0 <= work.next < work.threads.len(),
        owner.len() > 0,
        ({
            let thread = work.threads[work.next];
            &&& thread.at("id"@) == JsonView::Str(gh_id)
            &&& thread.at("repository"@).at("owner"@).at("login"@) == JsonView::Str(owner)
            &&& thread.at("repository"@).at("name"@) == JsonView::Str(name)
            &&& notifications::is_watched(watched, thread)
        }),
    ensures
        ({
            let thread = work.threads[work.next];
            let full_name = owner.push('/') + name;
            let rest = ThreadsView { next: work.next + 1, ..work };
            let stored = NotificationSyncView {
                watched,
                stage: NotificationStageView::Upsert {
                    is_new: !work.existing.contains(gh_id),
                    slug: Some(full_name),
                    work: rest,
                },
            };
            let logged = NotificationSyncView {
                watched,
                stage: NotificationStageView::Log(rest),
            };
            &&& NotificationSyncView::seek(watched, work) == StepView::<
                NotificationSyncView,
                (),
            >::Do(
                stored,
                ActionView::Query(
                    notifications::notification_record(
                        gh_id,
                        if work.ids.dom().contains(full_name) {
                            Some(work.ids[full_name])
                        } else {
                            None
                        },
                        thread,
                    ),
                ),
            )
            &&& stored.next(ReplyView::Rows(seq![seq![SqlView::Integer(id)]]), now) == StepView::<
                NotificationSyncView,
                (),
            >::Do(
                logged,
                ActionView::Execute(
                    StatementView {
                        sql: "INSERT INTO change_log (entity_type, entity_id, event, repo_slug, payload_json)
         VALUES (?1, ?2, ?3, ?4, ?5)"@,
                        params: seq![
                            SqlView::Text("notification"@),
                            SqlView::Integer(id),
                            SqlView::Text(
                                if work.existing.contains(gh_id) {
                                    "updated"@
                                } else {
                                    "inserted"@
                                },
                            ),
                            SqlView::Text(full_name),
                            SqlView::Null,
                        ],
                    },
                ),
            )
            &&& logged.next(ReplyView::Executed { changed, row_id }, now)
                == NotificationSyncView::seek(watched, rest)
        }),
{
    values::full_name_is_owner_slash_name(owner, name);
    let event = ChangeEvent::of(!work.existing.contains(gh_id));
    let record = db::change_record(
        "notification"@,
        id,
        event,
        Some(owner.push('/') + name),
        None,
    );
    assert(record.params =~= seq![
        SqlView::Text("notification"@),
        SqlView::Integer(id),
        SqlView::Text(
            if work.existing.contains(gh_id) {
                "updated"@
            } else {
                "inserted"@
            },
        ),
        SqlView::Text(owner.push('/') + name),
        SqlView::Null,
    ]);
    let rows = seq![seq![SqlView::Integer(id)]];
    assert(rows[0][0] == SqlView::Integer(id));
}

/// Threads are gone through from the first to the last: the answer's list is taken up at its
/// beginning, and the sync is at its end when none is left.
pub proof fn every_thread_is_gone_through(
    watched: WatchedView,
    threads: Seq<JsonView>,
    ids: Map<Seq<char>, i64>,
    existing: Seq<Seq<char>>,
    now: NowView,
)
    ensures
        (NotificationSyncView {
            watched,
            stage: NotificationStageView::Existing(threads, ids),
        }).next(
            ReplyView::Rows(existing.map_values(|s: Seq<char>| seq![SqlView::Text(s)])),
            now,
        ) == NotificationSyncView::seek(watched, ThreadsView { threads, next: 0, ids, existing }),
        NotificationSyncView::seek(
            watched,
            ThreadsView { threads, next: threads.len() as int, ids, existing },
        ) == StepView::<NotificationSyncView, ()>::Finished(()),
{
    values::every_row_is_read(Seq::empty(), existing);
}

} // verus!
