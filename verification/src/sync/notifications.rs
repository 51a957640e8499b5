//! Notifications: the threads that GitHub has to tell of, as far as they belong to
//! repositories that are watched.

use vstd::hash_map::StringHashMap;
use vstd::prelude::*;

use crate::config::{on, slug, OrgConfig, OrgView, RepoConfig, RepoView};
use crate::db::{first_id, get_poll_state, log_change, poll_state_from, ChangeEvent};
use crate::gh::{GhRequestView, Poll};
use crate::json::{Json, JsonView};
use crate::number::parse_i64;
use crate::sql::{
    get_integer, get_text, plain_statement, read_texts, Row, SqlValue, SqlView, Statement,
    StatementView,
};
use crate::sync::step::{Action, ActionView, Now, NowView, Reply, ReplyView, Step, StepView};
use crate::text::{cut, same, strip_prefix};
use crate::{config, db, number, sql, text};

verus! {

/// The endpoint of the notifications.
pub const ENDPOINT: &'static str = "/notifications";

/// Records a notification and gives its id.
pub const UPSERT_NOTIFICATION: &'static str = "INSERT INTO notification
         (gh_id, repo_id, subject_type, subject_title, subject_url, subject_number, html_url,
          reason, unread, updated_at, last_read_at)
         VALUES (?1,?2,?3,?4,?5,?6,?7,?8,?9,?10,?11)
         ON CONFLICT(gh_id) DO UPDATE SET
             subject_title  = excluded.subject_title,
             subject_url    = excluded.subject_url,
             subject_number = excluded.subject_number,
             html_url       = excluded.html_url,
             reason         = excluded.reason,
             unread         = excluded.unread,
             updated_at     = excluded.updated_at,
             last_read_at   = excluded.last_read_at
         RETURNING id";

/// Gives the full names and the ids of all repositories.
pub const SELECT_REPO_IDS: &'static str = "SELECT owner || '/' || name, id FROM repo";

/// Gives the ids, as GitHub has them, of the notifications that are recorded.
pub const SELECT_GH_IDS: &'static str = "SELECT gh_id FROM notification";

// ---- subjects ----------------------------------------------------------------------
/// What the path of a page about a subject holds in place of what its path in the API
/// holds, and the number in the rest of the path where that is a number.
pub open spec fn page_kind(kind: Seq<char>, tail: Seq<char>) -> Option<(Seq<char>, Option<i64>)> {
    let number = match number::signed_of(tail) {
        Some(n) => Some(n as i64),
        None => None,
    };
    if kind == "pulls"@ {
        Some(("pull"@, number))
    } else if kind == "issues"@ {
        Some(("issues"@, number))
    } else if kind == "commits"@ {
        Some(("commit"@, None))
    } else {
        None
    }
}

/// The four parts of the path of a subject: the owner, the name of the repository, the
/// kind of the subject, and the rest.
pub open spec fn subject_path(path: Seq<char>) -> Option<
    (Seq<char>, Seq<char>, Seq<char>, Seq<char>),
> {
    match text::cut_at(path, '/') {
        None => None,
        Some((owner, rest)) => match text::cut_at(rest, '/') {
            None => None,
            Some((repo, rest)) => match text::cut_at(rest, '/') {
                None => None,
                Some((kind, tail)) => Some((owner, repo, kind, tail)),
            },
        },
    }
}

/// The address of the page about a subject, and the number of the subject, from its
/// address in the API. Only pull requests, issues and commits have them.
pub open spec fn subject_of(api_url: Seq<char>) -> (Option<Seq<char>>, Option<i64>) {
    let prefix = "https://api.github.com/repos/"@;
    if !text::begins_with(api_url, prefix) {
        (None, None)
    } else {
        match subject_path(api_url.skip(prefix.len() as int)) {
            None => (None, None),
            Some((owner, repo, kind, tail)) => match page_kind(kind, tail) {
                None => (None, None),
                Some((html_kind, number)) => (
                    Some(
                        "https://github.com/"@ + owner + "/"@ + repo + "/"@ + html_kind + "/"@
                            + tail,
                    ),
                    number,
                ),
            },
        }
    }
}

fn kind_of_page(kind: &str, tail: &str) -> (r: Option<(&'static str, Option<i64>)>)
    ensures
        match r {
            Some((k, n)) => page_kind(kind@, tail@) == Some((k@, n)),
            None => page_kind(kind@, tail@) is None,
        },
{
    if same(kind, "pulls") {
        Some(("pull", parse_i64(tail)))
    } else if same(kind, "issues") {
        Some(("issues", parse_i64(tail)))
    } else if same(kind, "commits") {
        Some(("commit", None))
    } else {
        None
    }
}

/// The address of the page about a subject, and the number of the subject, from its
/// address in the API.
pub fn parse_subject_url(api_url: &str) -> (r: (Option<String>, Option<i64>))
    ensures
        (r.0.deep_view(), r.1) == subject_of(api_url@),
{
    let path: &str = match strip_prefix(api_url, "https://api.github.com/repos/") {
        Some(rest) => rest,
        None => {
            return (None, None);
        },
    };
    let (owner, rest): (&str, &str) = match cut(path, '/') {
        Some(parts) => parts,
        None => {
            return (None, None);
        },
    };
    let (repo, rest): (&str, &str) = match cut(rest, '/') {
        Some(parts) => parts,
        None => {
            return (None, None);
        },
    };
    let (kind, tail): (&str, &str) = match cut(rest, '/') {
        Some(parts) => parts,
        None => {
            return (None, None);
        },
    };
    match kind_of_page(kind, tail) {
        Some((html_kind, number)) => {
            let mut url: String = "https://github.com/".to_owned();
            url.append(owner);
            url.append("/");
            url.append(repo);
            url.append("/");
            url.append(html_kind);
            url.append("/");
            url.append(tail);
            (Some(url), number)
        },
        None => (None, None),
    }
}

// ---- one notification --------------------------------------------------------------
/// The page and the number of the subject of a thread.
pub open spec fn thread_subject(thread: JsonView) -> (Option<Seq<char>>, Option<i64>) {
    match thread.at("subject"@).at("url"@).as_str() {
        Some(url) => subject_of(url),
        None => (None, None),
    }
}

/// The name of the owner of the repository of a thread.
pub open spec fn thread_owner(thread: JsonView) -> Seq<char> {
    thread.at("repository"@).at("owner"@).at("login"@).str_or(""@)
}

/// The full name of the repository of a thread, from its parts.
pub open spec fn thread_slug(thread: JsonView) -> Seq<char> {
    config::slug_of(thread_owner(thread), thread.at("repository"@).at("name"@).str_or(""@))
}

/// The full name under which a change of a thread is logged: none where the thread names
/// no owner.
pub open spec fn logged_slug(thread: JsonView) -> Option<Seq<char>> {
    if thread_owner(thread).len() == 0 {
        None
    } else {
        Some(thread_slug(thread))
    }
}

/// The id of the repository of a thread, if the repository is in the cache.
pub open spec fn thread_repo(thread: JsonView, ids: Map<Seq<char>, i64>) -> Option<i64> {
    if ids.dom().contains(thread_slug(thread)) {
        Some(ids[thread_slug(thread)])
    } else {
        None
    }
}

/// The statement that records a notification and gives its id.
pub open spec fn notification_record(
    gh_id: Seq<char>,
    repo_id: Option<i64>,
    thread: JsonView,
) -> StatementView {
    StatementView {
        sql: UPSERT_NOTIFICATION@,
        params: seq![
            SqlView::Text(gh_id),
            sql::integer_or_null(repo_id),
            SqlView::Text(thread.at("subject"@).at("type"@).str_or(""@)),
            SqlView::Text(thread.at("subject"@).at("title"@).str_or(""@)),
            sql::text_or_null(thread.at("subject"@).at("url"@).as_str()),
            sql::integer_or_null(thread_subject(thread).1),
            sql::text_or_null(thread_subject(thread).0),
            SqlView::Text(thread.at("reason"@).str_or(""@)),
            sql::flag(thread.at("unread"@).as_bool() != Some(false)),
            SqlView::Text(thread.at("updated_at"@).str_or(""@)),
            sql::text_or_null(thread.at("last_read_at"@).as_str()),
        ],
    }
}

fn subject(thread: &Json) -> (r: (Option<String>, Option<i64>))
    ensures
        (r.0.deep_view(), r.1) == thread_subject(thread.deep_view()),
{
    match thread.at("subject").at("url").as_str() {
        Some(url) => parse_subject_url(url),
        None => (None, None),
    }
}

fn owner_of(thread: &Json) -> (r: &str)
    ensures
        r@ == thread_owner(thread.deep_view()),
{
    thread.at("repository").at("owner").at("login").str_or("")
}

fn slug_of_thread(thread: &Json) -> (r: String)
    ensures
        r@ == thread_slug(thread.deep_view()),
{
    slug(owner_of(thread), thread.at("repository").at("name").str_or(""))
}

/// The statement that records a notification and gives its id.
pub fn upsert_notification(gh_id: &str, repo_id: Option<i64>, thread: &Json) -> (r: Statement)
    ensures
        r.deep_view() == notification_record(gh_id@, repo_id, thread.deep_view()),
{
    let (html_url, number): (Option<String>, Option<i64>) = subject(thread);
    let page: SqlValue = match html_url {
        Some(url) => SqlValue::Text(url),
        None => SqlValue::Null,
    };
    let unread: bool = match thread.at("unread").as_bool() {
        Some(b) => b,
        None => true,
    };
    let params: Vec<SqlValue> = vec![
        SqlValue::text(gh_id),
        SqlValue::opt_integer(repo_id),
        SqlValue::text(thread.at("subject").at("type").str_or("")),
        SqlValue::text(thread.at("subject").at("title").str_or("")),
        SqlValue::opt_text(thread.at("subject").at("url").as_str()),
        SqlValue::opt_integer(number),
        page,
        SqlValue::text(thread.at("reason").str_or("")),
        SqlValue::flag(unread),
        SqlValue::text(thread.at("updated_at").str_or("")),
        SqlValue::opt_text(thread.at("last_read_at").as_str()),
    ];
    let r: Statement = Statement { sql: UPSERT_NOTIFICATION.to_owned(), params };
    assert(r.deep_view() =~= notification_record(gh_id@, repo_id, thread.deep_view()));
    r
}

// ---- what is watched ---------------------------------------------------------------
/// The full names of the repositories whose notifications are synced by configuration.
pub open spec fn configured_slugs(repos: Seq<RepoView>) -> Seq<Seq<char>>
    decreases repos.len(),
{
    if repos.len() == 0 {
        Seq::empty()
    } else {
        let before = configured_slugs(repos.drop_last());
        let repo = repos.last();
        if config::is_on(repo.sync_notifications) {
            before.push(config::slug_of(repo.owner, repo.name))
        } else {
            before
        }
    }
}

/// A user or an organisation whose notifications are synced, and the names of the repositories
/// that are left out.
pub struct Watcher {
    pub owner: String,
    pub exclude: Vec<String>,
}

/// What a user or an organisation whose notifications are synced is.
#[verifier::ext_equal]
pub struct WatcherView {
    pub owner: Seq<char>,
    pub exclude: Seq<Seq<char>>,
}

impl DeepView for Watcher {
    type V = WatcherView;

    open spec fn deep_view(&self) -> WatcherView {
        WatcherView { owner: self.owner@, exclude: self.exclude.deep_view() }
    }
}

/// Whose notifications are synced: those of the repositories with these full names, and those of
/// all repositories of these owners.
pub struct Watched {
    pub slugs: Vec<String>,
    pub owners: Vec<Watcher>,
}

/// Whose notifications are synced.
#[verifier::ext_equal]
pub struct WatchedView {
    pub slugs: Seq<Seq<char>>,
    pub owners: Seq<WatcherView>,
}

impl DeepView for Watched {
    type V = WatchedView;

    open spec fn deep_view(&self) -> WatchedView {
        WatchedView { slugs: self.slugs.deep_view(), owners: self.owners.deep_view() }
    }
}

/// The organisations whose notifications are synced by configuration.
pub open spec fn asking_owners(orgs: Seq<OrgView>) -> Seq<WatcherView>
    decreases orgs.len(),
{
    if orgs.len() == 0 {
        Seq::empty()
    } else {
        let before = asking_owners(orgs.drop_last());
        let org = orgs.last();
        if config::is_on(org.sync_notifications) {
            before.push(WatcherView { owner: org.owner, exclude: org.exclude })
        } else {
            before
        }
    }
}

/// Whose notifications are synced: those that the configuration asks for, and those of `extra`.
pub open spec fn watched_of(
    repos: Seq<RepoView>,
    orgs: Seq<OrgView>,
    extra: Seq<(Seq<char>, Seq<char>)>,
) -> WatchedView {
    WatchedView {
        slugs: configured_slugs(repos) + extra.map_values(
            |e: (Seq<char>, Seq<char>)| config::slug_of(e.0, e.1),
        ),
        owners: asking_owners(orgs),
    }
}

/// Whether a repository belongs to an owner and is not left out.
pub open spec fn belongs_to(full_name: Seq<char>, owner: WatcherView) -> bool {
    match text::cut_at(full_name, '/') {
        Some((o, name)) => o == owner.owner && !owner.exclude.contains(name),
        None => false,
    }
}

/// Whether the notifications of a repository are synced; where nothing is named, those of all
/// are.
pub open spec fn watches(watched: WatchedView, full_name: Seq<char>) -> bool {
    ||| watched.slugs.len() == 0 && watched.owners.len() == 0
    ||| watched.slugs.contains(full_name)
    ||| exists|i: int|
        0 <= i < watched.owners.len() && belongs_to(full_name, #[trigger] watched.owners[i])
}

/// Whether a thread belongs to what is watched.
pub open spec fn is_watched(watched: WatchedView, thread: JsonView) -> bool {
    watches(watched, thread.at("repository"@).at("full_name"@).str_or(""@))
}

impl Watched {
    /// Whether the notifications of a repository are synced.
    pub fn covers(&self, full_name: &str) -> (r: bool)
        ensures
            r == watches(self.deep_view(), full_name@),
    {
        if self.slugs.len() == 0 && self.owners.len() == 0 {
            return true;
        }
        if holds_text(&self.slugs, full_name) {
            return true;
        }
        let (owner, name): (&str, &str) = match cut(full_name, '/') {
            Some(parts) => parts,
            None => {
                return false;
            },
        };
        let mut i: usize = 0;
        while i < self.owners.len()
            invariant
                i <= self.owners.len(),
                text::cut_at(full_name@, '/') == Some((owner@, name@)),
                forall|k: int|
                    0 <= k < i ==> !belongs_to(
                        full_name@,
                        #[trigger] self.deep_view().owners[k],
                    ),
            decreases self.owners.len() - i,
        {
            let one: &Watcher = &self.owners[i];
            assert(self.deep_view().owners[i as int] == one.deep_view());
            if same(one.owner.as_str(), owner) && !holds_text(&one.exclude, name) {
                assert(belongs_to(full_name@, self.deep_view().owners[i as int]));
                return true;
            }
            i += 1;
        }
        false
    }
}

fn owners_that_ask(orgs: &Vec<OrgConfig>) -> (r: Vec<Watcher>)
    ensures
        r.deep_view() == asking_owners(orgs.deep_view()),
{
    let mut out: Vec<Watcher> = Vec::new();
    let ghost all = orgs.deep_view();
    let mut i: usize = 0;
    assert(all.take(0) =~= Seq::empty());
    assert(out.deep_view() =~= Seq::<WatcherView>::empty());
    while i < orgs.len()
        invariant
            i <= orgs.len(),
            all == orgs.deep_view(),
            out.deep_view() == asking_owners(all.take(i as int)),
        decreases orgs.len() - i,
    {
        let ghost before = out.deep_view();
        proof {
            assert(all.take(i + 1).drop_last() =~= all.take(i as int));
            assert(all.take(i + 1).last() == orgs@[i as int].deep_view());
        }
        if on(orgs[i].sync_notifications) {
            let one: Watcher = Watcher {
                owner: orgs[i].owner.clone(),
                exclude: orgs[i].exclude.clone(),
            };
            assert(one.deep_view() =~= (WatcherView {
                owner: orgs@[i as int].owner@,
                exclude: orgs@[i as int].exclude.deep_view(),
            }));
            out.push(one);
            assert(out.deep_view() =~= before.push(one.deep_view()));
        }
        i += 1;
    }
    assert(all.take(i as int) =~= all);
    out
}

/// Whose notifications are synced: those that the configuration asks for, and those of `extra`.
pub fn watched(
    repos: &Vec<RepoConfig>,
    orgs: &Vec<OrgConfig>,
    extra: &Vec<(String, String)>,
) -> (r: Watched)
    ensures
        r.deep_view() == watched_of(repos.deep_view(), orgs.deep_view(), extra.deep_view()),
{
    let mut out: Vec<String> = Vec::new();
    let ghost all = repos.deep_view();
    let mut i: usize = 0;
    assert(all.take(0) =~= Seq::empty());
    assert(out.deep_view() =~= Seq::<Seq<char>>::empty());
    while i < repos.len()
        invariant
            i <= repos.len(),
            all == repos.deep_view(),
            out.deep_view() == configured_slugs(all.take(i as int)),
        decreases repos.len() - i,
    {
        let ghost before = out.deep_view();
        proof {
            assert(all.take(i + 1).drop_last() =~= all.take(i as int));
            assert(all.take(i + 1).last() == repos@[i as int].deep_view());
        }
        if on(repos[i].sync_notifications) {
            out.push(repos[i].slug());
            assert(out.deep_view() =~= before.push(
                config::slug_of(repos@[i as int].owner@, repos@[i as int].name@),
            ));
        }
        i += 1;
    }
    assert(all.take(i as int) =~= all);
    let ghost f = |e: (Seq<char>, Seq<char>)| config::slug_of(e.0, e.1);
    let ghost more = extra.deep_view();
    let ghost first = out.deep_view();
    let mut k: usize = 0;
    assert(out.deep_view() =~= first + more.take(0).map_values(f));
    while k < extra.len()
        invariant
            k <= extra.len(),
            more == extra.deep_view(),
            f == (|e: (Seq<char>, Seq<char>)| config::slug_of(e.0, e.1)),
            out.deep_view() == first + more.take(k as int).map_values(f),
        decreases extra.len() - k,
    {
        let ghost before = out.deep_view();
        out.push(slug(extra[k].0.as_str(), extra[k].1.as_str()));
        assert(out.deep_view() =~= before.push(f(more[k as int])));
        assert(out.deep_view() =~= first + more.take(k + 1).map_values(f));
        k += 1;
    }
    assert(more.take(k as int) =~= more);
    Watched { slugs: out, owners: owners_that_ask(orgs) }
}

/// Whether a text is in a list.
pub fn holds_text(list: &Vec<String>, text: &str) -> (r: bool)
    ensures
        r == list.deep_view().contains(text@),
{
    let mut i: usize = 0;
    while i < list.len()
        invariant
            i <= list.len(),
            forall|k: int| 0 <= k < i ==> list.deep_view()[k] != text@,
        decreases list.len() - i,
    {
        if same(list[i].as_str(), text) {
            assert(list.deep_view()[i as int] == text@);
            return true;
        }
        i += 1;
    }
    false
}

// ---- what is known -----------------------------------------------------------------
/// The ids of the repositories, by their full names, in rows; none at all where a row does
/// not hold them.
pub open spec fn repo_ids(rows: Seq<Seq<SqlView>>) -> Option<Map<Seq<char>, i64>>
    decreases rows.len(),
{
    if rows.len() == 0 {
        Some(Map::empty())
    } else {
        let row = rows.last();
        match (repo_ids(rows.drop_last()), sql::text_in(row, 0), sql::integer_in(row, 1)) {
            (Some(before), Some(slug), Some(id)) => Some(before.insert(slug, id)),
            _ => None,
        }
    }
}

proof fn lemma_no_repo_ids(rows: Seq<Seq<SqlView>>, i: int)
    requires
        0 <= i <= rows.len(),
        repo_ids(rows.take(i)) is None,
    ensures
        repo_ids(rows) is None,
    decreases rows.len() - i,
{
    if i < rows.len() {
        assert(rows.take(i + 1).drop_last() =~= rows.take(i));
        lemma_no_repo_ids(rows, i + 1);
    } else {
        assert(rows.take(i) =~= rows);
    }
}

fn read_repo_ids(rows: &Vec<Row>) -> (r: Option<StringHashMap<i64>>)
    ensures
        match r {
            Some(m) => repo_ids(rows.deep_view()) == Some(m@),
            None => repo_ids(rows.deep_view()) is None,
        },
{
    let ghost all = rows.deep_view();
    let mut out: StringHashMap<i64> = StringHashMap::new();
    let mut i: usize = 0;
    assert(all.take(0) =~= Seq::empty());
    assert(out@ =~= Map::<Seq<char>, i64>::empty());
    while i < rows.len()
        invariant
            i <= rows.len(),
            all == rows.deep_view(),
            repo_ids(all.take(i as int)) == Some(out@),
        decreases rows.len() - i,
    {
        proof {
            assert(all.take(i + 1).drop_last() =~= all.take(i as int));
            assert(all.take(i + 1).last() == rows@[i as int].deep_view());
        }
        match (get_text(&rows[i], 0), get_integer(&rows[i], 1)) {
            (Ok(slug), Ok(id)) => {
                out.insert(slug, id);
            },
            _ => {
                proof {
                    lemma_no_repo_ids(all, i + 1);
                }
                return None;
            },
        }
        i += 1;
    }
    assert(all.take(i as int) =~= all);
    Some(out)
}

// ---- the sync ----------------------------------------------------------------------
/// A sync of the notifications.
pub struct NotificationSync {
    watched: Watched,
    stage: NotificationStage,
}

/// The threads that are still to be recorded, those from `next` on, the ids of the
/// repositories, and the notifications that were recorded before.
struct Threads {
    threads: Vec<Json>,
    next: usize,
    ids: StringHashMap<i64>,
    existing: Vec<String>,
}

/// What a sync of the notifications waits for.
enum NotificationStage {
    /// The state of the endpoint.
    Poll,
    /// The answer with the threads.
    Call,
    /// The ids of the repositories.
    RepoIds(Vec<Json>),
    /// The notifications that are recorded already.
    Existing(Vec<Json>, StringHashMap<i64>),
    /// The id of a notification.
    Upsert { is_new: bool, slug: Option<String>, work: Threads },
    /// That the change is logged.
    Log(Threads),
}

/// What a sync of the notifications is.
pub struct NotificationSyncView {
    pub watched: WatchedView,
    pub stage: NotificationStageView,
}

/// The threads that are still to be recorded, and what is known.
pub struct ThreadsView {
    pub threads: Seq<JsonView>,
    pub next: int,
    pub ids: Map<Seq<char>, i64>,
    pub existing: Seq<Seq<char>>,
}

/// What a sync of the notifications waits for.
pub enum NotificationStageView {
    Poll,
    Call,
    RepoIds(Seq<JsonView>),
    Existing(Seq<JsonView>, Map<Seq<char>, i64>),
    Upsert { is_new: bool, slug: Option<Seq<char>>, work: ThreadsView },
    Log(ThreadsView),
}

/// How a sync of the notifications goes on.
pub type NotificationStep = StepView<NotificationSyncView, ()>;

impl DeepView for Threads {
    type V = ThreadsView;

    closed spec fn deep_view(&self) -> ThreadsView {
        ThreadsView {
            threads: self.threads.deep_view(),
            next: self.next as int,
            ids: self.ids@,
            existing: self.existing.deep_view(),
        }
    }
}

impl DeepView for NotificationSync {
    type V = NotificationSyncView;

    closed spec fn deep_view(&self) -> NotificationSyncView {
        NotificationSyncView {
            watched: self.watched.deep_view(),
            stage: match self.stage {
                NotificationStage::Poll => NotificationStageView::Poll,
                NotificationStage::Call => NotificationStageView::Call,
                NotificationStage::RepoIds(t) => NotificationStageView::RepoIds(t.deep_view()),
                NotificationStage::Existing(t, ids) => NotificationStageView::Existing(
                    t.deep_view(),
                    ids@,
                ),
                NotificationStage::Upsert { is_new, slug, work } => NotificationStageView::Upsert {
                    is_new,
                    slug: slug.deep_view(),
                    work: work.deep_view(),
                },
                NotificationStage::Log(work) => NotificationStageView::Log(work.deep_view()),
            },
        }
    }
}

/// The request for the notifications, unless there is nothing newer than the known date.
pub open spec fn notifications_request(last_modified: Option<Seq<char>>) -> GhRequestView {
    GhRequestView::get(ENDPOINT@).with_known_date(last_modified)
}

impl NotificationSyncView {
    /// A sync at its beginning, and what it asks for first.
    pub open spec fn start(watched: WatchedView) -> (NotificationSyncView, ActionView) {
        (
            NotificationSyncView { watched, stage: NotificationStageView::Poll },
            ActionView::Query(db::poll_query(ENDPOINT@)),
        )
    }

    /// The step to the next thread that is watched and has an id, or to the end.
    pub open spec fn seek(watched: WatchedView, work: ThreadsView) -> NotificationStep
        decreases work.threads.len() - work.next,
    {
        let i = work.next;
        if i < 0 || i >= work.threads.len() {
            StepView::Finished(())
        } else {
            let thread = work.threads[i];
            let rest = ThreadsView { next: i + 1, ..work };
            match thread.at("id"@).as_str() {
                Some(gh_id) if is_watched(watched, thread) => StepView::Do(
                    NotificationSyncView {
                        watched,
                        stage: NotificationStageView::Upsert {
                            is_new: !work.existing.contains(gh_id),
                            slug: logged_slug(thread),
                            work: rest,
                        },
                    },
                    ActionView::Query(
                        notification_record(gh_id, thread_repo(thread, work.ids), thread),
                    ),
                ),
                _ => Self::seek(watched, rest),
            }
        }
    }

    /// The step that a sync takes when it is told what came of its last action.
    pub open spec fn next(self, reply: ReplyView, now: NowView) -> NotificationStep {
        let watched = self.watched;
        match (self.stage, reply) {
            (NotificationStageView::Poll, ReplyView::Rows(rows)) => match db::polled_state(rows) {
                Some(poll) => StepView::Do(
                    NotificationSyncView { watched, stage: NotificationStageView::Call },
                    ActionView::Call(notifications_request(poll.last_modified)),
                ),
                None => StepView::Failed,
            },
            (NotificationStageView::Call, ReplyView::Answer(resp)) => if resp.status == 304 {
                StepView::Finished(())
            } else {
                match resp.body.as_array() {
                    Some(threads) => StepView::Do(
                        NotificationSyncView {
                            watched,
                            stage: NotificationStageView::RepoIds(threads),
                        },
                        ActionView::Query(
                            StatementView { sql: SELECT_REPO_IDS@, params: Seq::empty() },
                        ),
                    ),
                    None => StepView::Finished(()),
                }
            },
            (NotificationStageView::RepoIds(threads), ReplyView::Rows(rows)) => match repo_ids(
                rows,
            ) {
                Some(ids) => StepView::Do(
                    NotificationSyncView {
                        watched,
                        stage: NotificationStageView::Existing(threads, ids),
                    },
                    ActionView::Query(StatementView { sql: SELECT_GH_IDS@, params: Seq::empty() }),
                ),
                None => StepView::Failed,
            },
            (NotificationStageView::Existing(threads, ids), ReplyView::Rows(rows)) => {
                match sql::texts_of(rows) {
                    Some(existing) => Self::seek(
                        watched,
                        ThreadsView { threads, next: 0, ids, existing },
                    ),
                    None => StepView::Failed,
                }
            },
            (NotificationStageView::Upsert { is_new, slug, work }, ReplyView::Rows(rows)) => {
                match db::id_in(rows) {
                    Some(id) => StepView::Do(
                        NotificationSyncView { watched, stage: NotificationStageView::Log(work) },
                        ActionView::Execute(
                            db::change_record(
                                "notification"@,
                                id,
                                ChangeEvent::of(is_new),
                                slug,
                                None,
                            ),
                        ),
                    ),
                    None => StepView::Failed,
                }
            },
            (NotificationStageView::Log(work), ReplyView::Executed { changed, row_id }) => {
                Self::seek(watched, work)
            },
            _ => StepView::Failed,
        }
    }
}

/// A sync of the notifications of whatever is watched at its beginning, and what it asks for
/// first.
pub fn sync(watched: Watched) -> (r: (NotificationSync, Action))
    ensures
        (r.0.deep_view(), r.1.deep_view()) == NotificationSyncView::start(watched.deep_view()),
{
    let query: Statement = get_poll_state(ENDPOINT);
    (NotificationSync { watched, stage: NotificationStage::Poll }, Action::Query(query))
}

impl NotificationSync {
    fn seek(watched: Watched, from: Threads) -> (r: Step<NotificationSync, ()>)
        ensures
            r.deep_view() == NotificationSyncView::seek(watched.deep_view(), from.deep_view()),
    {
        let ghost start = from.deep_view();
        let mut work: Threads = from;
        while work.next < work.threads.len()
            invariant
                start == from.deep_view(),
                NotificationSyncView::seek(watched.deep_view(), start)
                    == NotificationSyncView::seek(watched.deep_view(), work.deep_view()),
            decreases work.threads.len() - work.next,
        {
            let i: usize = work.next;
            let ghost before = work.deep_view();
            work.next = i + 1;
            assert(work.deep_view() == (ThreadsView { next: i + 1, ..before }));
            let thread: &Json = &work.threads[i];
            if let Some(gh_id) = thread.at("id").as_str() {
                let full_name: &str = thread.at("repository").at("full_name").str_or("");
                if watched.covers(full_name) {
                    assert(is_watched(watched.deep_view(), thread.deep_view()));
                    let name: String = slug_of_thread(thread);
                    let repo_id: Option<i64> = match work.ids.get(name.as_str()) {
                        Some(id) => Some(*id),
                        None => None,
                    };
                    let record: Statement = upsert_notification(gh_id, repo_id, thread);
                    let is_new: bool = !holds_text(&work.existing, gh_id);
                    let slug: Option<String> = if owner_of(thread).is_empty() {
                        None
                    } else {
                        Some(name)
                    };
                    return Step::Do(
                        NotificationSync {
                            watched,
                            stage: NotificationStage::Upsert { is_new, slug, work },
                        },
                        Action::Query(record),
                    );
                }
            }
        }
        Step::Finished(())
    }

    /// Goes on with what came of the last action.
    pub fn step(self, reply: Reply, now: &Now) -> (r: Step<NotificationSync, ()>)
        ensures
            r.deep_view() == self.deep_view().next(reply.deep_view(), now.deep_view()),
    {
        let watched: Watched = self.watched;
        match (self.stage, reply) {
            (NotificationStage::Poll, Reply::Rows(rows)) => match poll_state_from(&rows) {
                Ok(poll) => {
                    let request: Poll = Poll {
                        endpoint: ENDPOINT.to_owned(),
                        etag: None,
                        last_modified: poll.last_modified,
                        paginate: false,
                    };
                    Step::Do(
                        NotificationSync { watched, stage: NotificationStage::Call },
                        Action::Call(request),
                    )
                },
                Err(_) => Step::Failed,
            },
            (NotificationStage::Call, Reply::Answer(resp)) => {
                if resp.is_not_modified() {
                    Step::Finished(())
                } else {
                    match resp.body.into_array() {
                        Some(threads) => Step::Do(
                            NotificationSync {
                                watched,
                                stage: NotificationStage::RepoIds(threads),
                            },
                            Action::Query(plain_statement(SELECT_REPO_IDS)),
                        ),
                        None => Step::Finished(()),
                    }
                }
            },
            (NotificationStage::RepoIds(threads), Reply::Rows(rows)) => match read_repo_ids(&rows) {
                Some(ids) => Step::Do(
                    NotificationSync { watched, stage: NotificationStage::Existing(threads, ids) },
                    Action::Query(plain_statement(SELECT_GH_IDS)),
                ),
                None => Step::Failed,
            },
            (NotificationStage::Existing(threads, ids), Reply::Rows(rows)) => {
                match read_texts(&rows) {
                    Some(existing) => NotificationSync::seek(
                        watched,
                        Threads { threads, next: 0, ids, existing },
                    ),
                    None => Step::Failed,
                }
            },
            (NotificationStage::Upsert { is_new, slug, work }, Reply::Rows(rows)) => {
                match first_id(&rows) {
                    Ok(Some(id)) => {
                        let name: Option<&str> = match &slug {
                            Some(s) => Some(s.as_str()),
                            None => None,
                        };
                        let record: Statement = log_change(
                            "notification",
                            id,
                            ChangeEvent::for_row(is_new),
                            name,
                            None,
                        );
                        Step::Do(
                            NotificationSync { watched, stage: NotificationStage::Log(work) },
                            Action::Execute(record),
                        )
                    },
                    _ => Step::Failed,
                }
            },
            (NotificationStage::Log(work), Reply::Executed { .. }) => {
                NotificationSync::seek(watched, work)
            },
            _ => Step::Failed,
        }
    }
}

// ---- what holds of every subject ---------------------------------------------------
proof fn lemma_cut(a: Seq<char>, b: Seq<char>)
    requires
        !a.contains('/'),
    ensures
        text::cut_at(a + "/"@ + b, '/') == Some((a, b)),
{
    reveal_strlit("/");
    let s = a + "/"@ + b;
    assert forall|k: int| 0 <= k < a.len() implies #[trigger] s[k] != '/' by {
        assert(a.contains(a[k]));
    }
    text::lemma_place_of(s, '/', a.len() as int);
    assert(s.take(a.len() as int) =~= a);
    assert(s.skip(a.len() as int + 1) =~= b);
}

/// The address in the API of a subject of a repository.
pub open spec fn api_url(
    owner: Seq<char>,
    repo: Seq<char>,
    kind: Seq<char>,
    tail: Seq<char>,
) -> Seq<char> {
    "https://api.github.com/repos/"@ + owner + "/"@ + repo + "/"@ + kind + "/"@ + tail
}

/// The address of the page about a subject of a repository.
pub open spec fn page_url(
    owner: Seq<char>,
    repo: Seq<char>,
    kind: Seq<char>,
    tail: Seq<char>,
) -> Seq<char> {
    "https://github.com/"@ + owner + "/"@ + repo + "/"@ + kind + "/"@ + tail
}

proof fn lemma_path(owner: Seq<char>, repo: Seq<char>, kind: Seq<char>, tail: Seq<char>)
    requires
        !owner.contains('/'),
        !repo.contains('/'),
        !kind.contains('/'),
    ensures
        text::begins_with(
            api_url(owner, repo, kind, tail),
            "https://api.github.com/repos/"@,
        ),
        subject_path(
            api_url(owner, repo, kind, tail).skip("https://api.github.com/repos/"@.len() as int),
        ) == Some((owner, repo, kind, tail)),
{
    let url = api_url(owner, repo, kind, tail);
    let prefix = "https://api.github.com/repos/"@;
    assert(url.take(prefix.len() as int) =~= prefix);
    let rest2 = kind + "/"@ + tail;
    let rest1 = repo + "/"@ + rest2;
    assert(url.skip(prefix.len() as int) =~= owner + "/"@ + rest1);
    lemma_cut(owner, rest1);
    lemma_cut(repo, rest2);
    lemma_cut(kind, tail);
}

proof fn lemma_subject(owner: Seq<char>, repo: Seq<char>, kind: Seq<char>, tail: Seq<char>)
    requires
        !owner.contains('/'),
        !repo.contains('/'),
        !kind.contains('/'),
    ensures
        subject_of(api_url(owner, repo, kind, tail)) == match page_kind(kind, tail) {
            Some((page, number)) => (Some(page_url(owner, repo, page, tail)), number),
            None => (None, None),
        },
{
    lemma_path(owner, repo, kind, tail);
}

/// Pull requests and issues have pages, for every repository and every number: the plural
/// of the address in the API becomes the singular of the page, and the subject has the
/// number that its address ends with.
pub proof fn numbered_subjects_have_pages(owner: Seq<char>, repo: Seq<char>, number: i64)
    requires
        !owner.contains('/'),
        !repo.contains('/'),
    ensures
        subject_of(api_url(owner, repo, "pulls"@, number::int_text(number as int))) == (
            Some(page_url(owner, repo, "pull"@, number::int_text(number as int))),
            Some(number),
        ),
        subject_of(api_url(owner, repo, "issues"@, number::int_text(number as int))) == (
            Some(page_url(owner, repo, "issues"@, number::int_text(number as int))),
            Some(number),
        ),
{
    reveal_strlit("pulls");
    reveal_strlit("issues");
    let digits = number::int_text(number as int);
    number::number_text_reads_back(number, 0);
    assert("pulls"@.len() != "issues"@.len());
    lemma_subject(owner, repo, "pulls"@, digits);
    lemma_subject(owner, repo, "issues"@, digits);
}

/// Commits have pages, and no number.
pub proof fn commits_have_pages(owner: Seq<char>, repo: Seq<char>, sha: Seq<char>)
    requires
        !owner.contains('/'),
        !repo.contains('/'),
    ensures
        subject_of(api_url(owner, repo, "commits"@, sha)) == (
            Some(page_url(owner, repo, "commit"@, sha)),
            None::<i64>,
        ),
{
    reveal_strlit("pulls");
    reveal_strlit("issues");
    reveal_strlit("commits");
    assert("commits"@.len() != "pulls"@.len());
    assert("commits"@.len() != "issues"@.len());
    lemma_subject(owner, repo, "commits"@, sha);
}

/// Any other kind of subject has neither a page nor a number.
pub proof fn other_subjects_have_no_pages(
    owner: Seq<char>,
    repo: Seq<char>,
    kind: Seq<char>,
    tail: Seq<char>,
)
    requires
        !owner.contains('/'),
        !repo.contains('/'),
        !kind.contains('/'),
        kind != "pulls"@ && kind != "issues"@ && kind != "commits"@,
    ensures
        subject_of(api_url(owner, repo, kind, tail)) == (None::<Seq<char>>, None::<i64>),
{
    lemma_subject(owner, repo, kind, tail);
}

// ---- recording twice ---------------------------------------------------------------
/// A row of the table of notifications, but for the ids.
pub struct NotificationRow {
    pub repo_id: SqlView,
    pub subject_type: SqlView,
    pub subject_title: SqlView,
    pub subject_url: SqlView,
    pub subject_number: SqlView,
    pub html_url: SqlView,
    pub reason: SqlView,
    pub unread: SqlView,
    pub updated_at: SqlView,
    pub last_read_at: SqlView,
}

/// The table of notifications, by the ids that GitHub gave them, after a statement that records
/// one: a row that is there keeps its repository and the type of its subject.
pub open spec fn notifications_after(
    table: Map<SqlView, NotificationRow>,
    s: StatementView,
) -> Map<SqlView, NotificationRow> {
    let p = s.params;
    if s.sql != UPSERT_NOTIFICATION@ || p.len() != 11 {
        table
    } else {
        let given = NotificationRow {
            repo_id: p[1],
            subject_type: p[2],
            subject_title: p[3],
            subject_url: p[4],
            subject_number: p[5],
            html_url: p[6],
            reason: p[7],
            unread: p[8],
            updated_at: p[9],
            last_read_at: p[10],
        };
        let old = if table.dom().contains(p[0]) {
            table[p[0]]
        } else {
            given
        };
        table.insert(
            p[0],
            NotificationRow { repo_id: old.repo_id, subject_type: old.subject_type, ..given },
        )
    }
}

/// A notification that is recorded twice has one row. What the thread says of itself is what it
/// said last; its repository and the type of its subject are those that were recorded first.
/// Of other notifications nothing changes.
pub proof fn notification_is_recorded_once(
    table: Map<SqlView, NotificationRow>,
    gh_id: Seq<char>,
    first_repo: Option<i64>,
    first: JsonView,
    later_repo: Option<i64>,
    later: JsonView,
    other: SqlView,
)
    requires
        !table.dom().contains(SqlView::Text(gh_id)),
    ensures
        ({
            let once = notifications_after(table, notification_record(gh_id, first_repo, first));
            let twice = notifications_after(once, notification_record(gh_id, later_repo, later));
            let key = SqlView::Text(gh_id);
            &&& twice.dom() == table.dom().insert(key)
            &&& twice[key] == (NotificationRow {
                repo_id: sql::integer_or_null(first_repo),
                subject_type: SqlView::Text(first.at("subject"@).at("type"@).str_or(""@)),
                subject_title: SqlView::Text(later.at("subject"@).at("title"@).str_or(""@)),
                subject_url: sql::text_or_null(later.at("subject"@).at("url"@).as_str()),
                subject_number: sql::integer_or_null(thread_subject(later).1),
                html_url: sql::text_or_null(thread_subject(later).0),
                reason: SqlView::Text(later.at("reason"@).str_or(""@)),
                unread: sql::flag(later.at("unread"@) != JsonView::Bool(false)),
                updated_at: SqlView::Text(later.at("updated_at"@).str_or(""@)),
                last_read_at: sql::text_or_null(later.at("last_read_at"@).as_str()),
            })
            &&& other != key && table.dom().contains(other) ==> twice[other] == table[other]
        }),
{
    let once = notifications_after(table, notification_record(gh_id, first_repo, first));
    let twice = notifications_after(once, notification_record(gh_id, later_repo, later));
    assert(twice.dom() =~= table.dom().insert(SqlView::Text(gh_id)));
}

/// A thread without an id, and one that is not watched, is passed over: nothing is recorded of
/// it, and the sync goes on with the next one.
pub proof fn nameless_thread_is_passed_over(watched: WatchedView, work: ThreadsView)
    requires
        0 <= work.next < work.threads.len(),
        work.threads[work.next].at("id"@).as_str() is None || !is_watched(
            watched,
            work.threads[work.next],
        ),
    ensures
        NotificationSyncView::seek(watched, work) == NotificationSyncView::seek(
            watched,
            ThreadsView { next: work.next + 1, ..work },
        ),
{
}

/// Where an organisation asks for notifications, those of all its repositories are synced, but
/// for those that it leaves out.
pub proof fn organisations_repos_are_watched(
    repos: Seq<RepoView>,
    orgs: Seq<OrgView>,
    extra: Seq<(Seq<char>, Seq<char>)>,
    i: int,
    name: Seq<char>,
)
    requires
        0 <= i < orgs.len(),
        config::is_on(orgs[i].sync_notifications),
        !orgs[i].owner.contains('/'),
        !orgs[i].exclude.contains(name),
    ensures
        watches(watched_of(repos, orgs, extra), config::slug_of(orgs[i].owner, name)),
{
    let full_name = config::slug_of(orgs[i].owner, name);
    lemma_cut(orgs[i].owner, name);
    lemma_asking_owner(orgs, i);
    let owners = watched_of(repos, orgs, extra).owners;
    let one = WatcherView { owner: orgs[i].owner, exclude: orgs[i].exclude };
    let k = choose|k: int| 0 <= k < owners.len() && owners[k] == one;
    assert(belongs_to(full_name, owners[k]));
}

proof fn lemma_asking_owner(orgs: Seq<OrgView>, i: int)
    requires
        0 <= i < orgs.len(),
        config::is_on(orgs[i].sync_notifications),
    ensures
        asking_owners(orgs).contains(
            WatcherView { owner: orgs[i].owner, exclude: orgs[i].exclude },
        ),
    decreases orgs.len(),
{
    let one = WatcherView { owner: orgs[i].owner, exclude: orgs[i].exclude };
    let all = asking_owners(orgs);
    if i == orgs.len() - 1 {
        assert(all[all.len() - 1] == one);
    } else {
        let fewer = orgs.drop_last();
        lemma_asking_owner(fewer, i);
        let before = asking_owners(fewer);
        let k = choose|k: int| 0 <= k < before.len() && before[k] == one;
        assert(all[k] == one);
    }
}

} // verus!
