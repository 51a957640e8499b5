//! The command server: the subscriptions of its clients, and how it answers them.

use vstd::prelude::*;

use crate::config::slug;
use crate::http::respond_200;
use crate::json::{to_text, Json, JsonView};
use crate::process::{Invocation, InvocationView};
use crate::text::same;
use crate::{config, http, json};

verus! {

/// The port on which the server listens.
pub const DEFAULT_PORT: u16 = 7748;

/// After how many seconds without a sign of life a subscription ends.
pub const DEFAULT_TTL_SECS: u64 = 30;

// ---- subscriptions -----------------------------------------------------------------
/// What a client wants of a repository.
struct RepoSub {
    owner: String,
    repo: String,
    pr_sync: bool,
    notifications: bool,
}

/// What a client wants of a repository.
#[verifier::ext_equal]
pub struct RepoSubView {
    pub owner: Seq<char>,
    pub repo: Seq<char>,
    pub pr_sync: bool,
    pub notifications: bool,
}

impl DeepView for RepoSub {
    type V = RepoSubView;

    closed spec fn deep_view(&self) -> RepoSubView {
        RepoSubView {
            owner: self.owner@,
            repo: self.repo@,
            pr_sync: self.pr_sync,
            notifications: self.notifications,
        }
    }
}

/// The subscription of one client.
struct Sub {
    uuid: String,
    last_seen: u128,
    repos: Vec<RepoSub>,
}

/// The subscription of one client: when the client was last heard of, in nanoseconds, and
/// what it wants of which repositories.
#[verifier::ext_equal]
pub struct SubView {
    pub last_seen: u128,
    pub repos: Seq<RepoSubView>,
}

impl DeepView for Sub {
    type V = SubView;

    closed spec fn deep_view(&self) -> SubView {
        SubView { last_seen: self.last_seen, repos: self.repos.deep_view() }
    }
}

/// The subscriptions of all clients. Time is counted in nanoseconds from some point that
/// stays the same.
pub struct Subscriptions {
    subs: Vec<Sub>,
    ttl: u128,
}

/// Whether a subscription is still alive: the client was heard of less than `ttl` ago.
pub open spec fn is_live(sub: SubView, ttl: u128, now: u128) -> bool {
    (if now >= sub.last_seen {
        now - sub.last_seen
    } else {
        0
    }) < ttl
}

/// Where in a list a repository stands, or the length of the list.
pub open spec fn place_of_repo(
    repos: Seq<RepoSubView>,
    owner: Seq<char>,
    repo: Seq<char>,
) -> nat
    decreases repos.len(),
{
    if repos.len() == 0 || (repos[0].owner == owner && repos[0].repo == repo) {
        0
    } else {
        1 + place_of_repo(repos.skip(1), owner, repo)
    }
}

/// A list with what a client wants of a repository. What it wanted before, it still wants.
pub open spec fn with_repo(repos: Seq<RepoSubView>, wish: RepoSubView) -> Seq<RepoSubView> {
    let i = place_of_repo(repos, wish.owner, wish.repo) as int;
    if i < repos.len() {
        repos.update(
            i,
            RepoSubView {
                pr_sync: repos[i].pr_sync || wish.pr_sync,
                notifications: repos[i].notifications || wish.notifications,
                ..repos[i]
            },
        )
    } else {
        repos.push(wish)
    }
}

/// Whether a client has a subscription that is still alive.
pub open spec fn is_subscribed(
    subs: Map<Seq<char>, SubView>,
    ttl: u128,
    uuid: Seq<char>,
    now: u128,
) -> bool {
    subs.dom().contains(uuid) && is_live(subs[uuid], ttl, now)
}

/// The subscriptions with a wish of a client, who is heard of now. What the client wanted in a
/// subscription that has ended is forgotten.
pub open spec fn with_wish(
    subs: Map<Seq<char>, SubView>,
    ttl: u128,
    uuid: Seq<char>,
    wish: RepoSubView,
    now: u128,
) -> Map<Seq<char>, SubView> {
    let before = if is_subscribed(subs, ttl, uuid, now) {
        subs[uuid].repos
    } else {
        Seq::empty()
    };
    subs.insert(uuid, SubView { last_seen: now, repos: with_repo(before, wish) })
}

/// The subscriptions after a sign of life of a client. A subscription that has ended stays
/// ended.
pub open spec fn with_sign(
    subs: Map<Seq<char>, SubView>,
    ttl: u128,
    uuid: Seq<char>,
    now: u128,
) -> Map<Seq<char>, SubView> {
    if is_subscribed(subs, ttl, uuid, now) {
        subs.insert(uuid, SubView { last_seen: now, ..subs[uuid] })
    } else {
        subs
    }
}

/// What of a repository a client may want.
#[derive(Clone, Copy, PartialEq, Eq, Structural, Debug)]
pub enum Want {
    Prs,
    Notifications,
}

impl RepoSubView {
    /// Whether the client wants that of the repository.
    pub open spec fn wants(self, what: Want) -> bool {
        match what {
            Want::Prs => self.pr_sync,
            Want::Notifications => self.notifications,
        }
    }
}

impl RepoSub {
    fn wants(&self, what: Want) -> (r: bool)
        ensures
            r == self.deep_view().wants(what),
    {
        match what {
            Want::Prs => self.pr_sync,
            Want::Notifications => self.notifications,
        }
    }
}

/// Whether a subscription wants that of a repository.
pub open spec fn sub_wants(sub: SubView, what: Want, owner: Seq<char>, repo: Seq<char>) -> bool {
    exists|i: int|
        0 <= i < sub.repos.len() && (#[trigger] sub.repos[i]).wants(what) && sub.repos[i].owner
            == owner && sub.repos[i].repo == repo
}

/// Whether a live subscription wants that of a repository.
pub open spec fn is_wanted(
    subs: Map<Seq<char>, SubView>,
    ttl: u128,
    now: u128,
    what: Want,
    owner: Seq<char>,
    repo: Seq<char>,
) -> bool {
    exists|uuid: Seq<char>|
        #![trigger subs[uuid]]
        subs.dom().contains(uuid) && is_live(subs[uuid], ttl, now) && sub_wants(
            subs[uuid],
            what,
            owner,
            repo,
        )
}

spec fn holds_uuid(subs: Seq<Sub>, uuid: Seq<char>) -> bool {
    exists|i: int| 0 <= i < subs.len() && (#[trigger] subs[i]).uuid@ == uuid
}

spec fn index_of(subs: Seq<Sub>, uuid: Seq<char>) -> int {
    choose|i: int| 0 <= i < subs.len() && (#[trigger] subs[i]).uuid@ == uuid
}

spec fn distinct(subs: Seq<Sub>) -> bool {
    forall|i: int, j: int|
        0 <= i < subs.len() && 0 <= j < subs.len() && (#[trigger] subs[i]).uuid@ == (
        #[trigger] subs[j]).uuid@ ==> i == j
}

spec fn by_uuid(subs: Seq<Sub>) -> Map<Seq<char>, SubView> {
    Map::new(
        |uuid: Seq<char>| holds_uuid(subs, uuid),
        |uuid: Seq<char>| subs[index_of(subs, uuid)].deep_view(),
    )
}

proof fn lemma_by_uuid(subs: Seq<Sub>, i: int)
    requires
        distinct(subs),
        0 <= i < subs.len(),
    ensures
        by_uuid(subs).dom().contains(subs[i].uuid@),
        by_uuid(subs)[subs[i].uuid@] == subs[i].deep_view(),
{
    assert(holds_uuid(subs, subs[i].uuid@));
    let k = index_of(subs, subs[i].uuid@);
    assert(subs[k].uuid@ == subs[i].uuid@);
}

proof fn lemma_place_of_repo(repos: Seq<RepoSubView>, owner: Seq<char>, repo: Seq<char>, i: int)
    requires
        0 <= i <= repos.len(),
        forall|k: int|
            0 <= k < i ==> !((#[trigger] repos[k]).owner == owner && repos[k].repo == repo),
        i < repos.len() ==> repos[i].owner == owner && repos[i].repo == repo,
    ensures
        place_of_repo(repos, owner, repo) == i,
    decreases repos.len(),
{
    if repos.len() > 0 && !(repos[0].owner == owner && repos[0].repo == repo) {
        let t = repos.skip(1);
        assert forall|k: int| 0 <= k < i - 1 implies !((#[trigger] t[k]).owner == owner
            && t[k].repo == repo) by {
            assert(t[k] == repos[k + 1]);
        }
        assert(i >= 1);
        if i < repos.len() {
            assert(t[i - 1] == repos[i]);
        }
        lemma_place_of_repo(t, owner, repo, i - 1);
    }
}

impl Sub {
    fn live(&self, ttl: u128, now: u128) -> (r: bool)
        ensures
            r == is_live(self.deep_view(), ttl, now),
    {
        let elapsed: u128 = if now >= self.last_seen {
            now - self.last_seen
        } else {
            0
        };
        elapsed < ttl
    }
}

fn add_wish(repos: Vec<RepoSub>, wish: RepoSub) -> (r: Vec<RepoSub>)
    ensures
        r.deep_view() == with_repo(repos.deep_view(), wish.deep_view()),
{
    let ghost all = repos.deep_view();
    let mut list: Vec<RepoSub> = repos;
    let mut i: usize = 0;
    while i < list.len()
        invariant
            i <= list.len(),
            all == repos.deep_view(),
            list.deep_view() == all,
            forall|k: int|
                0 <= k < i ==> !((#[trigger] all[k]).owner == wish.owner@ && all[k].repo
                    == wish.repo@),
        decreases list.len() - i,
    {
        assert(all[i as int] == list@[i as int].deep_view());
        if same(list[i].owner.as_str(), wish.owner.as_str()) && same(
            list[i].repo.as_str(),
            wish.repo.as_str(),
        ) {
            proof {
                lemma_place_of_repo(all, wish.owner@, wish.repo@, i as int);
            }
            let old: RepoSub = list.remove(i);
            let new: RepoSub = RepoSub {
                pr_sync: old.pr_sync || wish.pr_sync,
                notifications: old.notifications || wish.notifications,
                owner: old.owner,
                repo: old.repo,
            };
            list.insert(i, new);
            assert(list.deep_view() =~= with_repo(all, wish.deep_view()));
            return list;
        }
        i += 1;
    }
    proof {
        lemma_place_of_repo(all, wish.owner@, wish.repo@, i as int);
    }
    list.push(wish);
    assert(list.deep_view() =~= all.push(wish.deep_view()));
    list
}

/// Whether a pair of texts is in a list.
fn holds_pair(list: &Vec<(String, String)>, a: &str, b: &str) -> (r: bool)
    ensures
        r == list.deep_view().contains((a@, b@)),
{
    let mut i: usize = 0;
    while i < list.len()
        invariant
            i <= list.len(),
            forall|k: int| 0 <= k < i ==> list.deep_view()[k] != (a@, b@),
        decreases list.len() - i,
    {
        if same(list[i].0.as_str(), a) && same(list[i].1.as_str(), b) {
            assert(list.deep_view()[i as int] == (a@, b@));
            return true;
        }
        assert(list.deep_view()[i as int] == (list@[i as int].0@, list@[i as int].1@));
        i += 1;
    }
    false
}

impl Subscriptions {
    /// The subscriptions by the names of the clients.
    pub closed spec fn subs(&self) -> Map<Seq<char>, SubView> {
        by_uuid(self.subs@)
    }

    /// For how many nanoseconds a subscription lives without a sign of life.
    pub closed spec fn ttl(&self) -> u128 {
        self.ttl
    }

    /// Whether every client has one subscription.
    pub closed spec fn well_formed(&self) -> bool {
        distinct(self.subs@)
    }

    /// No subscriptions; each one is to live for `ttl` nanoseconds.
    pub fn new(ttl: u128) -> (r: Subscriptions)
        ensures
            r.well_formed(),
            r.subs() == Map::<Seq<char>, SubView>::empty(),
            r.ttl() == ttl,
    {
        let r: Subscriptions = Subscriptions { subs: Vec::new(), ttl };
        assert(by_uuid(r.subs@) =~= Map::<Seq<char>, SubView>::empty());
        r
    }

    fn find(&self, uuid: &str) -> (r: Option<usize>)
        ensures
            match r {
                Some(i) => i < self.subs@.len() && self.subs@[i as int].uuid@ == uuid@,
                None => !holds_uuid(self.subs@, uuid@),
            },
    {
        let mut i: usize = 0;
        while i < self.subs.len()
            invariant
                i <= self.subs.len(),
                forall|k: int| 0 <= k < i ==> (#[trigger] self.subs@[k]).uuid@ != uuid@,
            decreases self.subs.len() - i,
        {
            if same(self.subs[i].uuid.as_str(), uuid) {
                return Some(i);
            }
            i += 1;
        }
        None
    }

    fn put(&mut self, sub: Sub)
        requires
            old(self).well_formed(),
            !holds_uuid(old(self).subs@, sub.uuid@),
        ensures
            final(self).well_formed(),
            final(self).ttl() == old(self).ttl(),
            final(self).subs() == old(self).subs().insert(sub.uuid@, sub.deep_view()),
    {
        let ghost before = self.subs@;
        self.subs.push(sub);
        proof {
            let after = self.subs@;
            assert(distinct(after)) by {
                assert forall|i: int, j: int|
                    0 <= i < after.len() && 0 <= j < after.len() && (#[trigger] after[i]).uuid@ == (
                    #[trigger] after[j]).uuid@ implies i == j by {
                    if i < before.len() {
                        assert(after[i] == before[i]);
                    }
                    if j < before.len() {
                        assert(after[j] == before[j]);
                    }
                }
            }
            lemma_by_uuid(after, after.len() - 1);
            assert forall|u: Seq<char>| #[trigger] by_uuid(after).dom().contains(u) <==> by_uuid(
                before,
            ).insert(sub.uuid@, sub.deep_view()).dom().contains(u) by {
                if holds_uuid(before, u) {
                    let i = index_of(before, u);
                    assert(after[i] == before[i]);
                }
                if holds_uuid(after, u) && u != sub.uuid@ {
                    let i = index_of(after, u);
                    assert(after[i] == before[i]);
                }
            }
            assert forall|u: Seq<char>| #[trigger] by_uuid(after).dom().contains(u) implies by_uuid(
                after,
            )[u] == by_uuid(before).insert(sub.uuid@, sub.deep_view())[u] by {
                if u != sub.uuid@ {
                    let i = index_of(after, u);
                    assert(after[i] == before[i]);
                    lemma_by_uuid(after, i);
                    lemma_by_uuid(before, i);
                }
            }
            assert(by_uuid(after) =~= by_uuid(before).insert(sub.uuid@, sub.deep_view()));
        }
    }

    fn take(&mut self, i: usize) -> (r: Sub)
        requires
            old(self).well_formed(),
            i < old(self).subs@.len(),
        ensures
            final(self).well_formed(),
            final(self).ttl() == old(self).ttl(),
            r == old(self).subs@[i as int],
            final(self).subs@.len() == old(self).subs@.len() - 1,
            !holds_uuid(final(self).subs@, r.uuid@),
            final(self).subs() == old(self).subs().remove(r.uuid@),
            old(self).subs().dom().contains(r.uuid@),
            old(self).subs()[r.uuid@] == r.deep_view(),
    {
        let ghost before = self.subs@;
        let r: Sub = self.subs.remove(i);
        proof {
            let after = self.subs@;
            lemma_by_uuid(before, i as int);
            assert forall|k: int| 0 <= k < after.len() implies #[trigger] after[k] == before[if k
                < i {
                k
            } else {
                k + 1
            }] by {}
            assert(distinct(after));
            assert(!holds_uuid(after, r.uuid@));
            assert forall|u: Seq<char>| #[trigger] by_uuid(after).dom().contains(u) <==> by_uuid(
                before,
            ).remove(r.uuid@).dom().contains(u) by {
                if holds_uuid(before, u) && u != r.uuid@ {
                    let k = index_of(before, u);
                    assert(after[if k < i {
                        k
                    } else {
                        k - 1
                    }] == before[k]);
                }
            }
            assert forall|u: Seq<char>| #[trigger] by_uuid(after).dom().contains(u) implies by_uuid(
                after,
            )[u] == by_uuid(before).remove(r.uuid@)[u] by {
                let k = index_of(after, u);
                lemma_by_uuid(after, k);
                lemma_by_uuid(
                    before,
                    if k < i {
                        k
                    } else {
                        k + 1
                    },
                );
            }
            assert(by_uuid(after) =~= by_uuid(before).remove(r.uuid@));
        }
        r
    }

    fn register(&mut self, uuid: String, wish: RepoSub, now: u128)
        requires
            old(self).well_formed(),
        ensures
            final(self).well_formed(),
            final(self).ttl() == old(self).ttl(),
            final(self).subs() == with_wish(
                old(self).subs(),
                old(self).ttl(),
                uuid@,
                wish.deep_view(),
                now,
            ),
    {
        let ghost before = self.subs();
        let ttl: u128 = self.ttl;
        let repos: Vec<RepoSub> = match self.find(uuid.as_str()) {
            Some(i) => {
                let sub: Sub = self.take(i);
                if sub.live(ttl, now) {
                    sub.repos
                } else {
                    Vec::new()
                }
            },
            None => {
                assert(!before.dom().contains(uuid@));
                Vec::new()
            },
        };
        let ghost old_repos = repos.deep_view();
        assert(old_repos =~= if is_subscribed(before, ttl, uuid@, now) {
            before[uuid@].repos
        } else {
            Seq::empty()
        });
        let sub: Sub = Sub { uuid, last_seen: now, repos: add_wish(repos, wish) };
        self.put(sub);
        assert(self.subs() =~= with_wish(before, ttl, uuid@, wish.deep_view(), now));
    }

    /// Notes that a client wants a repository, and perhaps its pull requests. What the
    /// client wanted before, it still wants, unless its subscription has ended.
    pub fn upsert(&mut self, uuid: String, owner: String, repo: String, pr_sync: bool, now: u128)
        requires
            old(self).well_formed(),
        ensures
            final(self).well_formed(),
            final(self).ttl() == old(self).ttl(),
            final(self).subs() == with_wish(
                old(self).subs(),
                old(self).ttl(),
                uuid@,
                RepoSubView { owner: owner@, repo: repo@, pr_sync, notifications: false },
                now,
            ),
    {
        self.register(uuid, RepoSub { owner, repo, pr_sync, notifications: false }, now);
    }

    /// Notes what a client asks for when it subscribes.
    pub fn subscribe(&mut self, req: SubscribeReq, now: u128)
        requires
            old(self).well_formed(),
        ensures
            final(self).well_formed(),
            final(self).ttl() == old(self).ttl(),
            final(self).subs() == with_wish(
                old(self).subs(),
                old(self).ttl(),
                req.uuid@,
                req.wish(),
                now,
            ),
    {
        let wish: RepoSub = RepoSub {
            owner: req.owner,
            repo: req.repo,
            pr_sync: req.pr_sync,
            notifications: req.notifications,
        };
        self.register(req.uuid, wish, now);
    }

    /// Notes a sign of life of a client. Tells whether the client has a subscription that is
    /// alive; one that has ended is not brought back.
    pub fn heartbeat(&mut self, uuid: &str, now: u128) -> (r: bool)
        requires
            old(self).well_formed(),
        ensures
            final(self).well_formed(),
            final(self).ttl() == old(self).ttl(),
            r == is_subscribed(old(self).subs(), old(self).ttl(), uuid@, now),
            final(self).subs() == with_sign(old(self).subs(), old(self).ttl(), uuid@, now),
    {
        let ghost before = self.subs();
        match self.find(uuid) {
            Some(i) => {
                proof {
                    lemma_by_uuid(self.subs@, i as int);
                }
                if !self.subs[i].live(self.ttl, now) {
                    return false;
                }
                let sub: Sub = self.take(i);
                self.put(Sub { last_seen: now, ..sub });
                assert(self.subs() =~= with_sign(before, self.ttl(), uuid@, now));
                true
            },
            None => false,
        }
    }

    /// Forgets the subscriptions that are no longer alive.
    pub fn sweep(&mut self, now: u128)
        requires
            old(self).well_formed(),
        ensures
            final(self).well_formed(),
            final(self).ttl() == old(self).ttl(),
            final(self).subs() == live_subs(old(self).subs(), old(self).ttl(), now),
    {
        let ghost before = self.subs();
        let ttl: u128 = self.ttl;
        let mut kept: Subscriptions = Subscriptions::new(ttl);
        assert(self.subs() =~= before);
        assert(live_subs(before, ttl, now) =~= live_subs(self.subs(), ttl, now).union_prefer_right(
            kept.subs(),
        ));
        while self.subs.len() > 0
            invariant
                self.well_formed(),
                self.ttl() == ttl,
                kept.well_formed(),
                kept.ttl() == ttl,
                forall|u: Seq<char>|
                    #![trigger self.subs().dom().contains(u)]
                    #![trigger kept.subs().dom().contains(u)]
                    !(self.subs().dom().contains(u) && kept.subs().dom().contains(u)),
                live_subs(before, ttl, now) == live_subs(
                    self.subs(),
                    ttl,
                    now,
                ).union_prefer_right(kept.subs()),
            decreases self.subs.len(),
        {
            let ghost s0 = self.subs();
            let ghost k0 = kept.subs();
            let last: usize = self.subs.len() - 1;
            let sub: Sub = self.take(last);
            let ghost u = sub.uuid@;
            assert(s0.dom().contains(u));
            if sub.live(ttl, now) {
                assert(!holds_uuid(kept.subs@, u)) by {
                    assert(!k0.dom().contains(u));
                }
                kept.put(sub);
            }
            assert(live_subs(s0, ttl, now).union_prefer_right(k0) =~= live_subs(
                self.subs(),
                ttl,
                now,
            ).union_prefer_right(kept.subs()));
        }
        proof {
            assert(self.subs() =~= Map::<Seq<char>, SubView>::empty());
            assert(live_subs(self.subs(), ttl, now).union_prefer_right(kept.subs())
                =~= kept.subs());
        }
        self.subs = kept.subs;
        assert(self.subs() == kept.subs());
    }

    fn active(&self, what: Want, now: u128) -> (r: Vec<(String, String)>)
        requires
            self.well_formed(),
        ensures
            r.deep_view().no_duplicates(),
            forall|owner: Seq<char>, repo: Seq<char>|
                r.deep_view().contains((owner, repo)) <==> #[trigger] is_wanted(
                    self.subs(),
                    self.ttl(),
                    now,
                    what,
                    owner,
                    repo,
                ),
    {
        let mut out: Vec<(String, String)> = Vec::new();
        let mut i: usize = 0;
        assert(out.deep_view() =~= Seq::<(Seq<char>, Seq<char>)>::empty());
        while i < self.subs.len()
            invariant
                i <= self.subs.len(),
                out.deep_view().no_duplicates(),
                forall|o: Seq<char>, n: Seq<char>|
                    out.deep_view().contains((o, n)) <==> #[trigger] first_want(
                        self.subs@,
                        i as int,
                        self.ttl,
                        now,
                        what,
                        o,
                        n,
                    ),
            decreases self.subs.len() - i,
        {
            let sub: &Sub = &self.subs[i];
            let ghost before = out.deep_view();
            let ghost view = sub.deep_view();
            if sub.live(self.ttl, now) {
                let mut k: usize = 0;
                while k < sub.repos.len()
                    invariant
                        k <= sub.repos.len(),
                        view == sub.deep_view(),
                        out.deep_view().no_duplicates(),
                        forall|o: Seq<char>, n: Seq<char>|
                            #![trigger out.deep_view().contains((o, n))]
                            out.deep_view().contains((o, n)) <==> before.contains((o, n)) || (
                            exists|j: int|
                                0 <= j < k && (#[trigger] view.repos[j]).wants(what)
                                    && view.repos[j].owner == o && view.repos[j].repo == n),
                    decreases sub.repos.len() - k,
                {
                    let repo: &RepoSub = &sub.repos[k];
                    let ghost so_far = out.deep_view();
                    assert(view.repos[k as int] == repo.deep_view());
                    if repo.wants(what) && !holds_pair(&out, repo.owner.as_str(), repo.repo.as_str()) {
                        out.push((repo.owner.clone(), repo.repo.clone()));
                        assert(out.deep_view() =~= so_far.push((repo.owner@, repo.repo@)));
                        assert(out.deep_view()[so_far.len() as int] == (repo.owner@, repo.repo@));
                    }
                    assert forall|o: Seq<char>, n: Seq<char>|
                        #![trigger out.deep_view().contains((o, n))]
                        out.deep_view().contains((o, n)) <==> before.contains((o, n)) || (exists|
                            j: int,
                        |
                            0 <= j < k + 1 && (#[trigger] view.repos[j]).wants(what)
                                && view.repos[j].owner == o && view.repos[j].repo == n) by {
                        if so_far.contains((o, n)) {
                            let m = choose|m: int| 0 <= m < so_far.len() && so_far[m] == (o, n);
                            assert(out.deep_view()[m] == (o, n));
                        }
                    }
                    k += 1;
                }
            }
            assert forall|o: Seq<char>, n: Seq<char>|
                out.deep_view().contains((o, n)) <==> #[trigger] first_want(
                    self.subs@,
                    i + 1,
                    self.ttl,
                    now,
                    what,
                    o,
                    n,
                ) by {
                assert(before.contains((o, n)) <==> first_want(
                    self.subs@,
                    i as int,
                    self.ttl,
                    now,
                    what,
                    o,
                    n,
                ));
                if first_want(self.subs@, i + 1, self.ttl, now, what, o, n) {
                    let m = choose|m: int|
                        0 <= m < i + 1 && is_live(
                            (#[trigger] self.subs@[m]).deep_view(),
                            self.ttl,
                            now,
                        ) && sub_wants(self.subs@[m].deep_view(), what, o, n);
                    if m < i {
                        assert(first_want(self.subs@, i as int, self.ttl, now, what, o, n));
                    }
                }
            }
            i += 1;
        }
        proof {
            assert forall|o: Seq<char>, n: Seq<char>|
                out.deep_view().contains((o, n)) <==> #[trigger] is_wanted(
                    self.subs(),
                    self.ttl(),
                    now,
                    what,
                    o,
                    n,
                ) by {
                lemma_first_want(self.subs@, self.ttl, now, what, o, n);
                assert(out.deep_view().contains((o, n)) <==> first_want(
                    self.subs@,
                    i as int,
                    self.ttl,
                    now,
                    what,
                    o,
                    n,
                ));
            }
        }
        out
    }

    /// The owners and names of the repositories whose pull requests a live subscription
    /// wants, each of them once.
    pub fn active_pr_sync_repos(&self, now: u128) -> (r: Vec<(String, String)>)
        requires
            self.well_formed(),
        ensures
            r.deep_view().no_duplicates(),
            forall|owner: Seq<char>, repo: Seq<char>|
                r.deep_view().contains((owner, repo)) <==> #[trigger] is_wanted(
                    self.subs(),
                    self.ttl(),
                    now,
                    Want::Prs,
                    owner,
                    repo,
                ),
    {
        self.active(Want::Prs, now)
    }

    /// The owners and names of the repositories whose notifications a live subscription
    /// wants, each of them once.
    pub fn active_notifications_repos(&self, now: u128) -> (r: Vec<(String, String)>)
        requires
            self.well_formed(),
        ensures
            r.deep_view().no_duplicates(),
            forall|owner: Seq<char>, repo: Seq<char>|
                r.deep_view().contains((owner, repo)) <==> #[trigger] is_wanted(
                    self.subs(),
                    self.ttl(),
                    now,
                    Want::Notifications,
                    owner,
                    repo,
                ),
    {
        self.active(Want::Notifications, now)
    }
}

spec fn first_want(
    subs: Seq<Sub>,
    n: int,
    ttl: u128,
    now: u128,
    what: Want,
    owner: Seq<char>,
    repo: Seq<char>,
) -> bool {
    exists|i: int|
        0 <= i < n && is_live((#[trigger] subs[i]).deep_view(), ttl, now) && sub_wants(
            subs[i].deep_view(),
            what,
            owner,
            repo,
        )
}

proof fn lemma_first_want(
    subs: Seq<Sub>,
    ttl: u128,
    now: u128,
    what: Want,
    owner: Seq<char>,
    repo: Seq<char>,
)
    requires
        distinct(subs),
    ensures
        first_want(subs, subs.len() as int, ttl, now, what, owner, repo) <==> is_wanted(
            by_uuid(subs),
            ttl,
            now,
            what,
            owner,
            repo,
        ),
{
    let all = by_uuid(subs);
    if first_want(subs, subs.len() as int, ttl, now, what, owner, repo) {
        let i = choose|i: int|
            0 <= i < subs.len() && is_live((#[trigger] subs[i]).deep_view(), ttl, now)
                && sub_wants(subs[i].deep_view(), what, owner, repo);
        lemma_by_uuid(subs, i);
        assert(all[subs[i].uuid@] == subs[i].deep_view());
    }
    if is_wanted(all, ttl, now, what, owner, repo) {
        let u = choose|u: Seq<char>|
            #![trigger all[u]]
            all.dom().contains(u) && is_live(all[u], ttl, now) && sub_wants(
                all[u],
                what,
                owner,
                repo,
            );
        let i = index_of(subs, u);
        assert(subs[i].deep_view() == all[u]);
    }
}

/// The subscriptions that are alive.
pub open spec fn live_subs(subs: Map<Seq<char>, SubView>, ttl: u128, now: u128) -> Map<
    Seq<char>,
    SubView,
> {
    Map::new(
        |uuid: Seq<char>| subs.dom().contains(uuid) && is_live(subs[uuid], ttl, now),
        |uuid: Seq<char>| subs[uuid],
    )
}

// ---- requests ----------------------------------------------------------------------
/// What a client asks for when it subscribes to a repository.
pub struct SubscribeReq {
    pub uuid: String,
    pub owner: String,
    pub repo: String,
    pub pr_sync: bool,
    pub notifications: bool,
}

impl SubscribeReq {
    /// What is wanted of the repository.
    pub open spec fn wish(self) -> RepoSubView {
        RepoSubView {
            owner: self.owner@,
            repo: self.repo@,
            pr_sync: self.pr_sync,
            notifications: self.notifications,
        }
    }
}

/// A sign of life of a client.
pub struct HeartbeatReq {
    pub uuid: String,
}

/// What a request asks of the server.
#[derive(Clone, Copy, PartialEq, Eq, Structural, Debug)]
pub enum Route {
    /// The changes, as they are logged.
    Events,
    /// A subscription.
    Subscribe,
    /// A sign of life.
    Heartbeat,
    /// That nothing is synced until further notice.
    Pause,
    /// That syncing goes on.
    Resume,
    /// Something that there is not.
    NotFound,
}

/// What a request with that method and path asks of the server.
pub open spec fn route_of(method: Seq<char>, path: Seq<char>) -> Route {
    if method == "GET"@ && path == "/events"@ {
        Route::Events
    } else if method == "POST"@ && path == "/subscribe"@ {
        Route::Subscribe
    } else if method == "POST"@ && path == "/heartbeat"@ {
        Route::Heartbeat
    } else if method == "POST"@ && path == "/pause"@ {
        Route::Pause
    } else if method == "POST"@ && path == "/resume"@ {
        Route::Resume
    } else {
        Route::NotFound
    }
}

/// What a request with that method and path asks of the server.
pub fn route(method: &str, path: &str) -> (r: Route)
    ensures
        r == route_of(method@, path@),
{
    if same(method, "GET") && same(path, "/events") {
        Route::Events
    } else if same(method, "POST") && same(path, "/subscribe") {
        Route::Subscribe
    } else if same(method, "POST") && same(path, "/heartbeat") {
        Route::Heartbeat
    } else if same(method, "POST") && same(path, "/pause") {
        Route::Pause
    } else if same(method, "POST") && same(path, "/resume") {
        Route::Resume
    } else {
        Route::NotFound
    }
}

/// Whether nothing is to be synced after a request, where `paused` says whether that was so
/// before.
pub open spec fn is_paused_after(route: Route, paused: bool) -> bool {
    match route {
        Route::Pause => true,
        Route::Resume => false,
        _ => paused,
    }
}

/// Whether nothing is to be synced after a request, where `paused` says whether that was so
/// before.
pub fn paused_after(route: Route, paused: bool) -> (r: bool)
    ensures
        r == is_paused_after(route, paused),
        r == (match route {
            Route::Pause => true,
            Route::Resume => false,
            _ => paused,
        }),
{
    match route {
        Route::Pause => true,
        Route::Resume => false,
        _ => paused,
    }
}

// ---- answers -----------------------------------------------------------------------
/// The answer that tells where a checkout is.
pub open spec fn path_answer(path: Seq<char>) -> Seq<char> {
    http::answer_200(json::compact_text(one_member("path"@, JsonView::Str(path))))
}

/// The answer that tells whether a client is known, or that something was done.
pub open spec fn known_answer(ok: bool) -> Seq<char> {
    http::answer_200(json::compact_text(one_member("ok"@, JsonView::Bool(ok))))
}

/// An object with one member.
pub open spec fn one_member(name: Seq<char>, value: JsonView) -> JsonView {
    JsonView::Object(Map::empty().insert(name, value))
}

/// An object with one member.
pub fn object_with(name: &str, value: Json) -> (r: Json)
    ensures
        r.deep_view() == one_member(name@, value.deep_view()),
{
    let members: Vec<(String, Json)> = vec![(name.to_owned(), value)];
    proof {
        assert(members@.drop_last() =~= Seq::empty());
        assert(json::members_view(members@.drop_last()) =~= Map::empty());
        assert(json::members_view(members@) =~= Map::empty().insert(name@, value.deep_view()));
    }
    Json::Object(members)
}

/// The answer to a subscription: where the repository is checked out. Its body reads back as
/// just that.
pub fn subscribe_answer(path: &str) -> (r: String)
    ensures
        r@ == path_answer(path@),
        r@ == http::answer_200(json::compact_text(one_member("path"@, JsonView::Str(path@)))),
        json::json_of_text(json::compact_text(one_member("path"@, JsonView::Str(path@)))) == Some(
            one_member("path"@, JsonView::Str(path@)),
        ),
{
    let body: Json = object_with("path", Json::Str(path.to_owned()));
    proof {
        json::lemma_flat_is_plain(body.deep_view()->Object_0, 127);
    }
    let text: String = to_text(&body);
    respond_200(text.as_str())
}

/// The answer to a sign of life, to a pause and to its end: whether it was accepted. Its
/// body reads back as just that.
pub fn ok_answer(ok: bool) -> (r: String)
    ensures
        r@ == known_answer(ok),
        r@ == http::answer_200(json::compact_text(one_member("ok"@, JsonView::Bool(ok)))),
        json::json_of_text(json::compact_text(one_member("ok"@, JsonView::Bool(ok)))) == Some(
            one_member("ok"@, JsonView::Bool(ok)),
        ),
{
    let body: Json = object_with("ok", Json::Bool(ok));
    proof {
        json::lemma_flat_is_plain(body.deep_view()->Object_0, 127);
    }
    let text: String = to_text(&body);
    respond_200(text.as_str())
}

// ---- checkouts ---------------------------------------------------------------------
/// The arguments that clone a repository into a directory.
pub open spec fn clone_args(owner: Seq<char>, repo: Seq<char>, dest: Seq<char>) -> Seq<Seq<char>> {
    seq!["repo"@, "clone"@, config::slug_of(owner, repo), dest]
}

/// The arguments that fetch all that has changed into a checkout.
pub open spec fn fetch_all_args(dest: Seq<char>) -> Seq<Seq<char>> {
    seq!["-C"@, dest, "fetch"@, "--all"@]
}

/// What is run so that a checkout of a repository is there and up to date: a clone where
/// there is none yet, else a fetch.
pub open spec fn ensured(
    dest: Seq<char>,
    exists: bool,
    owner: Seq<char>,
    repo: Seq<char>,
) -> InvocationView {
    if exists {
        InvocationView { program: "git"@, args: fetch_all_args(dest) }
    } else {
        InvocationView { program: "gh"@, args: clone_args(owner, repo, dest) }
    }
}

/// What is run so that a checkout of a repository is there and up to date: a clone where
/// there is none yet, else a fetch.
pub fn ensure_repo(dest: &str, exists: bool, owner: &str, repo: &str) -> (r: Invocation)
    ensures
        r.deep_view() == ensured(dest@, exists, owner@, repo@),
        r.deep_view() == (if exists {
            InvocationView { program: "git"@, args: fetch_all_args(dest@) }
        } else {
            InvocationView { program: "gh"@, args: clone_args(owner@, repo@, dest@) }
        }),
{
    if exists {
        let args: Vec<String> = vec![
            "-C".to_owned(),
            dest.to_owned(),
            "fetch".to_owned(),
            "--all".to_owned(),
        ];
        assert(args.deep_view() =~= fetch_all_args(dest@));
        Invocation { program: "git".to_owned(), args }
    } else {
        let args: Vec<String> = vec![
            "repo".to_owned(),
            "clone".to_owned(),
            slug(owner, repo),
            dest.to_owned(),
        ];
        assert(args.deep_view() =~= clone_args(owner@, repo@, dest@));
        Invocation { program: "gh".to_owned(), args }
    }
}

/// What comes of a subscription, when the clone or the fetch of the repository into `path` has
/// run or has failed: only where it has run is the client registered, and told where the
/// repository is.
pub fn subscribed(
    subs: &mut Subscriptions,
    req: SubscribeReq,
    path: &str,
    ran: bool,
    now: u128,
) -> (r: Option<String>)
    requires
        old(subs).well_formed(),
    ensures
        final(subs).well_formed(),
        final(subs).ttl() == old(subs).ttl(),
        r is Some <==> ran,
        r matches Some(answer) ==> answer@ == http::answer_200(
            json::compact_text(one_member("path"@, JsonView::Str(path@))),
        ),
        final(subs).subs() == (if ran {
            with_wish(old(subs).subs(), old(subs).ttl(), req.uuid@, req.wish(), now)
        } else {
            old(subs).subs()
        }),
{
    if !ran {
        return None;
    }
    subs.subscribe(req, now);
    Some(subscribe_answer(path))
}

// ---- what holds of all subscriptions -----------------------------------------------
pub(crate) proof fn lemma_with_repo(repos: Seq<RepoSubView>, wish: RepoSubView)
    ensures
        ({
            let i = place_of_repo(repos, wish.owner, wish.repo) as int;
            &&& i <= repos.len()
            &&& i < repos.len() ==> repos[i].owner == wish.owner && repos[i].repo == wish.repo
        }),
    decreases repos.len(),
{
    if repos.len() > 0 && !(repos[0].owner == wish.owner && repos[0].repo == wish.repo) {
        lemma_with_repo(repos.skip(1), wish);
    }
}

/// A wish is granted while the client is heard of: from the moment on at which a client
/// wants something of a repository, it is wanted until the client was silent for the time
/// that subscriptions live.
pub proof fn wish_is_granted(
    subs: Map<Seq<char>, SubView>,
    ttl: u128,
    uuid: Seq<char>,
    wish: RepoSubView,
    what: Want,
    now: u128,
    later: u128,
)
    requires
        wish.wants(what),
        now <= later,
        later - now < ttl,
    ensures
        is_wanted(with_wish(subs, ttl, uuid, wish, now), ttl, later, what, wish.owner, wish.repo),
{
    let before = if is_subscribed(subs, ttl, uuid, now) {
        subs[uuid].repos
    } else {
        Seq::empty()
    };
    let after = with_wish(subs, ttl, uuid, wish, now);
    lemma_with_repo(before, wish);
    let i = place_of_repo(before, wish.owner, wish.repo) as int;
    assert(after[uuid].repos[i].wants(what));
    assert(sub_wants(after[uuid], what, wish.owner, wish.repo));
    assert(is_live(after[uuid], ttl, later));
}

/// What a client wants it goes on wanting while its subscription lives, whatever it asks for
/// later: no wish takes an earlier one back.
pub proof fn wishes_are_never_withdrawn(
    subs: Map<Seq<char>, SubView>,
    ttl: u128,
    uuid: Seq<char>,
    wish: RepoSubView,
    what: Want,
    owner: Seq<char>,
    repo: Seq<char>,
    now: u128,
)
    requires
        is_subscribed(subs, ttl, uuid, now),
        sub_wants(subs[uuid], what, owner, repo),
    ensures
        sub_wants(with_wish(subs, ttl, uuid, wish, now)[uuid], what, owner, repo),
{
    let before = subs[uuid].repos;
    let after = with_wish(subs, ttl, uuid, wish, now)[uuid].repos;
    lemma_with_repo(before, wish);
    let i = choose|i: int|
        0 <= i < before.len() && (#[trigger] before[i]).wants(what) && before[i].owner == owner
            && before[i].repo == repo;
    assert(after[i].wants(what) && after[i].owner == owner && after[i].repo == repo);
}

/// A subscription that has ended is not brought back. A sign of life is refused and changes
/// nothing, and at no later time is the client subscribed; where the client subscribes again,
/// it wants only what it asks for then.
pub proof fn ended_subscription_stays_ended(
    subs: Map<Seq<char>, SubView>,
    ttl: u128,
    uuid: Seq<char>,
    wish: RepoSubView,
    now: u128,
    later: u128,
)
    requires
        subs.dom().contains(uuid),
        now - subs[uuid].last_seen >= ttl,
        now <= later,
    ensures
        with_sign(subs, ttl, uuid, now) == subs,
        !is_subscribed(subs, ttl, uuid, now),
        !is_subscribed(with_sign(subs, ttl, uuid, now), ttl, uuid, later),
        with_wish(subs, ttl, uuid, wish, now)[uuid].repos == seq![wish],
{
    assert(with_repo(Seq::empty(), wish) =~= seq![wish]);
}

/// Whether ended subscriptions were forgotten before makes no difference to a client: the same
/// signs of life are accepted, and the same is wanted by whoever subscribes.
pub proof fn sweeping_changes_no_answer(
    subs: Map<Seq<char>, SubView>,
    ttl: u128,
    uuid: Seq<char>,
    wish: RepoSubView,
    now: u128,
    later: u128,
)
    requires
        now <= later,
    ensures
        is_subscribed(live_subs(subs, ttl, now), ttl, uuid, later) == is_subscribed(
            subs,
            ttl,
            uuid,
            later,
        ),
        live_subs(with_sign(live_subs(subs, ttl, now), ttl, uuid, later), ttl, later) == live_subs(
            with_sign(subs, ttl, uuid, later),
            ttl,
            later,
        ),
        live_subs(with_wish(live_subs(subs, ttl, now), ttl, uuid, wish, later), ttl, later)
            == live_subs(with_wish(subs, ttl, uuid, wish, later), ttl, later),
{
    let kept = live_subs(subs, ttl, now);
    assert(live_subs(with_sign(kept, ttl, uuid, later), ttl, later) =~= live_subs(
        with_sign(subs, ttl, uuid, later),
        ttl,
        later,
    ));
    assert(live_subs(with_wish(kept, ttl, uuid, wish, later), ttl, later) =~= live_subs(
        with_wish(subs, ttl, uuid, wish, later),
        ttl,
        later,
    ));
}

/// Forgetting the subscriptions that have ended changes nothing of what is wanted, then or
/// later.
pub proof fn sweeping_takes_nothing_away(
    subs: Map<Seq<char>, SubView>,
    ttl: u128,
    now: u128,
    later: u128,
    what: Want,
    owner: Seq<char>,
    repo: Seq<char>,
)
    requires
        now <= later,
    ensures
        is_wanted(live_subs(subs, ttl, now), ttl, later, what, owner, repo) <==> is_wanted(
            subs,
            ttl,
            later,
            what,
            owner,
            repo,
        ),
{
    let kept = live_subs(subs, ttl, now);
    if is_wanted(subs, ttl, later, what, owner, repo) {
        let u = choose|u: Seq<char>|
            #![trigger subs[u]]
            subs.dom().contains(u) && is_live(subs[u], ttl, later) && sub_wants(
                subs[u],
                what,
                owner,
                repo,
            );
        assert(kept.dom().contains(u) && kept[u] == subs[u]);
    }
    if is_wanted(kept, ttl, later, what, owner, repo) {
        let u = choose|u: Seq<char>|
            #![trigger kept[u]]
            kept.dom().contains(u) && is_live(kept[u], ttl, later) && sub_wants(
                kept[u],
                what,
                owner,
                repo,
            );
        assert(subs.dom().contains(u) && kept[u] == subs[u]);
    }
}

/// A client that was silent for the time that subscriptions live is forgotten, and one that
/// was heard of since is not.
pub proof fn silent_client_is_forgotten(
    subs: Map<Seq<char>, SubView>,
    ttl: u128,
    uuid: Seq<char>,
    now: u128,
)
    requires
        subs.dom().contains(uuid),
    ensures
        now - subs[uuid].last_seen >= ttl && ttl > 0 ==> !live_subs(subs, ttl, now).dom().contains(
            uuid,
        ),
        0 <= now - subs[uuid].last_seen < ttl ==> live_subs(subs, ttl, now).dom().contains(uuid)
            && live_subs(subs, ttl, now)[uuid] == subs[uuid],
{
}

} // verus!
