//! What the server of commands does for its clients, and what it pushes to listeners.

use vstd::prelude::*;

use crate::client;
use crate::cmd;
use crate::cmd::{RepoSubView, Route, SubView, Want};
use crate::http;
use crate::http::{Head, HeaderLine};
use crate::json::JsonView;
use crate::laws;
use crate::laws::values;
use crate::process::InvocationView;
use crate::serve;
use crate::{json, number, text};

verus! {

// ---- requests and answers ----------------------------------------------------------
/// What a request asks for: its method and its path decide, and nothing else is known.
pub proof fn routes_are_those_of_method_and_path(method: Seq<char>, path: Seq<char>)
    ensures
        cmd::route_of("GET"@, "/events"@) == Route::Events,
        cmd::route_of("POST"@, "/subscribe"@) == Route::Subscribe,
        cmd::route_of("POST"@, "/heartbeat"@) == Route::Heartbeat,
        cmd::route_of("POST"@, "/pause"@) == Route::Pause,
        cmd::route_of("POST"@, "/resume"@) == Route::Resume,
        method != "GET"@ && method != "POST"@ ==> cmd::route_of(method, path) == Route::NotFound,
        cmd::route_of(method, path) != Route::NotFound ==> path == "/events"@ || path
            == "/subscribe"@ || path == "/heartbeat"@ || path == "/pause"@ || path == "/resume"@,
        cmd::route_of("GET"@, path) == Route::Events || cmd::route_of("GET"@, path)
            == Route::NotFound,
{
    reveal_strlit("GET");
    reveal_strlit("POST");
    reveal_strlit("/events");
    reveal_strlit("/subscribe");
    reveal_strlit("/heartbeat");
    reveal_strlit("/pause");
    reveal_strlit("/resume");
    assert("GET"@.len() != "POST"@.len());
    assert("/events"@.len() == 7 && "/subscribe"@.len() == 10 && "/heartbeat"@.len() == 10);
    assert("/subscribe"@[1] != "/heartbeat"@[1]);
    assert("/pause"@.len() == 6 && "/resume"@.len() == 7);
}

/// A request to pause pauses the loop, one to resume lets it go on, and no other changes that.
pub proof fn loop_is_paused_until_it_is_resumed(route: Route, paused: bool)
    ensures
        cmd::is_paused_after(Route::Pause, paused),
        !cmd::is_paused_after(Route::Resume, paused),
        route != Route::Pause && route != Route::Resume ==> cmd::is_paused_after(route, paused)
            == paused,
        !cmd::is_paused_after(Route::Resume, cmd::is_paused_after(Route::Pause, paused)),
{
}

/// A client asks for what the server understands: each of its requests goes to the port that was
/// given, and its first line names the path of what is asked for.
pub proof fn clients_ask_for_what_the_server_understands(
    port: u16,
    uuid: Seq<char>,
    owner: Seq<char>,
    repo: Seq<char>,
    pr_sync: bool,
    notifications: bool,
)
    ensures
        ({
            let wish = client::cmd::subscription(uuid, owner, repo, pr_sync, notifications);
            let r = client::cmd::subscribe_request(port, wish);
            &&& r.port == port
            &&& r.text == http::post_of("/subscribe"@, json::json_text(wish))
            &&& wish == JsonView::Object(
                map![
                    "uuid"@ => JsonView::Str(uuid),
                    "owner"@ => JsonView::Str(owner),
                    "repo"@ => JsonView::Str(repo),
                    "pr_sync"@ => JsonView::Bool(pr_sync),
                    "notifications"@ => JsonView::Bool(notifications),
                ],
            )
        }),
        client::cmd::heartbeat_request(port, uuid).port == port,
        client::cmd::heartbeat_request(port, uuid).text == http::post_of(
            "/heartbeat"@,
            json::json_text(JsonView::Object(Map::empty().insert("uuid"@, JsonView::Str(uuid)))),
        ),
        client::cmd::pause_request(port).port == port,
        client::cmd::pause_request(port).text == http::post_of("/pause"@, "{}"@),
        client::cmd::resume_request(port).port == port,
        client::cmd::resume_request(port).text == http::post_of("/resume"@, "{}"@),
{
}

/// A request carries its path in the first line, the number of bytes of its body in the head, and
/// its body after the empty line.
pub proof fn request_carries_its_body(path: Seq<char>, body: Seq<char>)
    ensures
        laws::opens(http::post_of(path, body), "POST "@ + path + " HTTP/1.1\r\n"@),
        laws::says(
            http::post_of(path, body),
            "Content-Length: "@ + number::int_text(text::byte_len(body)) + "\r\n"@,
        ),
        laws::closes(http::post_of(path, body), "\r\n\r\n"@ + body),
{
    reveal_strlit(" HTTP/1.1\r\n");
    reveal_strlit(
        " HTTP/1.1\r\nHost: 127.0.0.1\r\nContent-Type: application/json\r\nContent-Length: ",
    );
    reveal_strlit("Content-Length: ");
    reveal_strlit("\r\nConnection: close\r\n\r\n");
    reveal_strlit("\r\n");
    reveal_strlit("\r\n\r\n");
    let post = http::post_of(path, body);
    let head =
        " HTTP/1.1\r\nHost: 127.0.0.1\r\nContent-Type: application/json\r\nContent-Length: "@;
    let end = "\r\nConnection: close\r\n\r\n"@;
    let length = number::int_text(text::byte_len(body));
    let n = " HTTP/1.1\r\n"@.len() as int;
    let k = (head.len() - "Content-Length: "@.len()) as int;
    assert(head =~= " HTTP/1.1\r\n"@ + head.skip(n));
    assert(head =~= head.take(k) + "Content-Length: "@);
    assert(end =~= "\r\n"@ + end.skip(2));
    assert(end =~= end.take(end.len() - 4) + "\r\n\r\n"@);
    laws::lemma_opens(
        post,
        "POST "@ + path + " HTTP/1.1\r\n"@,
        head.skip(n) + length + end + body,
    );
    laws::lemma_says(
        post,
        "POST "@ + path + head.take(k),
        "Content-Length: "@ + length + "\r\n"@,
        end.skip(2) + body,
    );
    laws::lemma_closes(
        post,
        "POST "@ + path + head + length + end.take(end.len() - 4),
        "\r\n\r\n"@ + body,
    );
}

/// An answer says that all went well, how many bytes its body has, and then gives the body; a
/// request for what is not known is told so.
pub proof fn answer_carries_its_body(body: Seq<char>, path: Seq<char>, ok: bool)
    ensures
        http::answer_200(body)
            == "HTTP/1.1 200 OK\r\nContent-Type: application/json\r\nContent-Length: "@
            + number::int_text(text::byte_len(body)) + "\r\n\r\n"@ + body,
        http::NOT_FOUND@ == "HTTP/1.1 404 Not Found\r\nContent-Length: 0\r\n\r\n"@,
        cmd::path_answer(path) == http::answer_200(
            json::json_text(JsonView::Object(Map::empty().insert("path"@, JsonView::Str(path)))),
        ),
        cmd::known_answer(ok) == http::answer_200(
            json::json_text(JsonView::Object(Map::empty().insert("ok"@, JsonView::Bool(ok)))),
        ),
{
}

/// What the server answers is what its client reads of it: where the checkout is, and whether it
/// is known.
pub proof fn clients_read_what_the_server_answers(path: Seq<char>, ok: bool, answer: JsonView)
    ensures
        client::cmd::path_in(
            JsonView::Object(Map::empty().insert("path"@, JsonView::Str(path))),
        ) == Some(path),
        client::cmd::says_known(
            JsonView::Object(Map::empty().insert("ok"@, JsonView::Bool(ok))),
        ) == ok,
        !(answer is Object) ==> client::cmd::path_in(answer) is None && !client::cmd::says_known(
            answer,
        ),
{
}

/// A line of blanks ends a head, and what was read before counts.
pub proof fn empty_line_ends_the_head(head: Head, line: Seq<char>, n: usize, id: i64)
    ensures
        text::trimmed(line).len() == 0 ==> http::header_line(line) == HeaderLine::End,
        !head.complete && http::header_line(line) == HeaderLine::End ==> head.with(line) == (Head {
            content_length: head.content_length,
            last_event_id: head.last_event_id,
            complete: true,
        }),
        !head.complete && http::header_line(line) == HeaderLine::ContentLength(n) ==> head.with(
            line,
        ) == (Head {
            content_length: n,
            last_event_id: head.last_event_id,
            complete: false,
        }),
        !head.complete && http::header_line(line) == HeaderLine::LastEventId(id) ==> head.with(line)
            == (Head {
            content_length: head.content_length,
            last_event_id: Some(id),
            complete: false,
        }),
        head.complete || http::header_line(line) == HeaderLine::Other ==> head.with(line) == head,
        Head::begun() == (Head { content_length: 0, last_event_id: None, complete: false }),
{
}

// ---- subscriptions -----------------------------------------------------------------
/// A client is there from when it was last seen until the time that it may be silent has passed.
pub proof fn client_is_there_while_it_is_heard_of(sub: SubView, ttl: u128, now: u128)
    requires
        sub.last_seen <= now,
    ensures
        cmd::is_live(sub, ttl, now) <==> now - sub.last_seen < ttl,
{
}

/// A sign of life keeps a client that is there, with all that it wants, and nobody else; one that
/// is not there is not brought back.
pub proof fn sign_of_life_keeps_the_client(
    subs: Map<Seq<char>, SubView>,
    ttl: u128,
    uuid: Seq<char>,
    other: Seq<char>,
    now: u128,
)
    ensures
        ({
            let after = cmd::with_sign(subs, ttl, uuid, now);
            let there = subs.dom().contains(uuid) && cmd::is_live(subs[uuid], ttl, now);
            &&& cmd::is_subscribed(subs, ttl, uuid, now) <==> there
            &&& there ==> after.dom() == subs.dom() && after[uuid].last_seen == now
                && after[uuid].repos == subs[uuid].repos
            &&& !there ==> after == subs
            &&& other != uuid ==> after.dom().contains(other) == subs.dom().contains(other) && (
            subs.dom().contains(other) ==> after[other] == subs[other])
        }),
{
    if subs.dom().contains(uuid) {
        assert(cmd::with_sign(subs, ttl, uuid, now).dom() =~= subs.dom());
    }
}

/// A subscription adds to what its client wants: the repository is wanted for what was asked now
/// or before, everything else that it wanted stays, and other clients are left alone.
pub proof fn subscription_adds_to_what_is_wanted(
    subs: Map<Seq<char>, SubView>,
    ttl: u128,
    uuid: Seq<char>,
    wish: RepoSubView,
    other: Seq<char>,
    what: Want,
    owner: Seq<char>,
    repo: Seq<char>,
    now: u128,
)
    ensures
        ({
            let after = cmd::with_wish(subs, ttl, uuid, wish, now);
            let before = if subs.dom().contains(uuid) && cmd::is_live(subs[uuid], ttl, now) {
                subs[uuid].repos
            } else {
                Seq::empty()
            };
            let mine = SubView { last_seen: now, repos: before };
            &&& after.dom() == subs.dom().insert(uuid)
            &&& after[uuid].last_seen == now
            &&& other != uuid && subs.dom().contains(other) ==> after[other] == subs[other]
            &&& cmd::sub_wants(after[uuid], what, owner, repo) ==> cmd::sub_wants(
                mine,
                what,
                owner,
                repo,
            ) || wish.owner == owner && wish.repo == repo && (match what {
                Want::Prs => wish.pr_sync,
                Want::Notifications => wish.notifications,
            })
        }),
{
    let after = cmd::with_wish(subs, ttl, uuid, wish, now);
    assert(after.dom() =~= subs.dom().insert(uuid));
    let before = if subs.dom().contains(uuid) && cmd::is_live(subs[uuid], ttl, now) {
        subs[uuid].repos
    } else {
        Seq::empty()
    };
    let mine = SubView { last_seen: now, repos: before };
    cmd::lemma_with_repo(before, wish);
    if cmd::sub_wants(after[uuid], what, owner, repo) {
        let all = after[uuid].repos;
        let i = choose|i: int|
            0 <= i < all.len() && (#[trigger] all[i]).wants(what) && all[i].owner == owner
                && all[i].repo == repo;
        if i < before.len() && before[i].wants(what) && before[i].owner == owner && before[i].repo
            == repo {
            assert(mine.repos[i].wants(what));
        }
    }
}

/// What is wanted is what a client that is there wants: for pull requests where it asked for
/// those, for notifications where it asked for those.
pub proof fn wanted_is_what_a_client_asked_for(
    subs: Map<Seq<char>, SubView>,
    ttl: u128,
    uuid: Seq<char>,
    i: int,
    now: u128,
)
    requires
        subs.dom().contains(uuid),
        cmd::is_live(subs[uuid], ttl, now),
        0 <= i < subs[uuid].repos.len(),
    ensures
        ({
            let r = subs[uuid].repos[i];
            &&& r.pr_sync ==> cmd::is_wanted(subs, ttl, now, Want::Prs, r.owner, r.repo)
            &&& r.notifications ==> cmd::is_wanted(
                subs,
                ttl,
                now,
                Want::Notifications,
                r.owner,
                r.repo,
            )
        }),
{
    let r = subs[uuid].repos[i];
    if r.pr_sync {
        assert(subs[uuid].repos[i].wants(Want::Prs));
        assert(cmd::sub_wants(subs[uuid], Want::Prs, r.owner, r.repo));
    }
    if r.notifications {
        assert(subs[uuid].repos[i].wants(Want::Notifications));
        assert(cmd::sub_wants(subs[uuid], Want::Notifications, r.owner, r.repo));
    }
}

/// A repository is cloned by its full name to where its checkout belongs, and where there is one
/// everything that changed is fetched into it.
pub proof fn subscribed_repository_is_brought_up_to_date(
    dest: Seq<char>,
    owner: Seq<char>,
    repo: Seq<char>,
)
    ensures
        cmd::ensured(dest, false, owner, repo) == (InvocationView {
            program: "gh"@,
            args: seq!["repo"@, "clone"@, owner.push('/') + repo, dest],
        }),
        cmd::ensured(dest, true, owner, repo) == (InvocationView {
            program: "git"@,
            args: seq!["-C"@, dest, "fetch"@, "--all"@],
        }),
{
    values::full_name_is_owner_slash_name(owner, repo);
}

// ---- what is pushed ----------------------------------------------------------------
/// A change is pushed with its id in a line of its own and its data in another, and an empty line
/// ends it.
pub proof fn change_is_pushed_with_its_id(id: i64, line: Seq<char>)
    ensures
        serve::frame_of(id, line) == "id: "@ + number::int_text(id as int) + "\ndata: "@ + line
            + "\n\n"@,
        serve::STREAM_HEAD@
            == "HTTP/1.1 200 OK\r\nContent-Type: text/event-stream\r\nCache-Control: no-cache\r\n\r\n"@,
{
}

/// A listener that says which change it has seen is sent those after it, any other those that are
/// still to come.
pub proof fn listener_goes_on_where_it_was(id: i64, latest: i64)
    ensures
        serve::first_after(Some(id), latest) == id,
        serve::first_after(None, latest) == latest,
{
}

/// The socket is in the directory for such files, where there is one.
pub proof fn socket_is_in_its_directory(dir: Seq<char>)
    requires
        dir.len() > 0,
    ensures
        dir.last() != '/' ==> serve::socket_path(Some(dir)) == dir + "/ghcache.sock"@,
        dir.last() == '/' ==> serve::socket_path(Some(dir)) == dir + "ghcache.sock"@,
        serve::socket_path(None) == "/tmp/ghcache.sock"@,
{
    reveal_strlit("/");
    reveal_strlit("ghcache.sock");
    reveal_strlit("/ghcache.sock");
    assert("/ghcache.sock"@ =~= "/"@ + "ghcache.sock"@);
    assert(dir + "/"@ + "ghcache.sock"@ =~= dir + "/ghcache.sock"@);
}

} // verus!
