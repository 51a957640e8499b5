//! The commands of the server, as its clients send them.

use vstd::prelude::*;

use crate::cmd::object_with;
use crate::http::post_request;
use crate::json::{parse_bytes, to_text, Json, JsonView};
use crate::{cmd, http, json};

verus! {

/// The port on which the server listens.
pub const DEFAULT_PORT: u16 = 7748;

/// A request to the server on a port of this machine.
pub struct Request {
    pub port: u16,
    pub text: String,
}

/// What a request is.
pub struct RequestView {
    pub port: u16,
    pub text: Seq<char>,
}

impl DeepView for Request {
    type V = RequestView;

    open spec fn deep_view(&self) -> RequestView {
        RequestView { port: self.port, text: self.text@ }
    }
}

/// The request that posts a body to a path.
pub open spec fn posted(port: u16, path: Seq<char>, body: Seq<char>) -> RequestView {
    RequestView { port, text: http::post_of(path, body) }
}

fn post_json(port: u16, path: &str, body: &str) -> (r: Request)
    ensures
        r.deep_view() == posted(port, path@, body@),
{
    Request { port, text: post_request(path, body) }
}

/// What a client asks for when it subscribes.
pub open spec fn subscription(
    uuid: Seq<char>,
    owner: Seq<char>,
    repo: Seq<char>,
    pr_sync: bool,
    notifications: bool,
) -> JsonView {
    JsonView::Object(
        map![
            "uuid"@ => JsonView::Str(uuid),
            "owner"@ => JsonView::Str(owner),
            "repo"@ => JsonView::Str(repo),
            "pr_sync"@ => JsonView::Bool(pr_sync),
            "notifications"@ => JsonView::Bool(notifications),
        ],
    )
}

/// The request for a subscription to a repository. Its body reads back as what is asked
/// for.
pub fn ensure_repo(
    port: u16,
    uuid: &str,
    owner: &str,
    repo: &str,
    pr_sync: bool,
    notifications: bool,
) -> (r: Request)
    ensures
        r.deep_view() == subscribe_request(
            port,
            subscription(uuid@, owner@, repo@, pr_sync, notifications),
        ),
        r.deep_view() == posted(
            port,
            "/subscribe"@,
            json::compact_text(subscription(uuid@, owner@, repo@, pr_sync, notifications)),
        ),
        json::json_of_text(
            json::compact_text(subscription(uuid@, owner@, repo@, pr_sync, notifications)),
        ) == Some(subscription(uuid@, owner@, repo@, pr_sync, notifications)),
{
    let members: Vec<(String, Json)> = vec![
        ("uuid".to_owned(), Json::Str(uuid.to_owned())),
        ("owner".to_owned(), Json::Str(owner.to_owned())),
        ("repo".to_owned(), Json::Str(repo.to_owned())),
        ("pr_sync".to_owned(), Json::Bool(pr_sync)),
        ("notifications".to_owned(), Json::Bool(notifications)),
    ];
    proof {
        json::lemma_members_in_order(members@);
        reveal_with_fuel(json::members_so_far, 6);
        assert(json::members_view(members@) =~= subscription(
            uuid@,
            owner@,
            repo@,
            pr_sync,
            notifications,
        )->Object_0);
        json::lemma_flat_is_plain(json::members_view(members@), 127);
    }
    let body: String = to_text(&Json::Object(members));
    post_json(port, "/subscribe", body.as_str())
}

/// The request for a subscription.
pub open spec fn subscribe_request(port: u16, wish: JsonView) -> RequestView {
    posted(port, "/subscribe"@, json::compact_text(wish))
}

/// The request that gives a sign of life.
pub open spec fn heartbeat_request(port: u16, uuid: Seq<char>) -> RequestView {
    posted(
        port,
        "/heartbeat"@,
        json::compact_text(cmd::one_member("uuid"@, JsonView::Str(uuid))),
    )
}

/// The request that pauses the sync loop.
pub open spec fn pause_request(port: u16) -> RequestView {
    posted(port, "/pause"@, "{}"@)
}

/// The request that lets the sync loop go on.
pub open spec fn resume_request(port: u16) -> RequestView {
    posted(port, "/resume"@, "{}"@)
}

/// The request that gives a sign of life. Its body reads back as the name of the client.
pub fn heartbeat(port: u16, uuid: &str) -> (r: Request)
    ensures
        r.deep_view() == heartbeat_request(port, uuid@),
        r.deep_view() == posted(
            port,
            "/heartbeat"@,
            json::compact_text(cmd::one_member("uuid"@, JsonView::Str(uuid@))),
        ),
        json::json_of_text(json::compact_text(cmd::one_member("uuid"@, JsonView::Str(uuid@))))
            == Some(cmd::one_member("uuid"@, JsonView::Str(uuid@))),
{
    let value: Json = object_with("uuid", Json::Str(uuid.to_owned()));
    proof {
        json::lemma_flat_is_plain(value.deep_view()->Object_0, 127);
    }
    let body: String = to_text(&value);
    post_json(port, "/heartbeat", body.as_str())
}

/// The request that pauses the sync loop.
pub fn pause(port: u16) -> (r: Request)
    ensures
        r.deep_view() == pause_request(port),
        r.deep_view() == posted(port, "/pause"@, "{}"@),
{
    post_json(port, "/pause", "{}")
}

/// The request that lets the sync loop go on.
pub fn resume(port: u16) -> (r: Request)
    ensures
        r.deep_view() == resume_request(port),
        r.deep_view() == posted(port, "/resume"@, "{}"@),
{
    post_json(port, "/resume", "{}")
}

// ---- answers -----------------------------------------------------------------------
/// An answer whose body is not JSON.
#[derive(Clone, Copy, PartialEq, Eq, Structural, Debug)]
pub struct BadAnswer;

/// Reads the body of an answer.
pub fn read_answer(body: &Vec<u8>) -> (r: Result<Json, BadAnswer>)
    ensures
        match r {
            Ok(v) => json::json_of_bytes(body@) == Some(v.deep_view()),
            Err(_) => json::json_of_bytes(body@) is None,
        },
        forall|text: Seq<char>|
            #[trigger] vstd::utf8::encode_utf8(text) == body@ ==> match r {
                Ok(v) => json::json_of_text(text) == Some(v.deep_view()),
                Err(_) => json::json_of_text(text) is None,
            },
{
    match parse_bytes(body) {
        Some(v) => Ok(v),
        None => Err(BadAnswer),
    }
}

/// An answer to a subscription that does not say where the checkout is.
#[derive(Clone, Copy, PartialEq, Eq, Structural, Debug)]
pub struct MissingPath;

/// Where the checkout is, by the answer to a subscription.
pub fn subscribed_path(answer: &Json) -> (r: Result<String, MissingPath>)
    ensures
        match r {
            Ok(path) => path_in(answer.deep_view()) == Some(path@),
            Err(_) => path_in(answer.deep_view()) is None,
        },
        match r {
            Ok(path) => answer.deep_view().at("path"@) == JsonView::Str(path@),
            Err(_) => answer.deep_view().at("path"@).as_str() is None,
        },
{
    match answer.at("path").to_str() {
        Some(path) => Ok(path),
        None => Err(MissingPath),
    }
}

/// Whether the server knows the client, by its answer to a sign of life.
pub fn is_known(answer: &Json) -> (r: bool)
    ensures
        r == says_known(answer.deep_view()),
        r == (answer.deep_view().at("ok"@) == JsonView::Bool(true)),
{
    match answer.at("ok").as_bool() {
        Some(b) => b,
        None => false,
    }
}

/// Where the checkout is, by the answer to a subscription.
pub open spec fn path_in(answer: JsonView) -> Option<Seq<char>> {
    answer.at("path"@).as_str()
}

/// Whether the server knows the client, by its answer to a sign of life.
pub open spec fn says_known(answer: JsonView) -> bool {
    answer.at("ok"@) == JsonView::Bool(true)
}

/// What the server answers is what its client reads: the path of a checkout, and whether a
/// client is known.
pub proof fn answers_say_what_is_asked(path: Seq<char>, ok: bool)
    ensures
        cmd::one_member("path"@, JsonView::Str(path)).at("path"@) == JsonView::Str(path),
        cmd::one_member("ok"@, JsonView::Bool(ok)).at("ok"@) == JsonView::Bool(ok),
{
}

} // verus!
