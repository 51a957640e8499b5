//! The changes that the server pushes, as its clients ask for them and read them.

use vstd::prelude::*;

use crate::client::cmd::{Request, RequestView};
use crate::client::tail::{ChangeEvent, ChangeEventView};
use crate::http::Head;
use crate::json::parse;
use crate::number::i64_text;
use crate::text::strip_prefix;
use crate::client::tail;
use crate::{http, json, number, serve, text};

verus! {

/// The stream of changes of the server on a port of this machine.
#[derive(Clone, Copy, PartialEq, Eq, Structural, Debug)]
pub struct EventStream {
    /// Where the server listens.
    pub port: u16,
    /// The last change that was seen, where the stream is to go on after it.
    pub last_id: Option<i64>,
}

// ---- the request -------------------------------------------------------------------
/// The line of a head that says which change was seen last.
pub open spec fn last_id_line(id: i64) -> Seq<char> {
    "Last-Event-ID: "@ + number::int_text(id as int) + "\r\n"@
}

/// The request for the stream.
pub open spec fn events_request(last_id: Option<i64>) -> Seq<char> {
    match last_id {
        Some(id) => "GET /events HTTP/1.1\r\nHost: 127.0.0.1\r\n"@ + last_id_line(id) + "\r\n"@,
        None => "GET /events HTTP/1.1\r\nHost: 127.0.0.1\r\n"@ + "\r\n"@,
    }
}

impl EventStream {
    /// The stream of the changes from now on.
    pub fn new(port: u16) -> (r: EventStream)
        ensures
            r == (EventStream { port, last_id: None }),
    {
        EventStream { port, last_id: None }
    }

    /// The stream of the changes after a given one.
    pub fn from_id(port: u16, last_id: i64) -> (r: EventStream)
        ensures
            r == (EventStream { port, last_id: Some(last_id) }),
    {
        EventStream { port, last_id: Some(last_id) }
    }

    /// The request for the stream.
    pub fn request(&self) -> (r: Request)
        ensures
            r.deep_view() == (RequestView {
                port: self.port,
                text: events_request(self.last_id),
            }),
    {
        let mut text: String = "GET /events HTTP/1.1\r\nHost: 127.0.0.1\r\n".to_owned();
        if let Some(id) = self.last_id {
            let digits: String = i64_text(id);
            let mut line: String = "Last-Event-ID: ".to_owned();
            line.append(digits.as_str());
            line.append("\r\n");
            text.append(line.as_str());
        }
        text.append("\r\n");
        Request { port: self.port, text }
    }
}

// ---- what is pushed ----------------------------------------------------------------
/// What a line of the stream says.
pub enum StreamLine {
    /// That there is a change.
    Change(ChangeEvent),
    /// Data that is no change.
    Unreadable,
    /// Anything but data: the id of a change, or the end of one.
    Other,
}

/// What a line of the stream says.
pub enum StreamLineView {
    Change(ChangeEventView),
    Unreadable,
    Other,
}

impl DeepView for StreamLine {
    type V = StreamLineView;

    open spec fn deep_view(&self) -> StreamLineView {
        match self {
            StreamLine::Change(ev) => StreamLineView::Change(ev.deep_view()),
            StreamLine::Unreadable => StreamLineView::Unreadable,
            StreamLine::Other => StreamLineView::Other,
        }
    }
}

/// The data in a line that begins with `data:`: what follows, without the blank before it and
/// the end of the line.
pub open spec fn data_in(line: Seq<char>) -> Seq<char> {
    let rest = line.skip("data:"@.len() as int);
    let from: int = if rest.len() > 0 && rest[0] == ' ' {
        1
    } else {
        0
    };
    if rest.len() > from && rest.last() == '\n' {
        rest.subrange(from, rest.len() - 1)
    } else {
        rest.skip(from)
    }
}

/// What a line of the stream says.
pub open spec fn line_says(line: Seq<char>) -> StreamLineView {
    if !text::begins_with(line, "data:"@) {
        StreamLineView::Other
    } else {
        match json::json_of_text(data_in(line)) {
            Some(v) => match tail::change_of(v) {
                Some(ev) => StreamLineView::Change(ev),
                None => StreamLineView::Unreadable,
            },
            None => StreamLineView::Unreadable,
        }
    }
}

/// Reads a line of the stream.
pub fn read_line(line: &str) -> (r: StreamLine)
    ensures
        r.deep_view() == line_says(line@),
{
    let rest: &str = match strip_prefix(line, "data:") {
        Some(rest) => rest,
        None => {
            return StreamLine::Other;
        },
    };
    let n: usize = rest.unicode_len();
    let from: usize = if n > 0 && rest.get_char(0) == ' ' {
        1
    } else {
        0
    };
    let to: usize = if n > from && rest.get_char(n - 1) == '\n' {
        n - 1
    } else {
        n
    };
    let data: &str = rest.substring_char(from, to);
    assert(data@ =~= data_in(line@));
    match parse(data) {
        Some(v) => match ChangeEvent::from_json(&v) {
            Some(ev) => StreamLine::Change(ev),
            None => StreamLine::Unreadable,
        },
        None => StreamLine::Unreadable,
    }
}

// ---- what holds of every stream ----------------------------------------------------
/// The lines of a change as it is pushed, each with its end.
pub open spec fn frame_lines(id: i64, data: Seq<char>) -> Seq<Seq<char>> {
    seq!["id: "@ + number::int_text(id as int) + "\n"@, "data: "@ + data + "\n"@, "\n"@]
}

/// A change is pushed as its lines, one after another.
pub(crate) proof fn lemma_frame_lines(id: i64, data: Seq<char>)
    ensures
        serve::frame_of(id, data) == text::joined(frame_lines(id, data), Seq::empty()),
{
    reveal_strlit("\ndata: ");
    reveal_strlit("data: ");
    reveal_strlit("\n\n");
    reveal_strlit("\n");
    let l = frame_lines(id, data);
    reveal_with_fuel(text::joined, 3);
    assert(l.drop_last().drop_last()[0] == l[0]);
    assert(text::joined(l, Seq::empty()) =~= l[0] + l[1] + l[2]);
    assert("\ndata: "@ =~= "\n"@ + "data: "@);
    assert("\n\n"@ =~= "\n"@ + "\n"@);
    assert(serve::frame_of(id, data) =~= l[0] + l[1] + l[2]);
}

/// Whoever reads a change that is pushed, line by line, reads that change once, where its data
/// reads back.
pub proof fn pushed_change_is_read_once(ev: ChangeEventView, data: Seq<char>)
    requires
        json::json_of_text(data) == Some(tail::change_json(ev)),
    ensures
        serve::frame_of(ev.id, data) == text::joined(frame_lines(ev.id, data), Seq::empty()),
        line_says(frame_lines(ev.id, data)[0]) == StreamLineView::Other,
        line_says(frame_lines(ev.id, data)[1]) == StreamLineView::Change(ev),
        line_says(frame_lines(ev.id, data)[2]) == StreamLineView::Other,
{
    reveal_strlit("id: ");
    reveal_strlit("data: ");
    reveal_strlit("data:");
    reveal_strlit("\n");
    let l = frame_lines(ev.id, data);
    lemma_frame_lines(ev.id, data);
    assert(l[0].take("data:"@.len() as int)[0] != "data:"@[0]);
    assert(l[1].take("data:"@.len() as int) =~= "data:"@);
    assert(l[1].skip("data:"@.len() as int) =~= seq![' '] + data + "\n"@);
    assert(data_in(l[1]) =~= data);
    tail::change_reads_back(ev);
}

/// The lines of the head of a request for the stream after a given change, each with its end.
pub open spec fn request_lines(last_id: i64) -> Seq<Seq<char>> {
    seq![
        "GET /events HTTP/1.1\r\n"@,
        "Host: 127.0.0.1\r\n"@,
        last_id_line(last_id),
        "\r\n"@,
    ]
}

/// Whoever asks for the stream after a given change is sent the changes after that one: the
/// server reads from the request what is asked for and which change was seen last.
pub proof fn stream_goes_on_after_what_was_seen(last_id: i64)
    ensures
        events_request(Some(last_id)) == text::joined(request_lines(last_id), Seq::empty()),
        http::request_of(request_lines(last_id)[0]) == Some(("GET"@, "/events"@)),
        http::head_of(request_lines(last_id).skip(1)) == (Head {
            content_length: 0,
            last_event_id: Some(last_id),
            complete: true,
        }),
{
    let l = request_lines(last_id);
    http::lemma_join4(l);
    reveal_strlit("GET /events HTTP/1.1\r\nHost: 127.0.0.1\r\n");
    reveal_strlit("GET /events HTTP/1.1\r\n");
    reveal_strlit("Host: 127.0.0.1\r\n");
    assert("GET /events HTTP/1.1\r\nHost: 127.0.0.1\r\n"@ =~= l[0] + l[1]);
    assert(events_request(Some(last_id)) =~= l[0] + l[1] + l[2] + l[3]);
    http::lemma_plain_lines();
    http::lemma_plain_post_lines();
    http::last_id_line_reads_back(last_id);
    lemma_request_line();
    let h = l.skip(1);
    assert(h.drop_last() =~= seq![l[1], l[2]]);
    assert(h.drop_last().drop_last() =~= seq![l[1]]);
    assert(h.drop_last().drop_last().drop_last() =~= Seq::empty());
    reveal_with_fuel(http::head_of, 4);
}

proof fn lemma_request_line()
    ensures
        http::request_of("GET /events HTTP/1.1\r\n"@) == Some(("GET"@, "/events"@)),
{
    reveal_strlit("GET /events HTTP/1.1\r\n");
    reveal_strlit("GET /events HTTP/1.1");
    reveal_strlit("/events HTTP/1.1");
    reveal_strlit("/events");
    reveal_strlit("GET");
    reveal_strlit("\r\n");
    let s = "GET /events HTTP/1.1"@;
    let rest = "/events HTTP/1.1"@;
    assert("GET /events HTTP/1.1\r\n"@ =~= s + "\r\n"@);
    http::lemma_trim_line(s);
    assert(s[3] == ' ');
    text::lemma_place_of(s, ' ', 3);
    assert(s.take(3) =~= "GET"@);
    assert(s.skip(4) =~= rest);
    assert(rest[7] == ' ');
    text::lemma_place_of(rest, ' ', 7);
    assert(rest.take(7) =~= "/events"@);
}

} // verus!
