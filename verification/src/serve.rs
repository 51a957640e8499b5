//! The log of changes, handed on to whoever listens: one line of JSON for each change.

use vstd::prelude::*;

use crate::client::stream::StreamLineView;
use crate::client::tail::{ChangeEvent, ChangeEventView};
use crate::number::i64_text;
use crate::sql::{FromRow, Row, RowError};
use crate::text::{cat, cat3};
use crate::client::{stream, tail};
use crate::{json, number, sql, text};

verus! {

/// Whether a text ends with a slash.
pub open spec fn ends_with_slash(s: Seq<char>) -> bool {
    s.len() > 0 && s.last() == '/'
}

/// Where the socket is: in the directory for what lives as long as the session, if there is
/// one, else in `/tmp`.
pub open spec fn socket_path(runtime_dir: Option<Seq<char>>) -> Seq<char> {
    match runtime_dir {
        Some(dir) => if dir.len() == 0 || ends_with_slash(dir) {
            dir + "ghcache.sock"@
        } else {
            dir + "/"@ + "ghcache.sock"@
        },
        None => "/tmp/ghcache.sock"@,
    }
}

/// Where the socket is, by the directory for what lives as long as the session.
pub fn default_socket_path(runtime_dir: Option<&str>) -> (r: String)
    ensures
        r@ == socket_path(runtime_dir.deep_view()),
{
    match runtime_dir {
        Some(dir) => {
            let n: usize = dir.unicode_len();
            if n == 0 || dir.get_char(n - 1) == '/' {
                cat(dir, "ghcache.sock")
            } else {
                cat3(dir, "/", "ghcache.sock")
            }
        },
        None => "/tmp/ghcache.sock".to_owned(),
    }
}

/// A change as one line, without the end of the line.
pub open spec fn line_of(ev: ChangeEventView) -> Seq<char> {
    json::compact_text(tail::change_json(ev))
}

/// The lines for the rows of changes. `last_id` becomes the id of the last row that was
/// read, also where a later row cannot be read.
pub fn poll_changes(rows: &Vec<Row>, last_id: &mut i64) -> (r: Result<Vec<String>, RowError>)
    ensures
        *final(last_id) == tail::last_seen(
            sql::leading::<ChangeEvent>(rows.deep_view()),
            *old(last_id),
        ),
        match r {
            Ok(lines) => sql::leading::<ChangeEvent>(rows.deep_view()).len() == rows@.len()
                && lines.deep_view() == sql::leading::<ChangeEvent>(rows.deep_view()).map_values(
                |ev: ChangeEventView| line_of(ev),
            ),
            Err(e) => e.row < rows@.len() && e.row == sql::leading::<ChangeEvent>(
                rows.deep_view(),
            ).len(),
        },
        r matches Ok(lines) ==> forall|i: int|
            0 <= i < lines@.len() ==> !(#[trigger] lines.deep_view()[i]).contains('\n'),
{
    let ghost all = rows.deep_view();
    let ghost f = |ev: ChangeEventView| line_of(ev);
    let ghost start = *last_id;
    let mut out: Vec<String> = Vec::new();
    let mut i: usize = 0;
    assert(all.take(0) =~= Seq::empty());
    assert(out.deep_view() =~= sql::leading::<ChangeEvent>(all.take(0)).map_values(f));
    while i < rows.len()
        invariant
            i <= rows.len(),
            all == rows.deep_view(),
            start == *old(last_id),
            f == (|ev: ChangeEventView| line_of(ev)),
            sql::leading::<ChangeEvent>(all.take(i as int)).len() == i,
            out.deep_view() == sql::leading::<ChangeEvent>(all.take(i as int)).map_values(f),
            *last_id == tail::last_seen(sql::leading::<ChangeEvent>(all.take(i as int)), start),
            forall|k: int|
                0 <= k < out@.len() ==> !(#[trigger] out.deep_view()[k]).contains('\n'),
        decreases rows.len() - i,
    {
        proof {
            assert(all.take(i + 1).drop_last() =~= all.take(i as int));
            assert(all.take(i + 1).last() == rows@[i as int].deep_view());
        }
        match ChangeEvent::from_row(&rows[i]) {
            Some(ev) => {
                let ghost before = out.deep_view();
                let ghost seen = sql::leading::<ChangeEvent>(all.take(i as int));
                let line: String = ev.to_line();
                out.push(line);
                *last_id = ev.id;
                proof {
                    assert(out.deep_view() =~= before.push(line@));
                    let next = sql::leading::<ChangeEvent>(all.take(i + 1));
                    assert(next == seen.push(ev.deep_view()));
                    assert(out.deep_view() =~= next.map_values(f));
                }
            },
            None => {
                proof {
                    sql::lemma_leading_stops::<ChangeEvent>(all, i as int);
                }
                return Err(RowError { row: i });
            },
        }
        i += 1;
    }
    assert(all.take(i as int) =~= all);
    Ok(out)
}

/// A change as it is pushed to a listener over HTTP: its id, and the change as one line of
/// data.
pub open spec fn frame_of(id: i64, line: Seq<char>) -> Seq<char> {
    "id: "@ + number::int_text(id as int) + "\ndata: "@ + line + "\n\n"@
}

/// A change as it is pushed to a listener over HTTP. Its data is one line. Where its payload is
/// of ordinary depth and holds no number beyond `i64`, the listener reads that change from the
/// line.
pub fn event_frame(ev: &ChangeEvent) -> (r: String)
    ensures
        r@ == frame_of(ev.deep_view().id, line_of(ev.deep_view())),
        r@ == text::joined(
            stream::frame_lines(ev.deep_view().id, line_of(ev.deep_view())),
            Seq::empty(),
        ),
        !line_of(ev.deep_view()).contains('\n'),
        ev.deep_view().payload.is_plain(126) ==> stream::line_says(
            "data: "@ + line_of(ev.deep_view()) + "\n"@,
        ) == StreamLineView::Change(ev.deep_view()),
{
    let id: String = i64_text(ev.id);
    let line: String = ev.to_line();
    proof {
        stream::lemma_frame_lines(ev.deep_view().id, line@);
        if ev.deep_view().payload.is_plain(126) {
            stream::pushed_change_is_read_once(ev.deep_view(), line@);
        }
    }
    let mut r: String = cat3("id: ", id.as_str(), "\ndata: ");
    r.append(line.as_str());
    r.append("\n\n");
    r
}

/// What a listener over HTTP is sent before the first change.
pub const STREAM_HEAD: &'static str =
    "HTTP/1.1 200 OK\r\nContent-Type: text/event-stream\r\nCache-Control: no-cache\r\n\r\n";

/// The id after which a listener is sent changes: the last one that it has seen, where it says
/// so, else the latest that there is.
pub open spec fn first_after(last_event_id: Option<i64>, latest: i64) -> i64 {
    match last_event_id {
        Some(id) => id,
        None => latest,
    }
}

/// The id after which a listener is sent changes: the last one that it has seen, where it says
/// so, else the latest that there is.
pub fn start_after(last_event_id: Option<i64>, latest: i64) -> (r: i64)
    ensures
        r == first_after(last_event_id, latest),
        r == (match last_event_id {
            Some(id) => id,
            None => latest,
        }),
{
    match last_event_id {
        Some(id) => id,
        None => latest,
    }
}

} // verus!
