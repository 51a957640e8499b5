//! The log of changes, read from some point on.

use vstd::prelude::*;

use crate::json::{opt_str, to_text, Json, JsonView};
use crate::report::count_or_zero;
use crate::sql::{
    get_integer, get_opt_text, get_payload, get_text, read_all, FromRow, Row, RowError, SqlValue,
    SqlView, Statement, StatementView,
};
use crate::{json, report, sql};

verus! {

/// Gives the changes that were logged after a given one, in their order.
pub const SELECT_CHANGES: &'static str =
    "SELECT id, entity_type, entity_id, event, repo_slug, payload_json, occurred_at
         FROM change_log WHERE id > ?1 ORDER BY id";

/// Gives the id of the change that was logged last, or zero.
pub const SELECT_LATEST: &'static str = "SELECT COALESCE(MAX(id), 0) FROM change_log";

/// A change that was logged.
#[derive(Debug, Clone)]
pub struct ChangeEvent {
    pub id: i64,
    pub entity_type: String,
    pub entity_id: i64,
    pub event: String,
    pub repo_slug: Option<String>,
    pub payload: Json,
    pub occurred_at: String,
}

/// What a change event is.
#[verifier::ext_equal]
pub struct ChangeEventView {
    pub id: i64,
    pub entity_type: Seq<char>,
    pub entity_id: i64,
    pub event: Seq<char>,
    pub repo_slug: Option<Seq<char>>,
    pub payload: JsonView,
    pub occurred_at: Seq<char>,
}

impl DeepView for ChangeEvent {
    type V = ChangeEventView;

    open spec fn deep_view(&self) -> ChangeEventView {
        ChangeEventView {
            id: self.id,
            entity_type: self.entity_type@,
            entity_id: self.entity_id,
            event: self.event@,
            repo_slug: self.repo_slug.deep_view(),
            payload: self.payload.deep_view(),
            occurred_at: self.occurred_at@,
        }
    }
}

impl FromRow for ChangeEvent {
    open spec fn in_row(row: Seq<SqlView>) -> Option<ChangeEventView> {
        if sql::integer_in(row, 0) is Some
            && sql::text_in(row, 1) is Some
            && sql::integer_in(row, 2) is Some
            && sql::text_in(row, 3) is Some
            && sql::opt_text_in(row, 4) is Some
            && sql::payload_in(row, 5) is Some
            && sql::text_in(row, 6) is Some
        {
            Some(
                ChangeEventView {
                    id: sql::integer_in(row, 0)->Some_0,
                    entity_type: sql::text_in(row, 1)->Some_0,
                    entity_id: sql::integer_in(row, 2)->Some_0,
                    event: sql::text_in(row, 3)->Some_0,
                    repo_slug: sql::opt_text_in(row, 4)->Some_0,
                    payload: sql::payload_in(row, 5)->Some_0,
                    occurred_at: sql::text_in(row, 6)->Some_0,
                },
            )
        } else {
            None
        }
    }

    fn from_row(row: &Row) -> (r: Option<ChangeEvent>) {
        let id: i64 = match get_integer(row, 0) {
            Ok(v) => v,
            Err(_) => {
                return None;
            },
        };
        let entity_type: String = match get_text(row, 1) {
            Ok(v) => v,
            Err(_) => {
                return None;
            },
        };
        let entity_id: i64 = match get_integer(row, 2) {
            Ok(v) => v,
            Err(_) => {
                return None;
            },
        };
        let event: String = match get_text(row, 3) {
            Ok(v) => v,
            Err(_) => {
                return None;
            },
        };
        let repo_slug: Option<String> = match get_opt_text(row, 4) {
            Ok(v) => v,
            Err(_) => {
                return None;
            },
        };
        let payload: Json = match get_payload(row, 5) {
            Ok(v) => v,
            Err(_) => {
                return None;
            },
        };
        let occurred_at: String = match get_text(row, 6) {
            Ok(v) => v,
            Err(_) => {
                return None;
            },
        };
        Some(ChangeEvent { id, entity_type, entity_id, event, repo_slug, payload, occurred_at })
    }
}

/// The query for the changes that were logged after the one with the id `last_id`.
pub open spec fn changes_query(last_id: i64) -> StatementView {
    StatementView { sql: SELECT_CHANGES@, params: seq![SqlView::Integer(last_id)] }
}

/// The query for the changes that were logged after the one with the id `last_id`.
pub fn poll(last_id: i64) -> (r: Statement)
    ensures
        r.deep_view() == changes_query(last_id),
{
    let params: Vec<SqlValue> = vec![SqlValue::Integer(last_id)];
    assert(params.deep_view() =~= seq![SqlView::Integer(last_id)]);
    Statement { sql: SELECT_CHANGES.to_owned(), params }
}

/// Reads changes.
pub fn changes_from(rows: &Vec<Row>) -> (r: Result<Vec<ChangeEvent>, RowError>)
    ensures
        match r {
            Ok(v) => v.deep_view() == sql::leading::<ChangeEvent>(rows.deep_view()) && v@.len()
                == rows@.len(),
            Err(e) => e.row < rows@.len() && e.row == sql::leading::<ChangeEvent>(
                rows.deep_view(),
            ).len(),
        },
{
    read_all::<ChangeEvent>(rows)
}

/// The id from which on changes are asked for next, when `events` were received after those
/// up to `last_id`.
pub open spec fn last_seen(events: Seq<ChangeEventView>, last_id: i64) -> i64 {
    if events.len() == 0 {
        last_id
    } else {
        events.last().id
    }
}

/// The id from which on changes are asked for next.
pub fn next_last_id(events: &Vec<ChangeEvent>, last_id: i64) -> (r: i64)
    ensures
        r == last_seen(events.deep_view(), last_id),
{
    if events.len() == 0 {
        last_id
    } else {
        assert(events.deep_view().last() == events@.last().deep_view());
        events[events.len() - 1].id
    }
}

/// Whoever asks for changes again after what was received is given no change twice: where
/// changes come in the order of their ids, the next question is for later ones only.
pub proof fn no_change_is_seen_twice(events: Seq<ChangeEventView>, last_id: i64, i: int)
    requires
        forall|k: int| 0 <= k < events.len() ==> last_id < (#[trigger] events[k]).id,
        forall|k: int, m: int|
            0 <= k < m < events.len() ==> (#[trigger] events[k]).id < (#[trigger] events[m]).id,
        0 <= i < events.len(),
    ensures
        last_id < events[i].id <= last_seen(events, last_id),
{
}

// ---- the log as a whole ------------------------------------------------------------
/// A row of the log of changes.
pub struct LoggedChange {
    pub id: i64,
    pub entity_type: Seq<char>,
    pub entity_id: i64,
    pub event: Seq<char>,
    pub repo_slug: Option<Seq<char>>,
    pub payload_json: Option<Seq<char>>,
    pub occurred_at: Seq<char>,
}

impl LoggedChange {
    /// The columns of the row, as a query for changes gives them.
    pub open spec fn row(self) -> Seq<SqlView> {
        seq![
            SqlView::Integer(self.id),
            SqlView::Text(self.entity_type),
            SqlView::Integer(self.entity_id),
            SqlView::Text(self.event),
            sql::text_or_null(self.repo_slug),
            sql::text_or_null(self.payload_json),
            SqlView::Text(self.occurred_at),
        ]
    }

    /// The change that the row tells of. Its payload is null where the row has none, and where
    /// what it has is not JSON.
    pub open spec fn change(self) -> ChangeEventView {
        ChangeEventView {
            id: self.id,
            entity_type: self.entity_type,
            entity_id: self.entity_id,
            event: self.event,
            repo_slug: self.repo_slug,
            payload: sql::payload_of(self.payload_json),
            occurred_at: self.occurred_at,
        }
    }
}

/// The rows of the log that a query for changes gives: those with an id above the given one.
pub open spec fn rows_found(log: Seq<LoggedChange>, s: StatementView) -> Seq<Seq<SqlView>>
    decreases log.len(),
{
    if log.len() == 0 || s.sql != SELECT_CHANGES@ || s.params.len() != 1 {
        Seq::empty()
    } else {
        let before = rows_found(log.drop_last(), s);
        match s.params[0] {
            SqlView::Integer(last_id) if log.last().id > last_id => before.push(log.last().row()),
            _ => before,
        }
    }
}

/// The changes that the log tells of.
pub open spec fn changes_in(log: Seq<LoggedChange>) -> Seq<ChangeEventView> {
    log.map_values(|c: LoggedChange| c.change())
}

/// Whether changes are in the order of their ids, none of them twice.
pub open spec fn in_order(changes: Seq<ChangeEventView>) -> bool {
    forall|i: int, k: int|
        0 <= i < k < changes.len() ==> (#[trigger] changes[i]).id < (#[trigger] changes[k]).id
}

/// Those of the changes that have an id above a given one.
pub open spec fn above(changes: Seq<ChangeEventView>, last_id: i64) -> Seq<ChangeEventView>
    decreases changes.len(),
{
    if changes.len() == 0 {
        Seq::empty()
    } else {
        let before = above(changes.drop_last(), last_id);
        if changes.last().id > last_id {
            before.push(changes.last())
        } else {
            before
        }
    }
}

/// Those of the changes that have an id of at most a given one.
pub open spec fn up_to(changes: Seq<ChangeEventView>, last_id: i64) -> Seq<ChangeEventView>
    decreases changes.len(),
{
    if changes.len() == 0 {
        Seq::empty()
    } else {
        let before = up_to(changes.drop_last(), last_id);
        if changes.last().id <= last_id {
            before.push(changes.last())
        } else {
            before
        }
    }
}

/// The changes that are read when the log is asked for those after a given one.
pub open spec fn polled(log: Seq<LoggedChange>, last_id: i64) -> Seq<ChangeEventView> {
    sql::leading::<ChangeEvent>(rows_found(log, changes_query(last_id)))
}

pub(crate) proof fn lemma_polled(log: Seq<LoggedChange>, last_id: i64)
    ensures
        polled(log, last_id) == above(changes_in(log), last_id),
        polled(log, last_id).len() == rows_found(log, changes_query(last_id)).len(),
    decreases log.len(),
{
    let rows = rows_found(log, changes_query(last_id));
    if log.len() == 0 {
        assert(polled(log, last_id) =~= above(changes_in(log), last_id));
    } else {
        let fewer = log.drop_last();
        lemma_polled(fewer, last_id);
        assert(changes_query(last_id).params[0] == SqlView::Integer(last_id));
        assert(changes_in(log).drop_last() =~= changes_in(fewer));
        assert(changes_in(log).last() == log.last().change());
        if log.last().id > last_id {
            assert(rows.drop_last() =~= rows_found(fewer, changes_query(last_id)));
            let row = log.last().row();
            assert(rows.last() == row);
            assert(ChangeEvent::in_row(row) == Some(log.last().change()));
        }
    }
}

proof fn lemma_above(changes: Seq<ChangeEventView>, last_id: i64)
    requires
        in_order(changes),
    ensures
        in_order(above(changes, last_id)),
        forall|c: ChangeEventView| #[trigger]
            above(changes, last_id).contains(c) <==> changes.contains(c) && c.id > last_id,
    decreases changes.len(),
{
    if changes.len() > 0 {
        let fewer = changes.drop_last();
        let before = above(fewer, last_id);
        let all = above(changes, last_id);
        let x = changes.last();
        assert(in_order(fewer));
        lemma_above(fewer, last_id);
        assert forall|c: ChangeEventView| #[trigger]
            all.contains(c) <==> changes.contains(c) && c.id > last_id by {
            assert(before.contains(c) <==> fewer.contains(c) && c.id > last_id);
            if all.contains(c) {
                let k = choose|k: int| 0 <= k < all.len() && all[k] == c;
                if k < before.len() {
                    assert(before[k] == c);
                    let m = choose|m: int| 0 <= m < fewer.len() && fewer[m] == c;
                    assert(changes[m] == c);
                } else {
                    assert(changes[changes.len() - 1] == c);
                }
            }
            if changes.contains(c) && c.id > last_id {
                let m = choose|m: int| 0 <= m < changes.len() && changes[m] == c;
                if m < fewer.len() {
                    assert(fewer[m] == c);
                    let k = choose|k: int| 0 <= k < before.len() && before[k] == c;
                    assert(all[k] == c);
                } else {
                    assert(all[all.len() - 1] == c);
                }
            }
        }
        assert forall|i: int, k: int| 0 <= i < k < all.len() implies (#[trigger] all[i]).id < (
        #[trigger] all[k]).id by {
            if k == before.len() {
                assert(before.contains(before[i]));
                assert(fewer.contains(before[i]));
            }
        }
    }
}

pub(crate) proof fn lemma_none_above(changes: Seq<ChangeEventView>, last_id: i64)
    requires
        forall|i: int| 0 <= i < changes.len() ==> (#[trigger] changes[i]).id <= last_id,
    ensures
        above(changes, last_id) == Seq::<ChangeEventView>::empty(),
    decreases changes.len(),
{
    if changes.len() > 0 {
        assert(changes.last() == changes[changes.len() - 1]);
        lemma_none_above(changes.drop_last(), last_id);
    }
}

proof fn lemma_above_joins(changes: Seq<ChangeEventView>, a: i64, b: i64)
    requires
        in_order(changes),
        a <= b,
    ensures
        above(changes, a) == up_to(above(changes, a), b) + above(changes, b),
    decreases changes.len(),
{
    if changes.len() == 0 {
        assert(above(changes, a) =~= up_to(above(changes, a), b) + above(changes, b));
    } else {
        let fewer = changes.drop_last();
        let x = changes.last();
        assert(in_order(fewer));
        lemma_above_joins(fewer, a, b);
        let low = up_to(above(fewer, a), b);
        if x.id > a {
            assert(above(changes, a).drop_last() =~= above(fewer, a));
            if x.id <= b {
                assert forall|i: int| 0 <= i < fewer.len() implies (#[trigger] fewer[i]).id
                    <= b by {
                    assert(changes[i].id < changes[changes.len() - 1].id);
                }
                lemma_none_above(fewer, b);
                assert(above(changes, a) =~= low.push(x) + above(changes, b));
            } else {
                assert(above(changes, a) =~= low + above(fewer, b).push(x));
            }
        }
    }
}

/// Whoever asks for the changes after a given one is given all of them and no others, each
/// once, in the order of their ids. Every row can be read.
pub proof fn poll_gives_what_was_logged(log: Seq<LoggedChange>, last_id: i64)
    requires
        in_order(changes_in(log)),
    ensures
        polled(log, last_id).len() == rows_found(log, changes_query(last_id)).len(),
        in_order(polled(log, last_id)),
        forall|c: ChangeEventView| #[trigger]
            polled(log, last_id).contains(c) <==> changes_in(log).contains(c) && c.id > last_id,
{
    lemma_polled(log, last_id);
    lemma_above(changes_in(log), last_id);
}

/// Asking from a point on is the same as asking up to a later point and then from there on; and
/// whoever asks again after what was received last is given nothing, while nothing is logged.
pub proof fn polls_join(log: Seq<LoggedChange>, a: i64, b: i64)
    requires
        in_order(changes_in(log)),
        a <= b,
    ensures
        polled(log, a) == up_to(polled(log, a), b) + polled(log, b),
        polled(log, last_seen(polled(log, a), a)) == Seq::<ChangeEventView>::empty(),
{
    let all = changes_in(log);
    let c = last_seen(polled(log, a), a);
    lemma_polled(log, a);
    lemma_polled(log, b);
    lemma_polled(log, c);
    lemma_above_joins(all, a, b);
    lemma_last_seen(all, a);
}

proof fn lemma_last_seen(all: Seq<ChangeEventView>, a: i64)
    requires
        in_order(all),
    ensures
        a <= last_seen(above(all, a), a),
        forall|i: int|
            0 <= i < all.len() ==> (#[trigger] all[i]).id <= last_seen(above(all, a), a),
        above(all, last_seen(above(all, a), a)) == Seq::<ChangeEventView>::empty(),
{
    let seen = above(all, a);
    let c = last_seen(seen, a);
    lemma_above(all, a);
    if seen.len() > 0 {
        assert(seen.contains(seen[seen.len() - 1]));
    }
    assert forall|i: int| 0 <= i < all.len() implies (#[trigger] all[i]).id <= c by {
        if all[i].id > a {
            assert(all.contains(all[i]));
            assert(seen.contains(all[i]));
            let k = choose|k: int| 0 <= k < seen.len() && seen[k] == all[i];
            if k < seen.len() - 1 {
                assert(seen[k].id < seen[seen.len() - 1].id);
            }
        }
    }
    lemma_none_above(all, c);
}

// ---- following the log -------------------------------------------------------------
/// Someone who follows the log: the id of the change that was received last.
#[derive(Clone, Copy, PartialEq, Eq, Structural, Debug)]
pub struct Tail {
    last: i64,
}

impl Tail {
    /// The id of the change that was received last.
    pub closed spec fn last(&self) -> i64 {
        self.last
    }

    /// One who has received everything up to a change.
    pub fn after(last_id: i64) -> (r: Tail)
        ensures
            r.last() == last_id,
    {
        Tail { last: last_id }
    }

    /// One who wants only what is new, by the answer to the query for the latest change.
    pub fn from_now(rows: &Vec<Row>) -> (r: Tail)
        ensures
            r.last() == report::count_in(rows.deep_view()),
    {
        Tail { last: count_or_zero(rows) }
    }

    /// The query for what is new.
    pub fn query(&self) -> (r: Statement)
        ensures
            r.deep_view() == changes_query(self.last()),
    {
        poll(self.last)
    }

    /// Takes in the changes that the query gave, and hands them on, if there are any.
    pub fn take(&mut self, events: Vec<ChangeEvent>) -> (r: Option<Vec<ChangeEvent>>)
        ensures
            final(self).last() == last_seen(events.deep_view(), old(self).last()),
            r is None <==> events@.len() == 0,
            r matches Some(e) ==> e.deep_view() == events.deep_view(),
    {
        self.last = next_last_id(&events, self.last);
        if events.len() == 0 {
            None
        } else {
            Some(events)
        }
    }
}

/// What one who starts after `start` has received, and the id of the last change of it, when the
/// log was asked at each of its states in turn.
pub open spec fn followed(logs: Seq<Seq<LoggedChange>>, start: i64) -> (Seq<ChangeEventView>, i64)
    decreases logs.len(),
{
    if logs.len() == 0 {
        (Seq::empty(), start)
    } else {
        let (before, last) = followed(logs.drop_last(), start);
        let batch = polled(logs.last(), last);
        (before + batch, last_seen(batch, last))
    }
}

/// Whether these are states of a log to which changes are only added, each with an id above
/// those before it.
pub open spec fn grows(logs: Seq<Seq<LoggedChange>>) -> bool {
    &&& forall|i: int| 0 <= i < logs.len() ==> in_order(changes_in(#[trigger] logs[i]))
    &&& forall|i: int, k: int|
        0 <= i <= k < logs.len() ==> (#[trigger] logs[i]).is_prefix_of(#[trigger] logs[k])
}

proof fn lemma_above_append(a: Seq<ChangeEventView>, b: Seq<ChangeEventView>, last_id: i64)
    ensures
        above(a + b, last_id) == above(a, last_id) + above(b, last_id),
    decreases b.len(),
{
    if b.len() == 0 {
        assert(a + b =~= a);
        assert(above(a, last_id) =~= above(a, last_id) + above(b, last_id));
    } else {
        assert((a + b).drop_last() =~= a + b.drop_last());
        assert((a + b).last() == b.last());
        lemma_above_append(a, b.drop_last(), last_id);
        assert(above(a + b, last_id) =~= above(a, last_id) + above(b, last_id));
    }
}

proof fn lemma_same_above(changes: Seq<ChangeEventView>, a: i64, b: i64)
    requires
        forall|i: int|
            0 <= i < changes.len() ==> ((#[trigger] changes[i]).id > a <==> changes[i].id > b),
    ensures
        above(changes, a) == above(changes, b),
    decreases changes.len(),
{
    if changes.len() > 0 {
        assert(changes.last() == changes[changes.len() - 1]);
        lemma_same_above(changes.drop_last(), a, b);
    }
}

proof fn lemma_followed(logs: Seq<Seq<LoggedChange>>, start: i64)
    requires
        grows(logs),
    ensures
        logs.len() > 0 ==> followed(logs, start).0 == above(changes_in(logs.last()), start),
        followed(logs, start).1 == last_seen(followed(logs, start).0, start),
    decreases logs.len(),
{
    if logs.len() > 0 {
        let fewer = logs.drop_last();
        assert forall|i: int, k: int|
            0 <= i <= k < fewer.len() implies (#[trigger] fewer[i]).is_prefix_of(
            #[trigger] fewer[k],
        ) by {
            assert(logs[i].is_prefix_of(logs[k]));
        }
        assert forall|i: int| 0 <= i < fewer.len() implies in_order(
            changes_in(#[trigger] fewer[i]),
        ) by {
            assert(in_order(changes_in(logs[i])));
        }
        lemma_followed(fewer, start);
        let (before, last) = followed(fewer, start);
        let now = changes_in(logs.last());
        assert(in_order(changes_in(logs[logs.len() - 1])));
        lemma_polled(logs.last(), last);
        let batch = above(now, last);
        if fewer.len() == 0 {
            assert(before + batch =~= batch);
        } else {
            let was = changes_in(fewer.last());
            assert(logs[logs.len() - 2].is_prefix_of(logs[logs.len() - 1]));
            assert(in_order(changes_in(logs[logs.len() - 2])));
            let more = now.skip(was.len() as int);
            assert(now =~= was + more);
            lemma_above_append(was, more, start);
            lemma_above_append(was, more, last);
            lemma_last_seen(was, start);
            lemma_above(was, start);
            assert forall|i: int| 0 <= i < more.len() implies ((#[trigger] more[i]).id > start
                <==> more[i].id > last) by {
                assert(more[i] == now[was.len() + i]);
                if before.len() > 0 {
                    assert(above(was, start).contains(before[before.len() - 1]));
                    assert(was.contains(before[before.len() - 1]));
                    let k = choose|k: int| 0 <= k < was.len() && was[k] == before.last();
                    assert(now[k] == was[k]);
                    assert(now[k].id < now[was.len() + i].id);
                }
            }
            lemma_same_above(more, start, last);
            assert(batch =~= above(more, last));
            assert(above(now, start) =~= before + batch);
        }
    }
}

/// One who follows the log receives, all batches together, exactly the changes after the start,
/// each once, in the order of their ids.
pub proof fn follower_misses_nothing(logs: Seq<Seq<LoggedChange>>, start: i64)
    requires
        grows(logs),
        logs.len() > 0,
    ensures
        followed(logs, start).0 == polled(logs.last(), start),
        in_order(followed(logs, start).0),
        forall|c: ChangeEventView| #[trigger]
            followed(logs, start).0.contains(c) <==> changes_in(logs.last()).contains(c) && c.id
                > start,
{
    assert(in_order(changes_in(logs[logs.len() - 1])));
    lemma_followed(logs, start);
    lemma_polled(logs.last(), start);
    poll_gives_what_was_logged(logs.last(), start);
}

// ---- as JSON -----------------------------------------------------------------------
/// A change as a JSON object.
pub open spec fn change_json(ev: ChangeEventView) -> JsonView {
    JsonView::Object(
        map![
            "id"@ => JsonView::Int(ev.id),
            "entity_type"@ => JsonView::Str(ev.entity_type),
            "entity_id"@ => JsonView::Int(ev.entity_id),
            "event"@ => JsonView::Str(ev.event),
            "repo_slug"@ => json::str_or_null(ev.repo_slug),
            "payload"@ => ev.payload,
            "occurred_at"@ => JsonView::Str(ev.occurred_at),
        ],
    )
}

impl ChangeEvent {
    /// The change as a JSON object.
    pub fn to_json(&self) -> (r: Json)
        ensures
            r.deep_view() == change_json(self.deep_view()),
    {
        let members: Vec<(String, Json)> = vec![
            ("id".to_owned(), Json::Int(self.id)),
            ("entity_type".to_owned(), Json::Str(self.entity_type.clone())),
            ("entity_id".to_owned(), Json::Int(self.entity_id)),
            ("event".to_owned(), Json::Str(self.event.clone())),
            ("repo_slug".to_owned(), opt_str(&self.repo_slug)),
            ("payload".to_owned(), self.payload.copy()),
            ("occurred_at".to_owned(), Json::Str(self.occurred_at.clone())),
        ];
        proof {
            json::lemma_members_in_order(members@);
            reveal_with_fuel(json::members_so_far, 8);
            assert(json::members_view(members@) =~= change_json(self.deep_view())->Object_0);
        }
        Json::Object(members)
    }

    /// The change as one line of JSON, without the end of the line. Where its payload is of
    /// ordinary depth and holds no number beyond `i64`, the line reads back as the change.
    pub fn to_line(&self) -> (r: String)
        ensures
            r@ == json::compact_text(change_json(self.deep_view())),
            !r@.contains('\n'),
            self.deep_view().payload.is_plain(126) ==> json::json_of_text(r@) == Some(
                change_json(self.deep_view()),
            ),
    {
        let value: Json = self.to_json();
        proof {
            if self.deep_view().payload.is_plain(126) {
                let m = change_json(self.deep_view())->Object_0;
                assert forall|k: Seq<char>| m.dom().contains(k) implies (#[trigger] m[k]).is_plain(
                    126,
                ) by {}
            }
        }
        to_text(&value)
    }
}

/// The change that a JSON object stands for. A change may be without a repository; every other
/// member is there and of its kind.
pub open spec fn change_of(v: JsonView) -> Option<ChangeEventView> {
    let slug = v.at("repo_slug"@);
    if v.at("id"@) is Int
        && v.at("entity_type"@) is Str
        && v.at("entity_id"@) is Int
        && v.at("event"@) is Str
        && (slug is Null || slug is Str)
        && v.get("payload"@) is Some
        && v.at("occurred_at"@) is Str
    {
        Some(
            ChangeEventView {
                id: v.at("id"@)->Int_0,
                entity_type: v.at("entity_type"@)->Str_0,
                entity_id: v.at("entity_id"@)->Int_0,
                event: v.at("event"@)->Str_0,
                repo_slug: slug.as_str(),
                payload: v.at("payload"@),
                occurred_at: v.at("occurred_at"@)->Str_0,
            },
        )
    } else {
        None
    }
}

impl ChangeEvent {
    /// Reads a change from a JSON object.
    pub fn from_json(v: &Json) -> (r: Option<ChangeEvent>)
        ensures
            r.deep_view() == change_of(v.deep_view()),
    {
        let slug: &Json = v.at("repo_slug");
        let repo_slug: Option<String> = slug.to_str();
        if repo_slug.is_none() && !slug.is_null() {
            return None;
        }
        let payload: Json = match v.get("payload") {
            Some(p) => p.copy(),
            None => {
                return None;
            },
        };
        match (
            v.at("id").as_i64(),
            v.at("entity_type").to_str(),
            v.at("entity_id").as_i64(),
            v.at("event").to_str(),
            v.at("occurred_at").to_str(),
        ) {
            (Some(id), Some(entity_type), Some(entity_id), Some(event), Some(occurred_at)) => Some(
                ChangeEvent { id, entity_type, entity_id, event, repo_slug, payload, occurred_at },
            ),
            _ => None,
        }
    }
}

/// A change, written as a JSON object and read again, is the same change.
pub proof fn change_reads_back(ev: ChangeEventView)
    ensures
        change_of(change_json(ev)) == Some(ev),
{
    reveal_strlit("id");
    reveal_strlit("entity_type");
    reveal_strlit("entity_id");
    reveal_strlit("event");
    reveal_strlit("repo_slug");
    reveal_strlit("payload");
    reveal_strlit("occurred_at");
    assert("id"@.len() == 2 && "entity_type"@.len() == 11 && "entity_id"@.len() == 9);
    assert("event"@.len() == 5 && "repo_slug"@.len() == 9 && "payload"@.len() == 7);
    assert("entity_type"@[0] != "occurred_at"@[0]);
    assert("entity_id"@[0] != "repo_slug"@[0]);
    let v = change_json(ev);
    assert(v.at("id"@) == JsonView::Int(ev.id));
    assert(v.at("entity_type"@) == JsonView::Str(ev.entity_type));
    assert(v.at("entity_id"@) == JsonView::Int(ev.entity_id));
    assert(v.at("event"@) == JsonView::Str(ev.event));
    assert(v.at("repo_slug"@) == json::str_or_null(ev.repo_slug));
    assert(v.get("payload"@) == Some(ev.payload));
    assert(v.at("occurred_at"@) == JsonView::Str(ev.occurred_at));
}

// ---- subscribers -------------------------------------------------------------------
/// A reader that asks for new changes again and again.
#[derive(Debug, Clone)]
pub struct Subscriber {
    db_path: String,
    interval: u128,
}

impl Subscriber {
    /// Where the database is.
    pub closed spec fn path(&self) -> Seq<char> {
        self.db_path@
    }

    /// How many nanoseconds pass between two questions.
    pub closed spec fn nanos(&self) -> u128 {
        self.interval
    }

    /// A reader of the database at a path, that asks twice a second.
    pub fn new(db_path: &str) -> (r: Subscriber)
        ensures
            r.path() == db_path@,
            r.nanos() == 500_000_000,
    {
        Subscriber { db_path: db_path.to_owned(), interval: 500_000_000 }
    }

    /// The reader with another time between two questions, in nanoseconds.
    pub fn interval(self, nanos: u128) -> (r: Subscriber)
        ensures
            r.path() == self.path(),
            r.nanos() == nanos,
    {
        Subscriber { interval: nanos, ..self }
    }

    /// Where the database is.
    pub fn db_path(&self) -> (r: &str)
        ensures
            r@ == self.path(),
    {
        self.db_path.as_str()
    }

    /// How many nanoseconds pass between two questions.
    pub fn interval_nanos(&self) -> (r: u128)
        ensures
            r == self.nanos(),
    {
        self.interval
    }
}

} // verus!
