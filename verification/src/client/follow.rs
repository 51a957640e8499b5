//! Following the log of changes: how a subscriber goes on, round by round, until something
//! fails.

use vstd::prelude::*;

use crate::client::query::Client;
use crate::client::tail;
use crate::client::tail::{
    changes_from, ChangeEvent, ChangeEventView, LoggedChange, Subscriber, Tail, SELECT_LATEST,
};
use crate::sql::{Row, SqlView, Statement, StatementView};
use crate::{report, sql};

verus! {

// ---- the machine -------------------------------------------------------------------
/// Why a subscriber stopped.
#[derive(Clone, Copy, PartialEq, Eq, Structural, Debug)]
pub enum Reason {
    /// The log could not be asked.
    Query,
    /// A row of the log is no change: how many rows before it are.
    Unreadable { row: usize },
    /// The handler failed.
    Handler,
}

/// What a subscriber waits for.
#[derive(Clone, Copy, PartialEq, Eq, Structural, Debug)]
pub enum Stage {
    /// For the id of the change that was logged last.
    Starting,
    /// For the time between two questions to pass.
    Resting,
    /// For the changes that are new.
    Asking,
    /// For the handler.
    Handling,
    /// For nothing.
    Stopped(Reason),
}

/// What a subscriber asks for. There is no end but a failure.
pub enum FollowAction {
    /// To run a query and hand back its rows.
    Query(Statement),
    /// To let so many nanoseconds pass.
    Sleep(u128),
    /// To hand changes to the handler.
    Hand(Vec<ChangeEvent>),
    /// To do nothing more, and tell the failure.
    Stop(Reason),
}

/// What such an action is.
#[verifier::ext_equal]
pub enum FollowActionView {
    Query(StatementView),
    Sleep(u128),
    Hand(Seq<ChangeEventView>),
    Stop(Reason),
}

impl DeepView for FollowAction {
    type V = FollowActionView;

    open spec fn deep_view(&self) -> FollowActionView {
        match self {
            FollowAction::Query(s) => FollowActionView::Query(s.deep_view()),
            FollowAction::Sleep(nanos) => FollowActionView::Sleep(*nanos),
            FollowAction::Hand(events) => FollowActionView::Hand(events.deep_view()),
            FollowAction::Stop(reason) => FollowActionView::Stop(*reason),
        }
    }
}

/// What came of an action.
pub enum Outcome {
    /// The rows of a query.
    Rows(Vec<Row>),
    /// It was done.
    Done,
    /// It failed.
    Failed,
}

/// What an outcome is.
pub enum OutcomeView {
    Rows(Seq<Seq<SqlView>>),
    Done,
    Failed,
}

impl DeepView for Outcome {
    type V = OutcomeView;

    open spec fn deep_view(&self) -> OutcomeView {
        match self {
            Outcome::Rows(rows) => OutcomeView::Rows(rows.deep_view()),
            Outcome::Done => OutcomeView::Done,
            Outcome::Failed => OutcomeView::Failed,
        }
    }
}

/// A subscriber at work.
#[derive(Clone, Copy, Debug)]
pub struct Follow {
    nanos: u128,
    tail: Tail,
    stage: Stage,
}

/// What a subscriber at work is: how many nanoseconds it rests, the id of the change that it
/// received last, and what it waits for.
pub struct FollowView {
    pub nanos: u128,
    pub last: i64,
    pub stage: Stage,
}

impl DeepView for Follow {
    type V = FollowView;

    closed spec fn deep_view(&self) -> FollowView {
        FollowView { nanos: self.nanos, last: self.tail.last(), stage: self.stage }
    }
}

impl FollowView {
    /// The subscriber, resting.
    pub open spec fn rest(self) -> (FollowView, FollowActionView) {
        (FollowView { stage: Stage::Resting, ..self }, FollowActionView::Sleep(self.nanos))
    }

    /// The subscriber, stopped.
    pub open spec fn stop(self, reason: Reason) -> (FollowView, FollowActionView) {
        (FollowView { stage: Stage::Stopped(reason), ..self }, FollowActionView::Stop(reason))
    }

    /// How the subscriber goes on. Where the log cannot tell what was logged last, everything in
    /// it is new.
    pub open spec fn next(self, outcome: OutcomeView) -> (FollowView, FollowActionView) {
        match self.stage {
            Stage::Starting => FollowView {
                last: match outcome {
                    OutcomeView::Rows(rows) => report::count_in(rows),
                    _ => 0,
                },
                ..self
            }.rest(),
            Stage::Resting => (
                FollowView { stage: Stage::Asking, ..self },
                FollowActionView::Query(tail::changes_query(self.last)),
            ),
            Stage::Asking => match outcome {
                OutcomeView::Rows(rows) => {
                    let events = sql::leading::<ChangeEvent>(rows);
                    if events.len() < rows.len() {
                        self.stop(Reason::Unreadable { row: events.len() as usize })
                    } else if events.len() == 0 {
                        self.rest()
                    } else {
                        (
                            FollowView {
                                last: tail::last_seen(events, self.last),
                                stage: Stage::Handling,
                                ..self
                            },
                            FollowActionView::Hand(events),
                        )
                    }
                },
                _ => self.stop(Reason::Query),
            },
            Stage::Handling => match outcome {
                OutcomeView::Done => self.rest(),
                _ => self.stop(Reason::Handler),
            },
            Stage::Stopped(reason) => self.stop(reason),
        }
    }
}

impl Subscriber {
    /// The subscriber at work, and what it asks for first.
    pub fn follow(&self) -> (r: (Follow, FollowAction))
        ensures
            r.0.deep_view() == (FollowView {
                nanos: self.nanos(),
                last: 0,
                stage: Stage::Starting,
            }),
            r.1.deep_view() == FollowActionView::Query(
                StatementView { sql: SELECT_LATEST@, params: Seq::empty() },
            ),
    {
        let follow: Follow = Follow {
            nanos: self.interval_nanos(),
            tail: Tail::after(0),
            stage: Stage::Starting,
        };
        (follow, FollowAction::Query(Client.latest_change_id()))
    }
}

impl Follow {
    fn rest(&mut self) -> (r: FollowAction)
        ensures
            (final(self).deep_view(), r.deep_view()) == old(self).deep_view().rest(),
    {
        self.stage = Stage::Resting;
        FollowAction::Sleep(self.nanos)
    }

    fn stop(&mut self, reason: Reason) -> (r: FollowAction)
        ensures
            (final(self).deep_view(), r.deep_view()) == old(self).deep_view().stop(reason),
    {
        self.stage = Stage::Stopped(reason);
        FollowAction::Stop(reason)
    }

    /// Takes in what came of the last action, and says what comes next.
    pub fn step(&mut self, outcome: Outcome) -> (r: FollowAction)
        ensures
            (final(self).deep_view(), r.deep_view()) == old(self).deep_view().next(
                outcome.deep_view(),
            ),
    {
        match self.stage {
            Stage::Starting => {
                self.tail = match &outcome {
                    Outcome::Rows(rows) => Tail::from_now(rows),
                    _ => Tail::after(0),
                };
                self.rest()
            },
            Stage::Resting => {
                self.stage = Stage::Asking;
                FollowAction::Query(self.tail.query())
            },
            Stage::Asking => match outcome {
                Outcome::Rows(rows) => match changes_from(&rows) {
                    Ok(events) => match self.tail.take(events) {
                        Some(new) => {
                            self.stage = Stage::Handling;
                            FollowAction::Hand(new)
                        },
                        None => self.rest(),
                    },
                    Err(e) => self.stop(Reason::Unreadable { row: e.row }),
                },
                _ => self.stop(Reason::Query),
            },
            Stage::Handling => match outcome {
                Outcome::Done => self.rest(),
                _ => self.stop(Reason::Handler),
            },
            Stage::Stopped(reason) => self.stop(reason),
        }
    }
}

// ---- what holds of it --------------------------------------------------------------
/// A subscriber goes on until something fails, and only until then: it stops where the log cannot
/// be asked or read and where the handler fails, at once, and it does nothing more after that. It
/// hands changes to the handler only where there are any.
pub proof fn subscriber_stops_at_the_first_failure(f: FollowView, outcome: OutcomeView)
    ensures
        ({
            let (after, action) = f.next(outcome);
            &&& action matches FollowActionView::Stop(reason) ==> after.stage == Stage::Stopped(
                reason,
            ) && forall|later: OutcomeView| #[trigger]
                after.next(later) == (after, FollowActionView::Stop(reason))
            &&& action is Stop <==> match f.stage {
                Stage::Starting | Stage::Resting => false,
                Stage::Asking => match outcome {
                    OutcomeView::Rows(rows) => sql::leading::<ChangeEvent>(rows).len() < rows.len(),
                    _ => true,
                },
                Stage::Handling => outcome !is Done,
                Stage::Stopped(_) => true,
            }
            &&& f.stage is Handling && outcome is Failed ==> action == FollowActionView::Stop(
                Reason::Handler,
            )
            &&& action matches FollowActionView::Hand(events) ==> events.len() > 0
        }),
{
}

/// One round of a subscriber that rests: it asks the log as it is then, and hands on what is new,
/// if anything is, to a handler that succeeds or does not. Gives what was handed on.
pub open spec fn round(f: FollowView, log: Seq<LoggedChange>, fine: bool) -> (
    FollowView,
    Seq<Seq<ChangeEventView>>,
) {
    let (asking, question) = f.next(OutcomeView::Done);
    match question {
        FollowActionView::Query(s) => {
            let (told, action) = asking.next(OutcomeView::Rows(tail::rows_found(log, s)));
            match action {
                FollowActionView::Hand(events) => {
                    let outcome = if fine {
                        OutcomeView::Done
                    } else {
                        OutcomeView::Failed
                    };
                    (told.next(outcome).0, seq![events])
                },
                _ => (told, Seq::empty()),
            }
        },
        _ => (asking, Seq::empty()),
    }
}

/// Several rounds, one after the other. Gives the batches that were handed on.
pub open spec fn rounds(f: FollowView, logs: Seq<Seq<LoggedChange>>, fine: Seq<bool>) -> (
    FollowView,
    Seq<Seq<ChangeEventView>>,
)
    decreases logs.len(),
{
    if logs.len() == 0 {
        (f, Seq::empty())
    } else {
        let (so_far, batches) = rounds(f, logs.drop_last(), fine);
        let (after, more) = round(so_far, logs.last(), fine[logs.len() - 1]);
        (after, batches + more)
    }
}

/// Batches, joined.
pub open spec fn joined(batches: Seq<Seq<ChangeEventView>>) -> Seq<ChangeEventView>
    decreases batches.len(),
{
    if batches.len() == 0 {
        Seq::empty()
    } else {
        joined(batches.drop_last()) + batches.last()
    }
}

proof fn lemma_round(f: FollowView, log: Seq<LoggedChange>, fine: bool)
    ensures
        f.stage is Stopped ==> round(f, log, fine) == (f, Seq::<Seq<ChangeEventView>>::empty()),
        f.stage is Resting ==> ({
            let batch = tail::polled(log, f.last);
            let stage = if batch.len() == 0 || fine {
                Stage::Resting
            } else {
                Stage::Stopped(Reason::Handler)
            };
            round(f, log, fine) == (
                FollowView { last: tail::last_seen(batch, f.last), stage, ..f },
                if batch.len() == 0 {
                    Seq::empty()
                } else {
                    seq![batch]
                },
            )
        }),
{
    tail::lemma_polled(log, f.last);
}

proof fn lemma_rounds(f: FollowView, logs: Seq<Seq<LoggedChange>>, fine: Seq<bool>)
    requires
        f.stage is Resting,
        fine.len() >= logs.len(),
    ensures
        ({
            let (after, batches) = rounds(f, logs, fine);
            &&& forall|i: int| 0 <= i < batches.len() ==> (#[trigger] batches[i]).len() > 0
            &&& after.stage is Resting ==> after == (FollowView {
                last: tail::followed(logs, f.last).1,
                ..f
            }) && joined(batches) == tail::followed(logs, f.last).0
            &&& after.stage !is Resting ==> after.stage == Stage::Stopped(Reason::Handler)
                && exists|k: int|
                0 <= k < logs.len() && !(#[trigger] fine[k]) && rounds(f, logs.take(k + 1), fine)
                    == (after, batches) && rounds(f, logs.take(k), fine).0.stage is Resting
                    && joined(batches) == tail::followed(logs.take(k + 1), f.last).0
        }),
    decreases logs.len(),
{
    if logs.len() == 0 {
        assert(joined(Seq::empty()) =~= tail::followed(logs, f.last).0);
    } else {
        let fewer = logs.drop_last();
        let n = logs.len() as int;
        lemma_rounds(f, fewer, fine);
        let (so_far, before) = rounds(f, fewer, fine);
        let (after, more) = round(so_far, logs.last(), fine[n - 1]);
        let batches = before + more;
        lemma_round(so_far, logs.last(), fine[n - 1]);
        assert(logs.take(n) =~= logs);
        assert(logs.take(n - 1) =~= fewer);
        if so_far.stage is Resting {
            let (was, last) = tail::followed(fewer, f.last);
            let batch = tail::polled(logs.last(), last);
            if batch.len() == 0 {
                assert(batches =~= before);
                assert(was + batch =~= was);
            } else {
                assert(batches =~= before.push(batch));
                assert(batches.drop_last() =~= before);
            }
            assert(joined(batches) == tail::followed(logs, f.last).0);
            if after.stage !is Resting {
                assert(!fine[n - 1]);
            }
        } else {
            assert(batches =~= before);
            let k = choose|k: int|
                0 <= k < fewer.len() && !(#[trigger] fine[k]) && rounds(
                    f,
                    fewer.take(k + 1),
                    fine,
                ) == (so_far, before) && rounds(f, fewer.take(k), fine).0.stage is Resting
                    && joined(before) == tail::followed(fewer.take(k + 1), f.last).0;
            assert(logs.take(k + 1) =~= fewer.take(k + 1));
            assert(logs.take(k) =~= fewer.take(k));
            assert(!fine[k]);
        }
    }
}

/// The handler is called only with batches that hold something. While it succeeds, the batches,
/// joined, are exactly the changes after the start that the log holds by then, each once, in the
/// order of their ids, and the subscriber goes on.
pub proof fn handler_gets_every_change_once(
    f: FollowView,
    logs: Seq<Seq<LoggedChange>>,
    fine: Seq<bool>,
)
    requires
        f.stage is Resting,
        tail::grows(logs),
        logs.len() > 0,
        fine.len() == logs.len(),
        forall|i: int| 0 <= i < fine.len() ==> #[trigger] fine[i],
    ensures
        ({
            let (after, batches) = rounds(f, logs, fine);
            &&& after.stage is Resting
            &&& forall|i: int| 0 <= i < batches.len() ==> (#[trigger] batches[i]).len() > 0
            &&& joined(batches) == tail::polled(logs.last(), f.last)
            &&& tail::in_order(joined(batches))
            &&& forall|c: ChangeEventView| #[trigger]
                joined(batches).contains(c) <==> tail::changes_in(logs.last()).contains(c) && c.id
                    > f.last
        }),
{
    lemma_rounds(f, logs, fine);
    tail::follower_misses_nothing(logs, f.last);
}

/// The rows that the query for the latest change gives: one, with the greatest id in the log, or
/// zero.
pub open spec fn latest_found(log: Seq<LoggedChange>) -> Seq<Seq<SqlView>> {
    let id: i64 = if log.len() == 0 {
        0
    } else {
        log.last().id
    };
    seq![seq![SqlView::Integer(id)]]
}

/// A subscriber receives only what is logged after it started: none of the changes that the log
/// holds then is above the point from which on it asks, and it begins by resting.
pub proof fn subscriber_starts_after_what_is_logged(f: FollowView, log: Seq<LoggedChange>)
    requires
        f.stage is Starting,
        tail::in_order(tail::changes_in(log)),
    ensures
        ({
            let (after, action) = f.next(OutcomeView::Rows(latest_found(log)));
            &&& after.stage is Resting
            &&& action == FollowActionView::Sleep(f.nanos)
            &&& tail::polled(log, after.last) == Seq::<ChangeEventView>::empty()
        }),
{
    let after = f.next(OutcomeView::Rows(latest_found(log))).0;
    let all = tail::changes_in(log);
    let rows = latest_found(log);
    assert(rows[0][0] == SqlView::Integer(after.last));
    assert forall|i: int| 0 <= i < all.len() implies (#[trigger] all[i]).id <= after.last by {
        assert(all[all.len() - 1] == log.last().change());
        if i < all.len() - 1 {
            assert(all[i].id < all[all.len() - 1].id);
        }
    }
    tail::lemma_polled(log, after.last);
    tail::lemma_none_above(all, after.last);
}

/// Once the handler has failed it is not called again: what it was called with is what it was
/// called with up to then, and that is, all batches joined, exactly the changes after the start
/// that the log held at that time.
pub proof fn handler_is_not_called_after_it_failed(
    f: FollowView,
    logs: Seq<Seq<LoggedChange>>,
    fine: Seq<bool>,
)
    requires
        f.stage is Resting,
        tail::grows(logs),
        fine.len() == logs.len(),
        rounds(f, logs, fine).0.stage !is Resting,
    ensures
        rounds(f, logs, fine).0.stage == Stage::Stopped(Reason::Handler),
        exists|k: int|
            0 <= k < logs.len() && !(#[trigger] fine[k]) && rounds(f, logs.take(k + 1), fine)
                == rounds(f, logs, fine) && rounds(f, logs.take(k), fine).0.stage is Resting
                && joined(rounds(f, logs, fine).1) == tail::polled(logs[k], f.last),
{
    lemma_rounds(f, logs, fine);
    let k = choose|k: int|
        0 <= k < logs.len() && !(#[trigger] fine[k]) && rounds(f, logs.take(k + 1), fine) == rounds(
            f,
            logs,
            fine,
        ) && rounds(f, logs.take(k), fine).0.stage is Resting && joined(rounds(f, logs, fine).1)
            == tail::followed(logs.take(k + 1), f.last).0;
    let some = logs.take(k + 1);
    assert forall|i: int| 0 <= i < some.len() implies tail::in_order(
        tail::changes_in(#[trigger] some[i]),
    ) by {
        assert(tail::in_order(tail::changes_in(logs[i])));
    }
    assert forall|i: int, m: int|
        0 <= i <= m < some.len() implies (#[trigger] some[i]).is_prefix_of(#[trigger] some[m]) by {
        assert(logs[i].is_prefix_of(logs[m]));
    }
    tail::follower_misses_nothing(some, f.last);
    assert(some.last() == logs[k]);
    assert(!fine[k]);
}

} // verus!
