//! How long a sync waits when the points of a pool run out.

use vstd::prelude::*;

use crate::sql::{get_opt_integer, Row, SqlValue, SqlView, Statement, StatementView};
use crate::sql;
use crate::sync::step::Pool;

verus! {

/// Gives what was left of a pool, and when it is filled again, as the latest call reported.
pub const SELECT_LEFT: &'static str =
    "SELECT rate_remaining, rate_reset FROM call_log
         WHERE api_type = ?1 AND rate_remaining IS NOT NULL ORDER BY id DESC LIMIT 1";

/// The name of a pool.
pub open spec fn pool_name(pool: Pool) -> Seq<char> {
    match pool {
        Pool::Rest => "rest"@,
        Pool::Graphql => "graphql"@,
    }
}

/// The query for how many points are left of a pool.
pub open spec fn left_query(pool: Pool) -> StatementView {
    StatementView { sql: SELECT_LEFT@, params: seq![SqlView::Text(pool_name(pool))] }
}

/// The query for what is left of a pool.
pub fn select_left(pool: Pool) -> (r: Statement)
    ensures
        r.deep_view() == left_query(pool),
        r.deep_view() == (StatementView {
            sql: SELECT_LEFT@,
            params: seq![SqlView::Text(pool_name(pool))],
        }),
{
    let name: &str = match pool {
        Pool::Rest => "rest",
        Pool::Graphql => "graphql",
    };
    let params: Vec<SqlValue> = vec![SqlValue::text(name)];
    assert(params.deep_view() =~= seq![SqlView::Text(pool_name(pool))]);
    Statement { sql: SELECT_LEFT.to_owned(), params }
}

/// What is left of a pool, and when it is filled again.
#[derive(Clone, Copy, PartialEq, Eq, Structural, Debug)]
pub struct Left {
    pub remaining: Option<i64>,
    pub reset: Option<i64>,
}

/// What rows say is left of a pool. Where no call has reported it, nothing is known.
pub open spec fn left_in(rows: Seq<Seq<SqlView>>) -> Left {
    if rows.len() == 0 {
        Left { remaining: None, reset: None }
    } else {
        Left {
            remaining: match sql::opt_integer_in(rows[0], 0) {
                Some(n) => n,
                None => None,
            },
            reset: match sql::opt_integer_in(rows[0], 1) {
                Some(n) => n,
                None => None,
            },
        }
    }
}

/// Reads what is left of a pool.
pub fn read_left(rows: &Vec<Row>) -> (r: Left)
    ensures
        r == left_in(rows.deep_view()),
{
    if rows.len() == 0 {
        return Left { remaining: None, reset: None };
    }
    let remaining: Option<i64> = match get_opt_integer(&rows[0], 0) {
        Ok(n) => n,
        Err(_) => None,
    };
    let reset: Option<i64> = match get_opt_integer(&rows[0], 1) {
        Ok(n) => n,
        Err(_) => None,
    };
    Left { remaining, reset }
}

/// How many seconds there are until a pool is filled again.
pub open spec fn until_reset(reset: i64, now: i64) -> int {
    if reset > now {
        reset - now
    } else {
        0
    }
}

/// How many seconds a sync waits: none as long as `warn` points are left, all of those until
/// the pool is filled again when no more than `stop` are left, and a share of them in between,
/// the greater the fewer points are left.
pub open spec fn wait_for(left: Left, warn: i64, stop: i64, now: i64) -> int {
    match (left.remaining, left.reset) {
        (Some(remaining), Some(reset)) => if remaining >= warn {
            0
        } else if remaining <= stop {
            until_reset(reset, now)
        } else {
            until_reset(reset, now) * (warn - remaining) / (warn - stop)
        },
        _ => 0,
    }
}

/// How many seconds a sync waits.
pub fn wait_seconds(left: Left, warn: i64, stop: i64, now: i64) -> (r: u64)
    ensures
        r == wait_for(left, warn, stop, now),
{
    match (left.remaining, left.reset) {
        (Some(remaining), Some(reset)) => {
            if remaining >= warn || reset <= now {
                proof {
                    if stop < remaining < warn {
                        assert(0 * (warn - remaining) / (warn - stop) == 0) by (nonlinear_arith)
                            requires
                                warn - stop > 0,
                        ;
                    }
                }
                return 0;
            }
            let whole: i128 = reset as i128 - now as i128;
            if remaining <= stop {
                return whole as u64;
            }
            let missing: i128 = warn as i128 - remaining as i128;
            let range: i128 = warn as i128 - stop as i128;
            proof {
                lemma_share(whole as int, missing as int, range as int);
                assert(whole * missing <= 0xffff_ffff_ffff_ffff * 0xffff_ffff_ffff_ffff)
                    by (nonlinear_arith)
                    requires
                        0 <= whole <= 0xffff_ffff_ffff_ffff,
                        0 <= missing <= 0xffff_ffff_ffff_ffff,
                ;
            }
            (whole as u128 * missing as u128 / range as u128) as u64
        },
        _ => 0,
    }
}

proof fn lemma_share(whole: int, missing: int, range: int)
    requires
        0 <= whole,
        0 <= missing <= range,
        0 < range,
    ensures
        0 <= whole * missing / range <= whole,
{
    assert(0 <= whole * missing <= whole * range) by (nonlinear_arith)
        requires
            0 <= whole,
            0 <= missing <= range,
    ;
    vstd::arithmetic::div_mod::lemma_div_is_ordered(0, whole * missing, range);
    vstd::arithmetic::div_mod::lemma_div_is_ordered(whole * missing, whole * range, range);
    vstd::arithmetic::div_mod::lemma_div_multiples_vanish(whole, range);
    vstd::arithmetic::mul::lemma_mul_is_commutative(whole, range);
}

/// The fewer points are left, the longer a sync waits, and it never waits longer than until
/// the pool is filled again.
pub proof fn fewer_points_longer_wait(
    fewer: i64,
    more: i64,
    reset: i64,
    warn: i64,
    stop: i64,
    now: i64,
)
    requires
        fewer <= more,
    ensures
        wait_for(Left { remaining: Some(more), reset: Some(reset) }, warn, stop, now) <= wait_for(
            Left { remaining: Some(fewer), reset: Some(reset) },
            warn,
            stop,
            now,
        ) <= until_reset(reset, now),
{
    let whole = until_reset(reset, now);
    if stop < warn {
        if stop < more < warn {
            lemma_share(whole, warn - more, warn - stop);
        }
        if stop < fewer < warn {
            lemma_share(whole, warn - fewer, warn - stop);
            if more < warn {
                assert(whole * (warn - more) <= whole * (warn - fewer)) by (nonlinear_arith)
                    requires
                        0 <= whole,
                        warn - more <= warn - fewer,
                ;
                vstd::arithmetic::div_mod::lemma_div_is_ordered(
                    whole * (warn - more),
                    whole * (warn - fewer),
                    warn - stop,
                );
            }
        }
    }
}

/// A sync does not wait as long as there are points enough, and waits until the pool is filled
/// again when they have run out.
pub proof fn wait_ends_with_the_window(remaining: i64, reset: i64, warn: i64, stop: i64, now: i64)
    requires
        stop < warn,
    ensures
        remaining >= warn ==> wait_for(
            Left { remaining: Some(remaining), reset: Some(reset) },
            warn,
            stop,
            now,
        ) == 0,
        remaining <= stop ==> wait_for(
            Left { remaining: Some(remaining), reset: Some(reset) },
            warn,
            stop,
            now,
        ) == until_reset(reset, now),
{
}

} // verus!
