//! How GitHub is asked, how its answers are read, and what is recorded of the calls.

use vstd::prelude::*;

use crate::db::{CallLogView, ChangeEvent, PollStateView};
use crate::gh;
use crate::gh::{CallView, GhErrorView, GhRequestView, GhResponseView, ResponseError};
use crate::json::JsonView;
use crate::laws::values;
use crate::sql::{SqlView, StatementView};
use crate::sync::step::Pool;
use crate::sync::throttle;
use crate::sync::throttle::Left;
use crate::time::Moment;
use crate::{db, json, number, sql, text, time};

verus! {

// ---- requests ----------------------------------------------------------------------
/// A request is sent as a command: its method where it is not a plain question, all pages where
/// they are wanted, each of its headers, its body where it has one, and last the endpoint.
pub proof fn request_is_sent_as_a_command(req: GhRequestView)
    ensures
        gh::request_args(req) == seq!["api"@, "--include"@] + (if req.method == "GET"@ {
            Seq::empty()
        } else {
            seq!["-X"@, req.method]
        }) + (if req.paginate {
            seq!["--paginate"@]
        } else {
            Seq::empty()
        }) + gh::header_args(req.headers) + (if req.body is Some {
            seq!["--input"@, "-"@]
        } else {
            Seq::empty()
        }) + seq![req.endpoint],
{
    assert(gh::request_args(req) =~= seq!["api"@, "--include"@] + (if req.method == "GET"@ {
        Seq::empty()
    } else {
        seq!["-X"@, req.method]
    }) + (if req.paginate {
        seq!["--paginate"@]
    } else {
        Seq::empty()
    }) + gh::header_args(req.headers) + (if req.body is Some {
        seq!["--input"@, "-"@]
    } else {
        Seq::empty()
    }) + seq![req.endpoint]);
}

/// Every header is sent, in the order in which they were given: its name, a colon, a blank, and
/// its value.
pub proof fn every_header_is_sent(
    headers: Seq<(Seq<char>, Seq<char>)>,
    name: Seq<char>,
    value: Seq<char>,
)
    ensures
        gh::header_args(Seq::empty()) == Seq::<Seq<char>>::empty(),
        gh::header_args(headers.push((name, value))) == gh::header_args(headers) + seq![
            "-H"@,
            name + ": "@ + value,
        ],
{
    assert(headers.push((name, value)).drop_last() =~= headers);
    assert(gh::header_args(headers.push((name, value))) =~= gh::header_args(headers) + seq![
        "-H"@,
        name + ": "@ + value,
    ]);
}

/// A plain question is a question for what is there: without headers and a body. All pages are
/// asked for with the tag that is known.
pub proof fn pages_are_asked_for_with_the_known_tag(endpoint: Seq<char>, etag: Option<Seq<char>>)
    ensures
        gh::pages_request(endpoint, etag) == (GhRequestView {
            endpoint,
            method: "GET"@,
            headers: match etag {
                Some(tag) => seq![("If-None-Match"@, tag)],
                None => Seq::empty(),
            },
            body: None,
            paginate: true,
        }),
        GhRequestView::get(endpoint) == (GhRequestView {
            endpoint,
            method: "GET"@,
            headers: Seq::empty(),
            body: None,
            paginate: false,
        }),
{
    if etag is Some {
        assert(Seq::empty().push(("If-None-Match"@, etag->Some_0)) =~= seq![
            ("If-None-Match"@, etag->Some_0),
        ]);
    }
}

/// A query is sent as it is.
pub proof fn query_is_sent_as_it_is(query: Seq<char>)
    ensures
        gh::graphql_args(query) == seq![
            "api"@,
            "graphql"@,
            "--include"@,
            "-f"@,
            "query="@ + query,
        ],
{
}

// ---- answers -----------------------------------------------------------------------
/// A phrase is found at the first place where it stands, and not at all only where it stands
/// nowhere; looked for from the end, it is found at the last place.
pub proof fn phrase_is_found_where_it_stands(s: Seq<char>, pat: Seq<char>, k: int)
    requires
        0 <= k,
        k + pat.len() <= s.len(),
        s.subrange(k, k + pat.len()) == pat,
    ensures
        text::found(s, pat) matches Some(i) && 0 <= i <= k && s.subrange(i, i + pat.len()) == pat,
        text::rfound(s, pat) matches Some(i) && k <= i && i + pat.len() <= s.len() && s.subrange(
            i,
            i + pat.len(),
        ) == pat,
{
    lemma_found(s, pat, 0, k);
    lemma_rfound(s, pat, s.len() as int, k);
}

proof fn lemma_found(s: Seq<char>, pat: Seq<char>, i: int, k: int)
    requires
        0 <= i <= k,
        k + pat.len() <= s.len(),
        s.subrange(k, k + pat.len()) == pat,
    ensures
        text::found_from(s, pat, i) matches Some(j) && i <= j <= k && s.subrange(j, j + pat.len())
            == pat,
    decreases k - i,
{
    if s.subrange(i, i + pat.len()) != pat {
        lemma_found(s, pat, i + 1, k);
    }
}

proof fn lemma_rfound(s: Seq<char>, pat: Seq<char>, i: int, k: int)
    requires
        0 <= k <= i,
        k + pat.len() <= s.len(),
        s.subrange(k, k + pat.len()) == pat,
    ensures
        text::rfound_from(s, pat, i) matches Some(j) && k <= j <= i && j + pat.len() <= s.len()
            && s.subrange(j, j + pat.len()) == pat,
    decreases i - k,
{
    if !(i + pat.len() <= s.len() && s.subrange(i, i + pat.len()) == pat) {
        lemma_rfound(s, pat, i - 1, k);
    }
}

proof fn lemma_found_is_there(s: Seq<char>, pat: Seq<char>, i: int)
    requires
        0 <= i,
    ensures
        text::found_from(s, pat, i) matches Some(j) ==> i <= j && j + pat.len() <= s.len()
            && s.subrange(j, j + pat.len()) == pat,
    decreases s.len() + 1 - i,
{
    if i + pat.len() <= s.len() && s.subrange(i, i + pat.len()) != pat {
        lemma_found_is_there(s, pat, i + 1);
    }
}

/// The head of an answer ends at the first empty line, and what follows is its body: head, empty
/// line and body make the answer.
pub proof fn head_ends_at_the_empty_line(answer: Seq<char>)
    ensures
        match gh::head_and_body(answer) {
            Some((head, body)) => answer == head + "\r\n\r\n"@ + body || answer == head + "\n\n"@
                + body,
            None => forall|k: int|
                0 <= k && k + 4 <= answer.len() ==> #[trigger] answer.subrange(k, k + 4)
                    != "\r\n\r\n"@,
        },
{
    reveal_strlit("\r\n\r\n");
    reveal_strlit("\n\n");
    let a = "\r\n\r\n"@;
    let b = "\n\n"@;
    lemma_found_is_there(answer, a, 0);
    lemma_found_is_there(answer, b, 0);
    match text::found(answer, a) {
        Some(i) => {
            assert(answer =~= answer.take(i) + answer.subrange(i, i + 4) + answer.skip(i + 4));
        },
        None => {
            match text::found(answer, b) {
                Some(i) => {
                    assert(answer =~= answer.take(i) + answer.subrange(i, i + 2) + answer.skip(
                        i + 2,
                    ));
                },
                None => {},
            }
            assert forall|k: int| 0 <= k && k + 4 <= answer.len() implies #[trigger] answer.subrange(
                k,
                k + 4,
            ) != a by {
                if answer.subrange(k, k + 4) == a {
                    lemma_found(answer, a, 0, k);
                }
            }
        },
    }
}

/// A line of the head gives the header of its name, written small, what stands behind the first
/// colon, without the blanks around it. A line without a colon gives none, and of two lines with
/// one name the later counts.
pub proof fn headers_are_read_line_by_line(
    lines: Seq<Seq<char>>,
    name: Seq<char>,
    value: Seq<char>,
    other: Seq<char>,
)
    requires
        !name.contains(':'),
        !other.contains(':'),
    ensures
        gh::headers_of(Seq::empty()) == Map::<Seq<char>, Seq<char>>::empty(),
        gh::headers_of(lines.push(name.push(':') + value)) == gh::headers_of(lines).insert(
            text::unicode_lowercase(text::trimmed(name)),
            text::trimmed(value),
        ),
        gh::headers_of(lines.push(other)) == gh::headers_of(lines),
{
    let line = name.push(':') + value;
    values::text_is_cut_at_the_first_place(line, ':', name, value);
    values::text_is_cut_at_the_first_place(other, ':', name, value);
    assert(lines.push(line).drop_last() =~= lines);
    assert(lines.push(other).drop_last() =~= lines);
}

/// The status is the number that is the second word of the first line.
pub proof fn status_is_the_second_word(version: Seq<char>, status: u16, rest: Seq<char>)
    requires
        version.len() > 0,
        forall|i: int| 0 <= i < version.len() ==> !text::is_space(#[trigger] version[i]),
        rest.len() == 0 || rest[0] == ' ',
    ensures
        gh::status_of(version + seq![' '] + number::int_text(status as int) + rest) == Ok::<
            u16,
            ResponseError,
        >(status),
{
    let digits = number::int_text(status as int);
    let line = version + seq![' '] + digits + rest;
    number::number_text_reads_back(0, status as u64);
    lemma_digits(status as nat);
    assert(number::int_text(status as int) == number::nat_text(status as nat));
    assert(line =~= version + (seq![' '] + digits + rest));
    lemma_word(line, version, seq![' '] + digits + rest);
    let after = seq![' '] + digits + rest;
    let next = digits + rest;
    assert(line.skip(version.len() as int) =~= after);
    assert(after.skip(1) =~= next);
    assert(text::trimmed_start(after) == text::trimmed_start(next));
    assert(!text::is_space(next[0]));
    lemma_word(next, digits, rest);
    assert(text::words_of(after) == text::words_of(next)) by {
        assert(text::trimmed_start(next) == next);
    }
    let words = text::words_of(line);
    assert(words[0] == version);
    assert(words[1] == text::words_of(after)[0]);
    assert(words[1] == digits);
    assert(number::unsigned_of(digits, 65535) == Some(status as int)) by {
        assert(number::is_digit(digits[0]));
    }
}

proof fn lemma_digits(n: nat)
    ensures
        number::nat_text(n).len() > 0,
        forall|i: int|
            0 <= i < number::nat_text(n).len() ==> number::is_digit(
                #[trigger] number::nat_text(n)[i],
            ) && !text::is_space(number::nat_text(n)[i]),
    decreases n,
{
    if n >= 10 {
        lemma_digits(n / 10);
    }
}

proof fn lemma_word(s: Seq<char>, word: Seq<char>, rest: Seq<char>)
    requires
        s == word + rest,
        word.len() > 0,
        forall|i: int| 0 <= i < word.len() ==> !text::is_space(#[trigger] word[i]),
        rest.len() == 0 || text::is_space(rest[0]),
    ensures
        text::words_of(s) == seq![word] + text::words_of(rest),
        text::words_of(s)[0] == word,
{
    assert(s[0] == word[0]);
    assert(text::trimmed_start(s) == s);
    lemma_space_place(s, word, rest);
    let i = word.len() as int;
    assert(s.take(i) =~= word);
    assert(s.skip(i) =~= rest);
}

proof fn lemma_space_place(s: Seq<char>, word: Seq<char>, rest: Seq<char>)
    requires
        s == word + rest,
        forall|i: int| 0 <= i < word.len() ==> !text::is_space(#[trigger] word[i]),
        rest.len() == 0 || text::is_space(rest[0]),
    ensures
        text::space_place(s) == word.len(),
    decreases word.len(),
{
    if word.len() > 0 {
        assert(s[0] == word[0]);
        assert(s.skip(1) =~= word.skip(1) + rest);
        lemma_space_place(s.skip(1), word.skip(1), rest);
    } else {
        assert(s =~= rest);
    }
}

/// The lines of a text, each without its end, are read one after the other.
pub proof fn text_is_read_line_by_line(line: Seq<char>, rest: Seq<char>)
    requires
        !line.contains('\n'),
    ensures
        text::lines_of(Seq::empty()).len() == 0,
        line.len() > 0 ==> text::lines_of(line) == seq![line],
        line.len() == 0 || line.last() != '\r' ==> text::lines_of(line.push('\n') + rest) == seq![
            line,
        ] + text::lines_of(rest) && text::lines_of(line.push('\r').push('\n') + rest) == seq![
            line,
        ] + text::lines_of(rest),
{
    values::text_is_cut_at_the_first_place(line, '\n', line, rest);
    values::text_is_cut_at_the_first_place(line.push('\n') + rest, '\n', line, rest);
    let with = line.push('\r');
    assert(!with.contains('\n')) by {
        assert forall|k: int| 0 <= k < with.len() implies #[trigger] with[k] != '\n' by {
            if k < line.len() {
                assert(line.contains(line[k]));
            }
        }
    }
    values::text_is_cut_at_the_first_place(with.push('\n') + rest, '\n', with, rest);
    assert(with.drop_last() =~= line);
}

/// An answer is read from its last head on: its status from the first line, its headers from the
/// others, and its body as it is. An answer without an empty line, and one without a status, is
/// an error.
pub proof fn answer_is_read_from_its_head(
    raw: Seq<char>,
    head: Seq<char>,
    body: Seq<char>,
    status: u16,
)
    ensures
        gh::head_and_body(gh::last_answer(raw)) is None ==> gh::response_of(raw) == Err::<
            (u16, Map<Seq<char>, Seq<char>>, Seq<char>),
            _,
        >(ResponseError::NoSeparator),
        gh::head_and_body(gh::last_answer(raw)) == Some((head, body)) && text::lines_of(head).len()
            == 0 ==> gh::response_of(raw) == Err::<
            (u16, Map<Seq<char>, Seq<char>>, Seq<char>),
            _,
        >(ResponseError::Empty),
        gh::head_and_body(gh::last_answer(raw)) == Some((head, body)) && text::lines_of(head).len()
            > 0 && gh::status_of(text::lines_of(head)[0]) == Ok::<u16, ResponseError>(status)
            ==> gh::response_of(raw) == Ok::<_, ResponseError>(
            (status, gh::headers_of(text::lines_of(head).skip(1)), body),
        ),
{
}

/// An answer without a body, and one that says that nothing changed, holds nothing; any other
/// holds the JSON of its body, and with several pages the elements of all of them. What is no
/// JSON is an error.
pub proof fn body_is_what_the_answer_holds(status: u16, body: Seq<char>, page: Seq<char>)
    ensures
        text::trimmed(body).len() == 0 ==> gh::body_of(status, body, false) == Ok::<_, GhErrorView>(
            JsonView::Null,
        ) && gh::body_of(status, body, true) == Ok::<_, GhErrorView>(JsonView::Null),
        gh::body_of(304, body, false) == Ok::<_, GhErrorView>(JsonView::Null),
        text::trimmed(body).len() > 0 && status != 304 ==> gh::body_of(status, body, false) == (
        match json::json_of_text(body) {
            Some(v) => Ok(v),
            None => Err(GhErrorView::Body),
        }),
        text::trimmed(body).len() > 0 && status != 304 ==> gh::body_of(status, body, true) == (
        match gh::pages_of(text::pieces(body, '\n')) {
            Some(items) => Ok(JsonView::Array(items)),
            None => Err(GhErrorView::Page),
        }),
        gh::pages_of(seq![page]) == (if text::trimmed(page).len() == 0 {
            Some(Seq::empty())
        } else {
            match json::json_of_text(text::trimmed(page)) {
                Some(JsonView::Array(items)) => Some(items),
                Some(_) => Some(Seq::empty()),
                None => None,
            }
        }),
{
    assert(seq![page].drop_last() =~= Seq::empty());
    let none = Seq::<JsonView>::empty();
    assert(seq![page].last() == page);
    assert(gh::pages_of(Seq::<Seq<char>>::empty()) == Some(none));
    match json::json_of_text(text::trimmed(page)) {
        Some(JsonView::Array(items)) => {
            assert(none + items =~= items);
        },
        _ => {
            assert(none + none =~= none);
        },
    }
}

/// The data of an answer to a query is what stands under `data`; where the answer tells of errors,
/// or its status is not that of success, the query failed.
pub proof fn data_is_given_where_nothing_failed(
    endpoint: Seq<char>,
    raw: Seq<char>,
    duration_ms: u64,
    status: u16,
    headers: Map<Seq<char>, Seq<char>>,
    body: Seq<char>,
    v: JsonView,
)
    requires
        gh::response_of(raw) == Ok::<_, ResponseError>((status, headers, body)),
        json::json_of_text(body) == Some(v),
    ensures
        status != 200 ==> gh::query_of(endpoint, raw, duration_ms) == Err::<gh::QueryView, _>(
            GhErrorView::Status { status, body },
        ),
        status == 200 && v.get("errors"@) is Some ==> gh::query_of(endpoint, raw, duration_ms)
            == Err::<gh::QueryView, _>(
            GhErrorView::GraphQl(json::json_text(v.get("errors"@)->Some_0)),
        ),
        status == 200 && v.get("errors"@) is None ==> (gh::query_of(
            endpoint,
            raw,
            duration_ms,
        ) matches Ok(q) && q.data == v.at("data"@) && q.record == db::costed_record(
            CallLogView {
                endpoint,
                method: "POST"@,
                status_code: Some(200),
                etag: gh::header(headers, "etag"@),
                last_modified: None,
                rate_remaining: gh::header_number(headers, "x-ratelimit-remaining"@),
                rate_reset: gh::header_number(headers, "x-ratelimit-reset"@),
                cache_hit: false,
                duration_ms: Some(duration_ms as i64),
            },
            v.at("data"@).at("rateLimit"@).at("cost"@).as_i64(),
        )),
{
}

/// A header is what the answer gives under its name, and as a number what its digits stand for.
pub proof fn header_is_what_the_answer_gives(
    headers: Map<Seq<char>, Seq<char>>,
    name: Seq<char>,
    value: Seq<char>,
    n: i64,
)
    ensures
        gh::header(headers.insert(name, value), name) == Some(value),
        !headers.dom().contains(name) ==> gh::header(headers, name) is None
            && gh::header_number(headers, name) is None,
        gh::header_number(headers.insert(name, number::int_text(n as int)), name) == Some(n),
{
    number::number_text_reads_back(n, 0);
}

/// Of every call it is recorded what was asked, what the answer said of itself, how many points
/// are left and when there are more; and of the endpoint when it was asked, with what tags, how
/// long to wait, and that it changed, unless the answer says that it did not.
pub proof fn calls_are_recorded(req: GhRequestView, resp: GhResponseView, now: Seq<char>)
    ensures
        ({
            let r = gh::call_records(req, resp, now);
            let etag = gh::header(resp.headers, "etag"@);
            let last_modified = gh::header(resp.headers, "last-modified"@);
            &&& r.len() == 2
            &&& r[0] == db::costed_record(
                CallLogView {
                    endpoint: req.endpoint,
                    method: req.method,
                    status_code: Some(resp.status),
                    etag,
                    last_modified,
                    rate_remaining: gh::header_number(resp.headers, "x-ratelimit-remaining"@),
                    rate_reset: gh::header_number(resp.headers, "x-ratelimit-reset"@),
                    cache_hit: resp.status == 304,
                    duration_ms: Some(resp.duration_ms as i64),
                },
                None,
            )
            &&& r[1] == db::poll_record(
                req.endpoint,
                etag,
                last_modified,
                gh::header_number(resp.headers, "x-poll-interval"@),
                resp.status != 304,
                now,
            )
        }),
{
}

/// What a call gives is what the text of its output holds, with all its records.
pub proof fn call_gives_what_its_output_holds(
    req: GhRequestView,
    stdout: Seq<u8>,
    duration_ms: u64,
    now: Seq<char>,
    status: u16,
    headers: Map<Seq<char>, Seq<char>>,
    body: Seq<char>,
    v: JsonView,
)
    requires
        gh::response_of(text::utf8_lossy(stdout)) == Ok::<_, ResponseError>(
            (status, headers, body),
        ),
        gh::body_of(status, body, req.paginate) == Ok::<_, GhErrorView>(v),
    ensures
        ({
            let response = GhResponseView { status, headers, body: v, duration_ms };
            gh::call_of(req, stdout, duration_ms, now) == Ok::<_, GhErrorView>(
                CallView { response, records: gh::call_records(req, response, now) },
            )
        }),
{
}

// ---- records -----------------------------------------------------------------------
/// The columns of a recorded call. Queries are told apart from other calls by the name of their
/// endpoint.
pub proof fn columns_of_a_recorded_call(e: CallLogView, cost: Option<i64>)
    ensures
        ({
            let s = db::costed_record(e, cost);
            let p = s.params;
            &&& s.sql == "INSERT INTO call_log
         (endpoint, method, status_code, etag, last_modified, rate_remaining, rate_reset, cache_hit, duration_ms, api_type, gql_cost)
         VALUES (?1, ?2, ?3, ?4, ?5, ?6, ?7, ?8, ?9, ?10, ?11)"@
            &&& p.len() == 11
            &&& p[0] == SqlView::Text(e.endpoint)
            &&& p[1] == SqlView::Text(e.method)
            &&& e.status_code matches Some(c) ==> p[2] == SqlView::Integer(c as i64)
            &&& e.status_code is None ==> p[2] == SqlView::Null
            &&& p[3] == sql::text_or_null(e.etag)
            &&& p[4] == sql::text_or_null(e.last_modified)
            &&& p[5] == sql::integer_or_null(e.rate_remaining)
            &&& p[6] == sql::integer_or_null(e.rate_reset)
            &&& p[7] == sql::flag(e.cache_hit)
            &&& p[8] == sql::integer_or_null(e.duration_ms)
            &&& p[9] == SqlView::Text(
                if text::begins_with(e.endpoint, "graphql"@) {
                    "graphql"@
                } else {
                    "rest"@
                },
            )
            &&& p[10] == sql::integer_or_null(cost)
            &&& db::call_record(e) == db::costed_record(e, None)
        }),
{
}

/// The columns of the recorded state of an endpoint.
pub proof fn columns_of_a_recorded_poll(
    endpoint: Seq<char>,
    etag: Option<Seq<char>>,
    last_modified: Option<Seq<char>>,
    poll_interval: Option<i64>,
    changed: bool,
    now: Seq<char>,
)
    ensures
        ({
            let s = db::poll_record(endpoint, etag, last_modified, poll_interval, changed, now);
            let p = s.params;
            &&& s.sql == "INSERT INTO poll_state (endpoint, etag, last_modified, poll_interval, last_polled_at, last_changed_at)
         VALUES (?1, ?2, ?3, ?4, ?5, ?6)
         ON CONFLICT(endpoint) DO UPDATE SET
             etag            = excluded.etag,
             last_modified   = excluded.last_modified,
             poll_interval   = COALESCE(excluded.poll_interval, poll_state.poll_interval),
             last_polled_at  = excluded.last_polled_at,
             last_changed_at = CASE WHEN ?6 IS NOT NULL THEN excluded.last_changed_at ELSE poll_state.last_changed_at END"@
            &&& p.len() == 6
            &&& p[0] == SqlView::Text(endpoint)
            &&& p[1] == sql::text_or_null(etag)
            &&& p[2] == sql::text_or_null(last_modified)
            &&& p[3] == sql::integer_or_null(poll_interval)
            &&& p[4] == SqlView::Text(now)
            &&& changed ==> p[5] == SqlView::Text(now)
            &&& !changed ==> p[5] == SqlView::Null
        }),
{
}

/// The state of an endpoint is asked for by its name and read from its columns; one that was never
/// asked has none.
pub proof fn recorded_poll_is_read(endpoint: Seq<char>, v: PollStateView, more: Seq<Seq<SqlView>>)
    ensures
        db::poll_query(endpoint) == (StatementView {
            sql: "SELECT etag, last_modified, poll_interval, last_polled_at FROM poll_state WHERE endpoint = ?1"@,
            params: seq![SqlView::Text(endpoint)],
        }),
        db::polled_state(
            seq![
                seq![
                    sql::text_or_null(v.etag),
                    sql::text_or_null(v.last_modified),
                    sql::integer_or_null(v.poll_interval),
                    sql::text_or_null(v.last_polled_at),
                ],
            ] + more,
        ) == Some(v),
        db::polled_state(Seq::empty()) == Some(
            PollStateView {
                etag: None,
                last_modified: None,
                poll_interval: None,
                last_polled_at: None,
            },
        ),
{
    let row = seq![
        sql::text_or_null(v.etag),
        sql::text_or_null(v.last_modified),
        sql::integer_or_null(v.poll_interval),
        sql::text_or_null(v.last_polled_at),
    ];
    assert((seq![row] + more)[0] == row);
    assert(row.len() == 4);
}

/// The columns of a logged change: which row of which table, whether it was inserted or updated,
/// and the repository that it belongs to.
pub proof fn columns_of_a_logged_change(
    entity_type: Seq<char>,
    id: i64,
    is_new: bool,
    slug: Option<Seq<char>>,
    payload: Option<JsonView>,
)
    ensures
        db::change_record(entity_type, id, ChangeEvent::of(is_new), slug, payload).sql
            == "INSERT INTO change_log (entity_type, entity_id, event, repo_slug, payload_json)
         VALUES (?1, ?2, ?3, ?4, ?5)"@,
        db::change_record(entity_type, id, ChangeEvent::of(is_new), slug, payload).params == seq![
            SqlView::Text(entity_type),
            SqlView::Integer(id),
            SqlView::Text(
                if is_new {
                    "inserted"@
                } else {
                    "updated"@
                },
            ),
            sql::text_or_null(slug),
            match payload {
                Some(v) => SqlView::Text(json::json_text(v)),
                None => SqlView::Null,
            },
        ],
        ChangeEvent::Inserted.name() == "inserted"@,
        ChangeEvent::Updated.name() == "updated"@,
{
    assert(db::change_record(entity_type, id, ChangeEvent::of(is_new), slug, payload).params
        =~= seq![
        SqlView::Text(entity_type),
        SqlView::Integer(id),
        SqlView::Text(
            if is_new {
                "inserted"@
            } else {
                "updated"@
            },
        ),
        sql::text_or_null(slug),
        match payload {
            Some(v) => SqlView::Text(json::json_text(v)),
            None => SqlView::Null,
        },
    ]);
}

pub(crate) proof fn lemma_logged(entity_type: Seq<char>, id: i64, is_new: bool, slug: Seq<char>)
    ensures
        is_new ==> db::change_record(entity_type, id, ChangeEvent::Inserted, Some(slug), None) == (
        StatementView {
            sql: "INSERT INTO change_log (entity_type, entity_id, event, repo_slug, payload_json)
         VALUES (?1, ?2, ?3, ?4, ?5)"@,
            params: seq![
                SqlView::Text(entity_type),
                SqlView::Integer(id),
                SqlView::Text("inserted"@),
                SqlView::Text(slug),
                SqlView::Null,
            ],
        }),
        !is_new ==> db::change_record(entity_type, id, ChangeEvent::Updated, Some(slug), None) == (
        StatementView {
            sql: "INSERT INTO change_log (entity_type, entity_id, event, repo_slug, payload_json)
         VALUES (?1, ?2, ?3, ?4, ?5)"@,
            params: seq![
                SqlView::Text(entity_type),
                SqlView::Integer(id),
                SqlView::Text("updated"@),
                SqlView::Text(slug),
                SqlView::Null,
            ],
        }),
{
    let event = if is_new {
        ChangeEvent::Inserted
    } else {
        ChangeEvent::Updated
    };
    assert(db::change_record(entity_type, id, event, Some(slug), None).params =~= seq![
        SqlView::Text(entity_type),
        SqlView::Integer(id),
        SqlView::Text(event.name()),
        SqlView::Text(slug),
        SqlView::Null,
    ]);
}

/// A repository is recorded, and its id found, by its owner and its name.
pub proof fn repositories_are_found_by_owner_and_name(
    owner: Seq<char>,
    name: Seq<char>,
    branch: Seq<char>,
)
    ensures
        db::repo_record(owner, name, branch) == (StatementView {
            sql: "INSERT INTO repo (owner, name, default_branch)
         VALUES (?1, ?2, ?3)
         ON CONFLICT(owner, name) DO UPDATE SET
             default_branch = excluded.default_branch"@,
            params: seq![SqlView::Text(owner), SqlView::Text(name), SqlView::Text(branch)],
        }),
        db::repo_id_query(owner, name) == (StatementView {
            sql: "SELECT id FROM repo WHERE owner = ?1 AND name = ?2"@,
            params: seq![SqlView::Text(owner), SqlView::Text(name)],
        }),
{
}

// ---- points and times --------------------------------------------------------------
/// How many points are left of a kind is what the latest call of that kind told.
pub proof fn points_left_are_those_of_the_latest_call(
    remaining: Option<i64>,
    reset: Option<i64>,
    more: Seq<Seq<SqlView>>,
)
    ensures
        throttle::SELECT_LEFT@ == "SELECT rate_remaining, rate_reset FROM call_log
         WHERE api_type = ?1 AND rate_remaining IS NOT NULL ORDER BY id DESC LIMIT 1"@,
        throttle::left_query(Pool::Rest) == (StatementView {
            sql: throttle::SELECT_LEFT@,
            params: seq![SqlView::Text("rest"@)],
        }),
        throttle::left_query(Pool::Graphql) == (StatementView {
            sql: throttle::SELECT_LEFT@,
            params: seq![SqlView::Text("graphql"@)],
        }),
        throttle::pool_name(Pool::Rest) == "rest"@,
        throttle::pool_name(Pool::Graphql) == "graphql"@,
        throttle::left_in(
            seq![seq![sql::integer_or_null(remaining), sql::integer_or_null(reset)]] + more,
        ) == (Left { remaining, reset }),
        throttle::left_in(Seq::empty()) == (Left { remaining: None, reset: None }),
{
    let row = seq![sql::integer_or_null(remaining), sql::integer_or_null(reset)];
    assert((seq![row] + more)[0] == row);
    assert(row.len() == 2);
}

/// While there are enough points nothing waits; when there are next to none, everything waits
/// until there are new ones; between the two the wait grows with what is missing, from nothing to
/// all of the time. Nothing waits for a time that has passed, or where nothing is known.
pub proof fn wait_grows_as_points_run_out(
    remaining: i64,
    reset: i64,
    warn: i64,
    stop: i64,
    now: i64,
)
    requires
        stop < warn,
    ensures
        ({
            let w = throttle::wait_for(
                Left { remaining: Some(remaining), reset: Some(reset) },
                warn,
                stop,
                now,
            );
            &&& remaining >= warn ==> w == 0
            &&& reset <= now ==> w == 0
            &&& remaining <= stop && reset > now ==> w == reset - now
            &&& stop < remaining < warn && reset > now ==> w == (reset - now) * (warn - remaining)
                / (warn - stop)
        }),
        throttle::wait_for(Left { remaining: None, reset: Some(reset) }, warn, stop, now) == 0,
        throttle::wait_for(Left { remaining: Some(remaining), reset: None }, warn, stop, now) == 0,
{
    if stop < remaining < warn && reset <= now {
        let d = warn - stop;
        let m = warn - remaining;
        assert(0 * m / d == 0) by (nonlinear_arith)
            requires
                d > 0,
        ;
    }
}

/// The time between two moments is the difference of their seconds and of what is over, in
/// nanoseconds; whole seconds of it are counted towards zero.
pub proof fn time_between_moments(a: Moment, b: Moment)
    requires
        a.nanos < 1_000_000_000,
        b.nanos < 1_000_000_000,
    ensures
        a.nanos_since(b) == (a.secs - b.secs) * 1_000_000_000 + (a.nanos - b.nanos),
        a.nanos == b.nanos ==> a.seconds_since(b) == a.secs - b.secs,
{
    if a.nanos == b.nanos {
        let d = a.secs - b.secs;
        assert(a.nanos_since(b) == d * 1_000_000_000);
    }
}

} // verus!
