//! What people are shown: tables, lines and the configuration.

use vstd::prelude::*;

use crate::client::tail;
use crate::client::tail::ChangeEventView;
use crate::client::types::RateLimitView;
use crate::config::{ResolvedConfig, Settings};
use crate::json::JsonView;
use crate::laws::values;
use crate::output;
use crate::output::Format;
use crate::report;
use crate::report::{CallReport, PollRowView};
use crate::sql::SqlView;
use crate::{config, json, number, text};

verus! {

// ---- rows --------------------------------------------------------------------------
/// A cell shows a text as it is, any other value as JSON, and nothing where there is nothing.
pub proof fn cells_show_what_is_there(s: Seq<char>, v: JsonView)
    ensures
        output::cell_of(Some(JsonView::Str(s))) == s,
        output::cell_of(Some(JsonView::Null)).len() == 0,
        output::cell_of(None).len() == 0,
        !(v is Str) && !(v is Null) ==> output::cell_of(Some(v)) == json::json_text(v),
{
}

/// The cells of a row are what the row has under the names of the columns, in their order.
pub proof fn row_has_a_cell_for_each_column(row: JsonView, columns: Seq<Seq<char>>, i: int)
    requires
        0 <= i < columns.len(),
    ensures
        output::cells_of(row, columns).len() == columns.len(),
        output::cells_of(row, columns)[i] == output::cell_of(row.get(columns[i])),
{
}

/// Lines follow one another, each with its end.
pub proof fn lines_follow_one_another(lines: Seq<Seq<char>>, line: Seq<char>)
    ensures
        output::lines_text(Seq::empty()).len() == 0,
        output::lines_text(lines.push(line)) == (output::lines_text(lines) + line).push('\n'),
{
    reveal_strlit("\n");
    assert(lines.push(line).drop_last() =~= lines);
    assert(output::lines_text(lines) + line + "\n"@ =~= (output::lines_text(lines) + line).push(
        '\n',
    ));
}

/// Every row is shown, in the order of the rows: as a line of JSON, as JSON over several lines, or
/// as a line of its cells with tabs between them, under a line with the names of the columns.
pub proof fn every_row_is_shown(rows: Seq<JsonView>, row: JsonView, columns: Seq<Seq<char>>)
    ensures
        output::shown(rows.push(row), columns, Format::Json) == (output::shown(
            rows,
            columns,
            Format::Json,
        ) + json::json_text(row)).push('\n'),
        output::shown(rows.push(row), columns, Format::JsonPretty) == (output::shown(
            rows,
            columns,
            Format::JsonPretty,
        ) + json::json_pretty_text(row)).push('\n'),
        output::shown(rows.push(row), columns, Format::Tsv) == (output::shown(
            rows,
            columns,
            Format::Tsv,
        ) + text::joined(output::cells_of(row, columns), seq!['\t'])).push('\n'),
        output::shown(Seq::empty(), columns, Format::Json).len() == 0,
        output::shown(Seq::empty(), columns, Format::JsonPretty).len() == 0,
        output::shown(Seq::empty(), columns, Format::Tsv) == text::joined(
            columns,
            seq!['\t'],
        ).push('\n'),
{
    reveal_strlit("\t");
    assert("\t"@ =~= seq!['\t']);
    let f = |r: JsonView| json::compact_text(r);
    let g = |r: JsonView| json::pretty_text(r);
    let h = |r: JsonView| text::joined(output::cells_of(r, columns), "\t"@);
    let none = Seq::<JsonView>::empty();
    let head = seq![text::joined(columns, "\t"@)];
    let no_lines = Seq::<Seq<char>>::empty();
    assert(rows.push(row).map_values(f) =~= rows.map_values(f).push(f(row)));
    assert(rows.push(row).map_values(g) =~= rows.map_values(g).push(g(row)));
    assert(head + rows.push(row).map_values(h) =~= (head + rows.map_values(h)).push(h(row)));
    lines_follow_one_another(rows.map_values(f), f(row));
    lines_follow_one_another(rows.map_values(g), g(row));
    lines_follow_one_another(head + rows.map_values(h), h(row));
    lines_follow_one_another(no_lines, head[0]);
    assert(none.map_values(f) =~= no_lines);
    assert(none.map_values(g) =~= no_lines);
    assert(head + none.map_values(h) =~= no_lines.push(head[0]));
    assert(output::lines_text(no_lines) + head[0] =~= head[0]);
}

/// A table has a line with the names of its columns, a line under it, and then a line for each
/// row, in the order of the rows.
pub proof fn table_has_a_line_for_each_row(
    columns: Seq<Seq<char>>,
    rows: Seq<JsonView>,
    cells: Seq<Seq<Seq<char>>>,
    i: int,
)
    requires
        0 <= i < cells.len(),
    ensures
        output::shown(rows, columns, Format::Table) == output::table_text(
            columns,
            output::cells_of_all(rows, columns),
        ),
        ({
            let widths = output::widths_of(columns, cells);
            let lines = seq![
                output::header_line(columns, widths),
                output::rule_line(widths),
            ] + cells.map_values(|row: Seq<Seq<char>>| output::row_line(row, widths));
            &&& output::table_text(columns, cells) == output::lines_text(lines)
            &&& lines.len() == 2 + cells.len()
            &&& lines[2 + i] == output::row_line(cells[i], widths)
        }),
{
}

/// A column is as wide as its name and as the widest of its cells, of which no more than sixty
/// bytes count.
pub proof fn column_is_as_wide_as_its_widest_cell(name: Seq<char>, cells: Seq<Seq<char>>, i: int)
    requires
        0 <= i < cells.len(),
    ensures
        output::width_of(name, cells) >= text::byte_len(name),
        text::byte_len(cells[i]) <= 60 ==> output::width_of(name, cells) >= text::byte_len(
            cells[i],
        ),
        text::byte_len(cells[i]) > 60 ==> output::width_of(name, cells) >= 60,
        output::width_of(name, cells) <= 60 || output::width_of(name, cells) == text::byte_len(
            name,
        ),
        output::width_of(name, Seq::empty()) == text::byte_len(name),
    decreases cells.len(),
{
    let fewer = cells.drop_last();
    if i < fewer.len() {
        assert(fewer[i] == cells[i]);
        column_is_as_wide_as_its_widest_cell(name, fewer, i);
    } else {
        lemma_width(name, fewer);
    }
}

proof fn lemma_width(name: Seq<char>, cells: Seq<Seq<char>>)
    ensures
        output::width_of(name, cells) >= text::byte_len(name),
        output::width_of(name, cells) <= 60 || output::width_of(name, cells) == text::byte_len(
            name,
        ),
    decreases cells.len(),
{
    if cells.len() > 0 {
        lemma_width(name, cells.drop_last());
    }
}

/// A cell that fits is shown with blanks behind it up to the width of its column; one that does
/// not is cut, and an ellipsis says so.
pub proof fn cell_is_filled_up_or_cut(s: Seq<char>, width: int)
    ensures
        text::byte_len(s) <= width ==> output::fitted(s, width) == output::padded(s, width),
        text::byte_len(s) > width ==> output::fitted(s, width) == output::padded(
            text::first_bytes(s, width - 1).push('…'),
            width,
        ),
        s.len() >= width ==> output::padded(s, width) == s,
        s.len() < width ==> output::padded(s, width).len() == width && output::padded(
            s,
            width,
        ).take(s.len() as int) == s && forall|k: int|
            s.len() <= k < width ==> #[trigger] output::padded(s, width)[k] == ' ',
{
    reveal_strlit("…");
    assert(text::first_bytes(s, width - 1) + "…"@ =~= text::first_bytes(s, width - 1).push('…'));
    if s.len() < width {
        assert(output::padded(s, width).take(s.len() as int) =~= s);
    }
}

/// The cells of a line stand in the order of the columns, two blanks between them.
pub proof fn cells_of_a_line_stand_in_order(cells: Seq<Seq<char>>, widths: Seq<int>)
    requires
        cells.len() == widths.len(),
    ensures
        output::row_line(cells, widths) == text::joined(
            Seq::new(cells.len(), |c: int| output::fitted(cells[c], widths[c])),
            seq![' ', ' '],
        ),
        output::header_line(cells, widths) == text::joined(
            Seq::new(cells.len(), |c: int| output::padded(cells[c], widths[c])),
            seq![' ', ' '],
        ),
        output::rule_line(widths) == text::joined(
            Seq::new(widths.len(), |c: int| Seq::new(widths[c] as nat, |k: int| '-')),
            seq![' ', ' '],
        ),
{
    reveal_strlit("  ");
    assert("  "@ =~= seq![' ', ' ']);
    assert(Seq::new(widths.len(), |c: int| text::repeated('-', widths[c] as nat)) =~= Seq::new(
        widths.len(),
        |c: int| Seq::new(widths[c] as nat, |k: int| '-'),
    )) by {
        assert forall|c: int| 0 <= c < widths.len() implies #[trigger] text::repeated(
            '-',
            widths[c] as nat,
        ) == Seq::new(widths[c] as nat, |k: int| '-') by {
            assert(text::repeated('-', widths[c] as nat) =~= Seq::new(
                widths[c] as nat,
                |k: int| '-',
            ));
        }
    }
}

// ---- the configuration -------------------------------------------------------------
/// The file of the configuration is the one that is named on the command line, else the one that
/// the environment names, else the one in the directory where the program runs, else the one in
/// the directory for such files.
pub proof fn nearest_configuration_counts(
    path: Seq<char>,
    env: Option<Seq<char>>,
    local: bool,
    dir: Seq<char>,
    other: Option<Seq<char>>,
)
    ensures
        config::chosen_file(Some(path), env, local, other) == path,
        config::chosen_file(None, Some(path), local, other) == path,
        config::chosen_file(None, None, true, other) == "./ghcache.toml"@,
        config::chosen_file(None, None, false, Some(dir)) == dir + "/ghcache/config.toml"@,
        config::chosen_file(None, None, false, None) == "./ghcache.toml"@,
{
}

/// A path that begins with a tilde is one in the home directory; any other is left as it is, and
/// so is every path where no home is known.
pub proof fn tilde_stands_for_home(rest: Seq<char>, home: Seq<char>, path: Seq<char>)
    ensures
        config::expanded("~/"@ + rest, Some(home)) == home.push('/') + rest,
        config::expanded(path, None) == path,
        !text::begins_with(path, "~/"@) ==> config::expanded(path, Some(home)) == path,
{
    reveal_strlit("~/");
    let all = "~/"@ + rest;
    assert(all.take("~/"@.len() as int) =~= "~/"@);
    assert(home + all.skip(1) =~= home.push('/') + rest);
}

/// What a configuration gives counts, and what it leaves out has the value that is documented.
pub proof fn defaults_are_those_that_are_documented(
    settings: Settings,
    home: Seq<char>,
    r: ResolvedConfig,
)
    requires
        config::is_settled(settings, Some(home), r),
    ensures
        settings.db_path is None ==> r.db_path@ == home + "/.local/share/ghcache/gh.db"@,
        settings.staging_folder is None ==> r.staging_folder@ == home
            + "/.local/share/ghcache/repos"@,
        settings.poll_interval_seconds is None ==> r.poll_interval_seconds == 60,
        settings.log_level is None ==> r.log_level@ == "info"@,
        settings.gh_binary is None ==> r.gh_binary@ == "gh"@,
        settings.rate_warn_threshold is None ==> r.rate_warn_threshold == 500,
        settings.rate_stop_threshold is None ==> r.rate_stop_threshold == 50,
        settings.cmd_port is None ==> r.cmd_port == 7748,
        settings.heartbeat_ttl_seconds is None ==> r.heartbeat_ttl_seconds == 30,
        r.sync_notifications <==> settings.sync_notifications == Some(true),
        settings.db_path matches Some(p) ==> r.db_path@ == config::expanded(p@, Some(home)),
        settings.staging_folder matches Some(p) ==> r.staging_folder@ == config::expanded(
            p@,
            Some(home),
        ),
        settings.poll_interval_seconds matches Some(n) ==> r.poll_interval_seconds == n,
        settings.log_level matches Some(s) ==> r.log_level@ == s@,
        settings.gh_binary matches Some(s) ==> r.gh_binary@ == s@,
        settings.rate_warn_threshold matches Some(n) ==> r.rate_warn_threshold == n,
        settings.rate_stop_threshold matches Some(n) ==> r.rate_stop_threshold == n,
        settings.cmd_port matches Some(n) ==> r.cmd_port == n,
        settings.heartbeat_ttl_seconds matches Some(n) ==> r.heartbeat_ttl_seconds == n,
        r.repos == settings.repos,
        r.orgs == settings.orgs,
{
    reveal_strlit("~/.local/share/ghcache/gh.db");
    reveal_strlit("/.local/share/ghcache/gh.db");
    reveal_strlit("~/.local/share/ghcache/repos");
    reveal_strlit("/.local/share/ghcache/repos");
    reveal_strlit("~/");
    assert("~/.local/share/ghcache/gh.db"@.take(2) =~= "~/"@);
    assert("~/.local/share/ghcache/gh.db"@.skip(1) =~= "/.local/share/ghcache/gh.db"@);
    assert("~/.local/share/ghcache/repos"@.take(2) =~= "~/"@);
    assert("~/.local/share/ghcache/repos"@.skip(1) =~= "/.local/share/ghcache/repos"@);
}

/// The configuration is shown line by line: where things are, how often GitHub is asked, and then
/// every repository by its full name.
pub proof fn configuration_is_shown_line_by_line(cfg: ResolvedConfig, i: int)
    requires
        0 <= i < cfg.repos@.len(),
    ensures
        ({
            let lines = report::config_lines(cfg);
            let repo = cfg.repos.deep_view()[i];
            &&& lines.len() == 6 + cfg.repos@.len()
            &&& lines[0] == "db_path:          "@ + cfg.db_path@
            &&& lines[1] == "staging_folder:   "@ + cfg.staging_folder@
            &&& lines[2] == "poll_interval:    "@ + number::int_text(
                cfg.poll_interval_seconds as int,
            ) + "s"@
            &&& lines[3] == "log_level:        "@ + cfg.log_level@
            &&& lines[4] == "gh_binary:        "@ + cfg.gh_binary@
            &&& lines[5] == "repos ("@ + number::int_text(cfg.repos@.len() as int) + "):"@
            &&& lines[6 + i] == "  "@ + (repo.owner.push('/') + repo.name)
        }),
{
    let repo = cfg.repos.deep_view()[i];
    values::full_name_is_owner_slash_name(repo.owner, repo.name);
}

// ---- reports -----------------------------------------------------------------------
/// The state is shown line by line: the database and its size, how many pull requests there are
/// and how many notifications are not read, and then the latest polls.
pub proof fn state_is_shown_line_by_line(
    db_path: Seq<char>,
    kilobytes: Seq<char>,
    prs: i64,
    unread: i64,
    polls: Seq<PollRowView>,
    i: int,
)
    ensures
        ({
            let lines = report::status_lines(db_path, kilobytes, prs, unread, polls);
            &&& lines[0] == "db:               "@ + db_path + " ("@ + kilobytes + " KB)"@
            &&& lines[1] == "pull_requests:    "@ + number::int_text(prs as int)
            &&& lines[2] == "unread notifs:    "@ + number::int_text(unread as int)
            &&& polls.len() == 0 ==> lines.len() == 3
            &&& polls.len() > 0 ==> lines.len() == 5 + polls.len() && lines[3] == ""@ && lines[4]
                == "recent polls:"@
            &&& 0 <= i < polls.len() ==> lines[5 + i] == "  "@ + polls[i].endpoint + " -- polled: "@
                + (match polls[i].last_polled_at {
                Some(t) => t,
                None => "never"@,
            }) + " changed: "@ + (match polls[i].last_changed_at {
                Some(t) => t,
                None => "never"@,
            })
        }),
{
}

/// What the state is shown from: the size of the database, the pull requests, the notifications
/// that are not read, and the ten endpoints that were asked last.
pub proof fn state_is_counted_in_the_cache(n: i64, more: Seq<Seq<SqlView>>)
    ensures
        report::SELECT_SIZE@ == "SELECT page_count * page_size FROM pragma_page_count(), pragma_page_size()"@,
        report::SELECT_PR_COUNT@ == "SELECT COUNT(*) FROM pull_request"@,
        report::SELECT_UNREAD_COUNT@ == "SELECT COUNT(*) FROM notification WHERE unread=1"@,
        report::SELECT_POLLS@ == "SELECT endpoint, last_polled_at, last_changed_at FROM poll_state ORDER BY last_polled_at DESC LIMIT 10"@,
        report::count_in(seq![seq![SqlView::Integer(n)]] + more) == n,
        report::count_in(Seq::empty()) == 0,
{
    let one = seq![seq![SqlView::Integer(n)]];
    assert((one + more)[0] == one[0]);
    assert(one[0][0] == SqlView::Integer(n));
}

/// The points that are left of each kind are those that the cache has for it.
pub proof fn points_are_told_by_kind(
    limits: Seq<RateLimitView>,
    last: RateLimitView,
    pool: Seq<char>,
    now: Seq<char>,
)
    ensures
        report::left_in(pool, Seq::empty()) == JsonView::Null,
        last.api_type == pool ==> report::left_in(pool, limits.push(last)) == json::int_or_null(
            last.remaining,
        ),
        last.api_type != pool ==> report::left_in(pool, limits.push(last)) == report::left_in(
            pool,
            limits,
        ),
        report::rate_json(limits, now) == JsonView::Object(
            map![
                "ts"@ => JsonView::Str(now),
                "gh_points_rest_remaining"@ => report::left_in("rest"@, limits),
                "gh_points_graphql_remaining"@ => report::left_in("graphql"@, limits),
            ],
        ),
{
    assert(limits.push(last).drop_last() =~= limits);
}

/// A call is told with its kind, its endpoint, its status, what is left and how long it took; of
/// a query also what it cost.
pub proof fn calls_are_told(call: CallReport, now: Seq<char>, data: JsonView)
    ensures
        ({
            let query = text::begins_with(call.endpoint@, "graphql"@);
            let told = map![
                "ts"@ => JsonView::Str(now),
                "api_type"@ => JsonView::Str(
                    if query {
                        "graphql"@
                    } else {
                        "rest"@
                    },
                ),
                "endpoint"@ => JsonView::Str(call.endpoint@),
                "status"@ => JsonView::Int(call.status as i64),
                "rate_remaining"@ => json::int_or_null(call.rate_remaining),
                "duration_ms"@ => JsonView::Int(call.duration_ms as i64),
            ];
            report::call_json(call, now) == JsonView::Object(
                if query {
                    told.insert("gql_cost"@, json::int_or_null(call.gql_cost))
                } else {
                    told
                },
            )
        }),
        report::cost_in(data) == data.at("rateLimit"@).at("cost"@).as_i64(),
{
}

/// What lacks a member of a change, or has another kind of value there, is no change; a change may
/// be without a repository.
pub proof fn changes_have_all_their_members(v: JsonView)
    ensures
        tail::change_of(v) is Some <==> {
            &&& v.at("id"@) is Int
            &&& v.at("entity_type"@) is Str
            &&& v.at("entity_id"@) is Int
            &&& v.at("event"@) is Str
            &&& v.at("repo_slug"@) is Str || v.at("repo_slug"@) is Null
            &&& v.get("payload"@) is Some
            &&& v.at("occurred_at"@) is Str
        },
{
}

/// The members of a change that is told.
pub proof fn members_of_a_change(ev: ChangeEventView)
    ensures
        tail::change_json(ev) == JsonView::Object(
            map![
                "id"@ => JsonView::Int(ev.id),
                "entity_type"@ => JsonView::Str(ev.entity_type),
                "entity_id"@ => JsonView::Int(ev.entity_id),
                "event"@ => JsonView::Str(ev.event),
                "repo_slug"@ => json::str_or_null(ev.repo_slug),
                "payload"@ => ev.payload,
                "occurred_at"@ => JsonView::Str(ev.occurred_at),
            ],
        ),
{
}

} // verus!
