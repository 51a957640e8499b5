//! What the command line tells of itself: the configuration, the state of the cache, and what
//! every API call cost.

use vstd::prelude::*;

use crate::client::types::{RateLimit, RateLimitView};
use crate::config::ResolvedConfig;
use crate::json::{opt_int, to_text, Json, JsonView};
use crate::number::{i64_text, u64_text};
use crate::output::push_line;
use crate::sql::{get_integer, get_opt_text, get_text, read_readable, FromRow, Row, SqlView};
use crate::text::{cat, cat3, same, starts_with};
use crate::{config, db, json, number, output, sql, text};

verus! {

/// What a new configuration file holds.
pub const CONFIG_TEMPLATE: &'static str = "[global]
db_path               = \"~/.local/share/ghcache/gh.db\"
staging_folder        = \"~/.local/share/ghcache/repos\"
poll_interval_seconds = 60
log_level             = \"info\"
gh_binary             = \"gh\"

# Sync all repos under a GitHub user or org:
[[org]]
owner         = \"myorg\"
sync_prs      = true
sync_events   = true
sync_branches = [\"main\"]
exclude       = []

# Or target specific repos:
# [[repo]]
# owner          = \"myorg\"
# name           = \"backend\"
# default_branch = \"main\"
# sync_prs       = true
# sync_events    = true
# sync_branches  = [\"main\", \"staging\"]
";

// ---- the configuration -------------------------------------------------------------
/// The lines that show the configuration, up to the list of repositories.
pub open spec fn config_head(cfg: ResolvedConfig) -> Seq<Seq<char>> {
    seq![
        "db_path:          "@ + cfg.db_path@,
        "staging_folder:   "@ + cfg.staging_folder@,
        "poll_interval:    "@ + number::nat_text(cfg.poll_interval_seconds as nat) + "s"@,
        "log_level:        "@ + cfg.log_level@,
        "gh_binary:        "@ + cfg.gh_binary@,
        "repos ("@ + number::nat_text(cfg.repos@.len()) + "):"@,
    ]
}

/// The lines that show the configuration.
pub open spec fn config_lines(cfg: ResolvedConfig) -> Seq<Seq<char>> {
    config_head(cfg) + cfg.repos.deep_view().map_values(
        |r: config::RepoView| "  "@ + config::slug_of(r.owner, r.name),
    )
}

/// The configuration, as it is shown.
pub fn config_text(cfg: &ResolvedConfig) -> (r: String)
    ensures
        r@ == output::lines_text(config_lines(*cfg)),
{
    let ghost head = config_head(*cfg);
    let ghost all = config_lines(*cfg);
    let mut out: String = String::new();
    assert(out@ =~= output::lines_text(all.take(0))) by {
        assert(all.take(0) =~= Seq::empty());
    }
    let line: String = cat("db_path:          ", cfg.db_path.as_str());
    push_line(&mut out, line.as_str());
    proof {
        lemma_next_line(all, 0);
    }
    let line: String = cat("staging_folder:   ", cfg.staging_folder.as_str());
    push_line(&mut out, line.as_str());
    proof {
        lemma_next_line(all, 1);
    }
    let n: String = u64_text(cfg.poll_interval_seconds);
    let line: String = cat3("poll_interval:    ", n.as_str(), "s");
    push_line(&mut out, line.as_str());
    proof {
        lemma_next_line(all, 2);
    }
    let line: String = cat("log_level:        ", cfg.log_level.as_str());
    push_line(&mut out, line.as_str());
    proof {
        lemma_next_line(all, 3);
    }
    let line: String = cat("gh_binary:        ", cfg.gh_binary.as_str());
    push_line(&mut out, line.as_str());
    proof {
        lemma_next_line(all, 4);
    }
    let n: String = u64_text(cfg.repos.len() as u64);
    let line: String = cat3("repos (", n.as_str(), "):");
    push_line(&mut out, line.as_str());
    proof {
        lemma_next_line(all, 5);
    }
    let mut i: usize = 0;
    while i < cfg.repos.len()
        invariant
            i <= cfg.repos.len(),
            all == config_lines(*cfg),
            out@ == output::lines_text(all.take(i + 6)),
        decreases cfg.repos.len() - i,
    {
        let slug: String = cfg.repos[i].slug();
        let line: String = cat("  ", slug.as_str());
        push_line(&mut out, line.as_str());
        proof {
            assert(all[i + 6] == line@);
            lemma_next_line(all, i + 6);
        }
        i += 1;
    }
    assert(all.take(i + 6) =~= all);
    out
}

proof fn lemma_next_line(all: Seq<Seq<char>>, i: int)
    requires
        0 <= i < all.len(),
    ensures
        output::lines_text(all.take(i + 1)) == output::lines_text(all.take(i)) + all[i] + "\n"@,
{
    assert(all.take(i + 1) =~= all.take(i).push(all[i]));
    output::lemma_push_line(all.take(i), all[i]);
}

// ---- the state ---------------------------------------------------------------------
/// Gives the size of the database in bytes.
pub const SELECT_SIZE: &'static str =
    "SELECT page_count * page_size FROM pragma_page_count(), pragma_page_size()";

/// Gives how many pull requests there are.
pub const SELECT_PR_COUNT: &'static str = "SELECT COUNT(*) FROM pull_request";

/// Gives how many notifications are not read.
pub const SELECT_UNREAD_COUNT: &'static str = "SELECT COUNT(*) FROM notification WHERE unread=1";

/// Gives the endpoints that were asked last.
pub const SELECT_POLLS: &'static str =
    "SELECT endpoint, last_polled_at, last_changed_at FROM poll_state ORDER BY last_polled_at DESC LIMIT 10";

/// The number that a query for one gave; zero where it gave none.
pub open spec fn count_in(rows: Seq<Seq<SqlView>>) -> i64 {
    if rows.len() == 0 {
        0
    } else {
        match sql::integer_in(rows[0], 0) {
            Some(n) => n,
            None => 0,
        }
    }
}

/// The number that a query for one gave; zero where it gave none.
pub fn count_or_zero(rows: &Vec<Row>) -> (r: i64)
    ensures
        r == count_in(rows.deep_view()),
{
    if rows.len() == 0 {
        return 0;
    }
    match get_integer(&rows[0], 0) {
        Ok(n) => n,
        Err(_) => 0,
    }
}

/// When an endpoint was asked, and when it last gave something new.
pub struct PollRow {
    pub endpoint: String,
    pub last_polled_at: Option<String>,
    pub last_changed_at: Option<String>,
}

/// What a poll row is.
#[verifier::ext_equal]
pub struct PollRowView {
    pub endpoint: Seq<char>,
    pub last_polled_at: Option<Seq<char>>,
    pub last_changed_at: Option<Seq<char>>,
}

impl DeepView for PollRow {
    type V = PollRowView;

    open spec fn deep_view(&self) -> PollRowView {
        PollRowView {
            endpoint: self.endpoint@,
            last_polled_at: self.last_polled_at.deep_view(),
            last_changed_at: self.last_changed_at.deep_view(),
        }
    }
}

impl FromRow for PollRow {
    open spec fn in_row(row: Seq<SqlView>) -> Option<PollRowView> {
        if sql::text_in(row, 0) is Some
            && sql::opt_text_in(row, 1) is Some
            && sql::opt_text_in(row, 2) is Some
        {
            Some(
                PollRowView {
                    endpoint: sql::text_in(row, 0)->Some_0,
                    last_polled_at: sql::opt_text_in(row, 1)->Some_0,
                    last_changed_at: sql::opt_text_in(row, 2)->Some_0,
                },
            )
        } else {
            None
        }
    }

    fn from_row(row: &Row) -> (r: Option<PollRow>) {
        let endpoint: String = match get_text(row, 0) {
            Ok(v) => v,
            Err(_) => {
                return None;
            },
        };
        let last_polled_at: Option<String> = match get_opt_text(row, 1) {
            Ok(v) => v,
            Err(_) => {
                return None;
            },
        };
        let last_changed_at: Option<String> = match get_opt_text(row, 2) {
            Ok(v) => v,
            Err(_) => {
                return None;
            },
        };
        Some(PollRow { endpoint, last_polled_at, last_changed_at })
    }
}

/// A time, or that there was none.
pub open spec fn time_or_never(t: Option<Seq<char>>) -> Seq<char> {
    config::alias_or(t, "never"@)
}

/// The line that shows when an endpoint was asked.
pub open spec fn poll_line(p: PollRowView) -> Seq<char> {
    "  "@ + p.endpoint + " -- polled: "@ + time_or_never(p.last_polled_at) + " changed: "@
        + time_or_never(p.last_changed_at)
}

/// The lines that show the state of the cache.
pub open spec fn status_lines(
    db_path: Seq<char>,
    kilobytes: Seq<char>,
    prs: i64,
    unread: i64,
    polls: Seq<PollRowView>,
) -> Seq<Seq<char>> {
    let head = seq![
        "db:               "@ + db_path + " ("@ + kilobytes + " KB)"@,
        "pull_requests:    "@ + number::int_text(prs as int),
        "unread notifs:    "@ + number::int_text(unread as int),
    ];
    if polls.len() == 0 {
        head
    } else {
        head + seq![""@, "recent polls:"@] + polls.map_values(|p: PollRowView| poll_line(p))
    }
}

/// The state of the cache, as it is shown, with the size of the database in kilobytes, the
/// number of pull requests and of unread notifications, and the rows of the endpoints that
/// were asked last. Rows that do not hold an endpoint are passed over.
pub fn status_text(
    db_path: &str,
    kilobytes: &str,
    prs: i64,
    unread: i64,
    polls: &Vec<Row>,
) -> (r: String)
    ensures
        r@ == output::lines_text(
            status_lines(db_path@, kilobytes@, prs, unread, sql::readable::<PollRow>(
                polls.deep_view(),
            )),
        ),
{
    let polls: Vec<PollRow> = read_readable::<PollRow>(polls);
    let ghost all = status_lines(db_path@, kilobytes@, prs, unread, polls.deep_view());
    let mut out: String = String::new();
    assert(out@ =~= output::lines_text(all.take(0))) by {
        assert(all.take(0) =~= Seq::empty());
    }
    let mut line: String = cat3("db:               ", db_path, " (");
    line.append(kilobytes);
    line.append(" KB)");
    push_line(&mut out, line.as_str());
    proof {
        assert(all[0] == line@);
        lemma_next_line(all, 0);
    }
    let n: String = i64_text(prs);
    let line: String = cat("pull_requests:    ", n.as_str());
    push_line(&mut out, line.as_str());
    proof {
        assert(all[1] == line@);
        lemma_next_line(all, 1);
    }
    let n: String = i64_text(unread);
    let line: String = cat("unread notifs:    ", n.as_str());
    push_line(&mut out, line.as_str());
    proof {
        assert(all[2] == line@);
        lemma_next_line(all, 2);
    }
    if polls.len() == 0 {
        assert(all.take(3) =~= all);
        return out;
    }
    push_line(&mut out, "");
    proof {
        lemma_next_line(all, 3);
    }
    push_line(&mut out, "recent polls:");
    proof {
        lemma_next_line(all, 4);
    }
    let mut i: usize = 0;
    while i < polls.len()
        invariant
            i <= polls.len(),
            polls.len() > 0,
            all == status_lines(db_path@, kilobytes@, prs, unread, polls.deep_view()),
            out@ == output::lines_text(all.take(i + 5)),
        decreases polls.len() - i,
    {
        let line: String = polls[i].line();
        push_line(&mut out, line.as_str());
        proof {
            assert(all[i + 5] == poll_line(polls.deep_view()[i as int]));
            lemma_next_line(all, i + 5);
        }
        i += 1;
    }
    assert(all.take(i + 5) =~= all);
    out
}

impl PollRow {
    /// The line that shows when the endpoint was asked.
    pub fn line(&self) -> (r: String)
        ensures
            r@ == poll_line(self.deep_view()),
    {
        let mut out: String = cat3("  ", self.endpoint.as_str(), " -- polled: ");
        out.append(config::text_or(&self.last_polled_at, "never"));
        out.append(" changed: ");
        out.append(config::text_or(&self.last_changed_at, "never"));
        out
    }
}

// ---- calls -------------------------------------------------------------------------
/// What is left of the points of a pool, as the latest report of it says.
pub open spec fn left_in(pool: Seq<char>, limits: Seq<RateLimitView>) -> JsonView
    decreases limits.len(),
{
    if limits.len() == 0 {
        JsonView::Null
    } else if limits.last().api_type == pool {
        match limits.last().remaining {
            Some(n) => JsonView::Int(n),
            None => JsonView::Null,
        }
    } else {
        left_in(pool, limits.drop_last())
    }
}

fn left(pool: &str, limits: &Vec<RateLimit>) -> (r: Json)
    ensures
        r.deep_view() == left_in(pool@, limits.deep_view()),
{
    let ghost all = limits.deep_view();
    let mut r: Json = Json::Null;
    let mut i: usize = 0;
    assert(all.take(0) =~= Seq::empty());
    while i < limits.len()
        invariant
            i <= limits.len(),
            all == limits.deep_view(),
            r.deep_view() == left_in(pool@, all.take(i as int)),
        decreases limits.len() - i,
    {
        proof {
            assert(all.take(i + 1).drop_last() =~= all.take(i as int));
            assert(all.take(i + 1).last() == limits@[i as int].deep_view());
        }
        if same(limits[i].api_type.as_str(), pool) {
            r = match limits[i].remaining {
                Some(n) => Json::Int(n),
                None => Json::Null,
            };
        }
        i += 1;
    }
    assert(all.take(i as int) =~= all);
    r
}

/// What is left of both pools of points, as a JSON object.
pub open spec fn rate_json(limits: Seq<RateLimitView>, now: Seq<char>) -> JsonView {
    JsonView::Object(
        map![
            "ts"@ => JsonView::Str(now),
            "gh_points_rest_remaining"@ => left_in("rest"@, limits),
            "gh_points_graphql_remaining"@ => left_in("graphql"@, limits),
        ],
    )
}

/// The line that tells what is left of both pools of points. It reads back as just that.
pub fn rate_line(limits: &Vec<RateLimit>, now: &str) -> (r: String)
    ensures
        r@ == json::compact_text(rate_json(limits.deep_view(), now@)),
        !r@.contains('\n'),
        json::json_of_text(r@) == Some(rate_json(limits.deep_view(), now@)),
{
    let members: Vec<(String, Json)> = vec![
        ("ts".to_owned(), Json::Str(now.to_owned())),
        ("gh_points_rest_remaining".to_owned(), left("rest", limits)),
        ("gh_points_graphql_remaining".to_owned(), left("graphql", limits)),
    ];
    proof {
        json::lemma_members_in_order(members@);
        reveal_with_fuel(json::members_so_far, 4);
        assert(json::members_view(members@) =~= rate_json(limits.deep_view(), now@)->Object_0);
        lemma_left_is_flat("rest"@, limits.deep_view());
        lemma_left_is_flat("graphql"@, limits.deep_view());
        json::lemma_flat_is_plain(rate_json(limits.deep_view(), now@)->Object_0, 127);
    }
    to_text(&Json::Object(members))
}

proof fn lemma_left_is_flat(pool: Seq<char>, limits: Seq<RateLimitView>)
    ensures
        left_in(pool, limits) is Null || left_in(pool, limits) is Int,
    decreases limits.len(),
{
    if limits.len() > 0 && limits.last().api_type != pool {
        lemma_left_is_flat(pool, limits.drop_last());
    }
}

/// One API call, as it is told of.
pub struct CallReport<'a> {
    pub endpoint: &'a str,
    pub status: u16,
    pub rate_remaining: Option<i64>,
    /// How many points of the query pool it cost.
    pub gql_cost: Option<i64>,
    pub duration_ms: u64,
}

/// One API call as a JSON object. Only of a query it is told what it cost.
pub open spec fn call_json(call: CallReport, now: Seq<char>) -> JsonView {
    let told = map![
        "ts"@ => JsonView::Str(now),
        "api_type"@ => JsonView::Str(db::api_type(call.endpoint@)),
        "endpoint"@ => JsonView::Str(call.endpoint@),
        "status"@ => JsonView::Int(call.status as i64),
        "rate_remaining"@ => json::int_or_null(call.rate_remaining),
        "duration_ms"@ => JsonView::Int(call.duration_ms as i64),
    ];
    JsonView::Object(
        if text::begins_with(call.endpoint@, "graphql"@) {
            told.insert("gql_cost"@, json::int_or_null(call.gql_cost))
        } else {
            told
        },
    )
}

/// The line that tells of one API call. It reads back as just that.
pub fn call_line(call: &CallReport, now: &str) -> (r: String)
    ensures
        r@ == json::compact_text(call_json(*call, now@)),
        !r@.contains('\n'),
        json::json_of_text(r@) == Some(call_json(*call, now@)),
{
    let query: bool = starts_with(call.endpoint, "graphql");
    let pool: &str = if query {
        "graphql"
    } else {
        "rest"
    };
    let mut members: Vec<(String, Json)> = vec![
        ("ts".to_owned(), Json::Str(now.to_owned())),
        ("api_type".to_owned(), Json::Str(pool.to_owned())),
        ("endpoint".to_owned(), Json::Str(call.endpoint.to_owned())),
        ("status".to_owned(), Json::Int(call.status as i64)),
        ("rate_remaining".to_owned(), opt_int(call.rate_remaining)),
        ("duration_ms".to_owned(), Json::Int(call.duration_ms as i64)),
    ];
    if query {
        members.push(("gql_cost".to_owned(), opt_int(call.gql_cost)));
    }
    proof {
        json::lemma_members_in_order(members@);
        reveal_with_fuel(json::members_so_far, 8);
        assert(json::members_view(members@) =~= call_json(*call, now@)->Object_0);
        json::lemma_flat_is_plain(call_json(*call, now@)->Object_0, 127);
    }
    to_text(&Json::Object(members))
}

/// How many points a query cost, where the answer to it says so.
pub open spec fn cost_in(data: JsonView) -> Option<i64> {
    data.at("rateLimit"@).at("cost"@).as_i64()
}

/// How many points a query cost, where the answer to it says so.
pub fn gql_cost(data: &Json) -> (r: Option<i64>)
    ensures
        r == cost_in(data.deep_view()),
{
    data.at("rateLimit").at("cost").as_i64()
}

} // verus!
