//! Checkouts: clones of the repositories that are kept at their default branches.

use vstd::prelude::*;

use crate::config::slug;
use crate::process::{Finished, Invocation, InvocationView};
use crate::sql::{get_text, Row, SqlValue, SqlView, Statement, StatementView};
use crate::text::{cat, cat3, cut, from_utf8_lossy, same, take_bytes, trim};
use crate::{config, sql, text};

verus! {

/// A checkout that is to be brought up to date.
pub struct CheckoutTask {
    pub owner: String,
    pub name: String,
    /// The name of the directory in which the checkouts of the owner are.
    pub fs_owner: String,
    /// Whether something happened in the repository since the last time.
    pub is_dirty: bool,
    /// The branch at which the checkout is kept.
    pub default_branch: String,
    /// Whether the heads of the pull requests are fetched too.
    pub fetch_pr_branches: bool,
}

/// What a checkout task is.
#[verifier::ext_equal]
pub struct TaskView {
    pub owner: Seq<char>,
    pub name: Seq<char>,
    pub fs_owner: Seq<char>,
    pub is_dirty: bool,
    pub default_branch: Seq<char>,
    pub fetch_pr_branches: bool,
}

impl DeepView for CheckoutTask {
    type V = TaskView;

    open spec fn deep_view(&self) -> TaskView {
        TaskView {
            owner: self.owner@,
            name: self.name@,
            fs_owner: self.fs_owner@,
            is_dirty: self.is_dirty,
            default_branch: self.default_branch@,
            fetch_pr_branches: self.fetch_pr_branches,
        }
    }
}

// ---- names -------------------------------------------------------------------------
/// A text that is not the name of a repository together with that of its owner.
#[derive(Clone, Copy, PartialEq, Eq, Structural, Debug)]
pub struct InvalidSlug;

/// The owner and the name of a repository: what stands before the first slash and what
/// stands after it. Neither may be empty.
pub open spec fn slug_parts(slug: Seq<char>) -> Option<(Seq<char>, Seq<char>)> {
    match text::cut_at(slug, '/') {
        Some((owner, name)) => if owner.len() > 0 && name.len() > 0 {
            Some((owner, name))
        } else {
            None
        },
        None => None,
    }
}

/// The owner and the name of a repository.
pub fn parse_slug(slug: &str) -> (r: Result<(String, String), InvalidSlug>)
    ensures
        match r {
            Ok((owner, name)) => slug_parts(slug@) == Some((owner@, name@)),
            Err(_) => slug_parts(slug@) is None,
        },
{
    match cut(slug, '/') {
        Some((owner, name)) => {
            if owner.is_empty() || name.is_empty() {
                Err(InvalidSlug)
            } else {
                Ok((owner.to_owned(), name.to_owned()))
            }
        },
        None => Err(InvalidSlug),
    }
}

/// A text is read as an owner and a name exactly where putting the two together gives the
/// text again, the owner has no slash in it, and neither is empty.
pub proof fn slug_reads_back(owner: Seq<char>, name: Seq<char>, slug: Seq<char>)
    ensures
        slug_parts(slug) == Some((owner, name)) <==> (slug == config::slug_of(owner, name)
            && owner.len() > 0 && name.len() > 0 && !owner.contains('/')),
{
    reveal_strlit("/");
    let both = config::slug_of(owner, name);
    text::lemma_place_of_is_first(slug, '/');
    let i = text::place_of(slug, '/') as int;
    if slug_parts(slug) == Some((owner, name)) {
        assert(slug.take(i) == owner);
        assert(slug =~= both);
        assert forall|k: int| 0 <= k < owner.len() implies #[trigger] owner[k] != '/' by {
            assert(owner[k] == slug[k]);
        }
    }
    if slug == both && owner.len() > 0 && name.len() > 0 && !owner.contains('/') {
        let n = owner.len() as int;
        assert forall|k: int| 0 <= k < n implies #[trigger] slug[k] != '/' by {
            assert(owner.contains(owner[k]));
        }
        assert(slug[n] == '/');
        text::lemma_place_of(slug, '/', n);
        assert(slug.take(n) =~= owner);
        assert(slug.skip(n + 1) =~= name);
    }
}

/// The first seven bytes of the name of a commit, for people to read. Where there is no
/// such name, or no character ends with its seventh byte, it is missing.
pub fn short_sha<'a>(sha: Option<&'a str>) -> (r: &'a str)
    ensures
        r@ == (match sha {
            Some(s) => if text::can_cut(s@, 7) {
                text::first_bytes(s@, 7)
            } else {
                "missing"@
            },
            None => "missing"@,
        }),
{
    match sha {
        Some(s) => match take_bytes(s, 7) {
            Some(head) => head,
            None => "missing",
        },
        None => "missing",
    }
}

// ---- commands ----------------------------------------------------------------------
/// A program that is run for a checkout. Where it must succeed and does not, the checkout
/// fails.
pub struct Command {
    pub invocation: Invocation,
    pub must_succeed: bool,
}

/// What a command is.
#[verifier::ext_equal]
pub struct CommandView {
    pub invocation: InvocationView,
    pub must_succeed: bool,
}

impl DeepView for Command {
    type V = CommandView;

    open spec fn deep_view(&self) -> CommandView {
        CommandView { invocation: self.invocation.deep_view(), must_succeed: self.must_succeed }
    }
}

/// A run of `git` in a checkout.
pub open spec fn git_in(dest: Seq<char>, args: Seq<Seq<char>>) -> InvocationView {
    InvocationView { program: "git"@, args: seq!["-C"@, dest] + args }
}

/// A command that must succeed.
pub open spec fn must(invocation: InvocationView) -> CommandView {
    CommandView { invocation, must_succeed: true }
}

/// A command that may fail.
pub open spec fn may(invocation: InvocationView) -> CommandView {
    CommandView { invocation, must_succeed: false }
}

/// The remote branch of that name.
pub open spec fn remote_of(branch: Seq<char>) -> Seq<char> {
    "origin/"@ + branch
}

/// Clones a repository.
pub open spec fn clone_of(slug: Seq<char>, dest: Seq<char>) -> CommandView {
    must(InvocationView { program: "gh"@, args: seq!["repo"@, "clone"@, slug, dest] })
}

/// Clones a repository and checks out a branch.
pub open spec fn clone_at(slug: Seq<char>, dest: Seq<char>, branch: Seq<char>) -> CommandView {
    must(
        InvocationView {
            program: "gh"@,
            args: seq!["repo"@, "clone"@, slug, dest, "--"@, "--branch"@, branch],
        },
    )
}

/// Fetches a branch.
pub open spec fn fetch_in(dest: Seq<char>, branch: Seq<char>) -> CommandView {
    must(git_in(dest, seq!["fetch"@, "origin"@, branch]))
}

/// Sets what is checked out to what was fetched last.
pub open spec fn reset_fetched_in(dest: Seq<char>) -> CommandView {
    must(git_in(dest, seq!["reset"@, "--hard"@, "FETCH_HEAD"@]))
}

/// Fetches a branch into its remote branch, wherever that stood.
pub open spec fn fetch_branch_in(dest: Seq<char>, branch: Seq<char>) -> CommandView {
    must(
        git_in(
            dest,
            seq![
                "fetch"@,
                "origin"@,
                "+refs/heads/"@ + branch + ":refs/remotes/origin/"@ + branch,
            ],
        ),
    )
}

/// Mirrors the heads of all pull requests, and forgets those that are gone.
pub open spec fn fetch_heads_in(dest: Seq<char>) -> CommandView {
    must(
        git_in(
            dest,
            seq!["fetch"@, "--prune"@, "origin"@, "+refs/pull/*/head:refs/remotes/pr/*/head"@],
        ),
    )
}

/// Puts local changes aside, files that are not yet known to `git` among them.
pub open spec fn stash_in(dest: Seq<char>, branch: Seq<char>) -> CommandView {
    must(
        git_in(
            dest,
            seq![
                "stash"@,
                "push"@,
                "--include-untracked"@,
                "-m"@,
                "ghcache auto-stash before force-updating "@ + branch,
            ],
        ),
    )
}

/// Sets what is checked out to the remote branch.
pub open spec fn reset_in(dest: Seq<char>, branch: Seq<char>) -> CommandView {
    must(git_in(dest, seq!["reset"@, "--hard"@, remote_of(branch)]))
}

/// Sets a local branch that is not checked out to its remote branch.
pub open spec fn force_branch_in(dest: Seq<char>, branch: Seq<char>) -> CommandView {
    must(git_in(dest, seq!["branch"@, "-f"@, branch, remote_of(branch)]))
}

/// Asks which commit a name stands for.
pub open spec fn rev_parse_in(dest: Seq<char>, rev: Seq<char>) -> CommandView {
    may(git_in(dest, seq!["rev-parse"@, rev]))
}

/// Asks which branch is checked out.
pub open spec fn current_branch_in(dest: Seq<char>) -> CommandView {
    must(git_in(dest, seq!["branch"@, "--show-current"@]))
}

/// Asks what has changed locally.
pub open spec fn status_in(dest: Seq<char>) -> CommandView {
    must(git_in(dest, seq!["status"@, "--porcelain"@]))
}

fn git(dest: &str, mut rest: Vec<String>, must_succeed: bool) -> (r: Command)
    ensures
        r.deep_view() == (CommandView {
            invocation: git_in(dest@, rest.deep_view()),
            must_succeed,
        }),
{
    let ghost more = rest.deep_view();
    let mut args: Vec<String> = vec!["-C".to_owned(), dest.to_owned()];
    args.append(&mut rest);
    assert(args.deep_view() =~= seq!["-C"@, dest@] + more);
    Command { invocation: Invocation { program: "git".to_owned(), args }, must_succeed }
}

fn remote(branch: &str) -> (r: String)
    ensures
        r@ == remote_of(branch@),
{
    cat("origin/", branch)
}

fn clone_command(slug: &str, dest: &str) -> (r: Command)
    ensures
        r.deep_view() == clone_of(slug@, dest@),
{
    let args: Vec<String> = vec![
        "repo".to_owned(),
        "clone".to_owned(),
        slug.to_owned(),
        dest.to_owned(),
    ];
    assert(args.deep_view() =~= seq!["repo"@, "clone"@, slug@, dest@]);
    Command { invocation: Invocation { program: "gh".to_owned(), args }, must_succeed: true }
}

fn clone_branch(slug: &str, dest: &str, branch: &str) -> (r: Command)
    ensures
        r.deep_view() == clone_at(slug@, dest@, branch@),
{
    let args: Vec<String> = vec![
        "repo".to_owned(),
        "clone".to_owned(),
        slug.to_owned(),
        dest.to_owned(),
        "--".to_owned(),
        "--branch".to_owned(),
        branch.to_owned(),
    ];
    assert(args.deep_view() =~= seq!["repo"@, "clone"@, slug@, dest@, "--"@, "--branch"@, branch@]);
    Command { invocation: Invocation { program: "gh".to_owned(), args }, must_succeed: true }
}

fn fetch(dest: &str, branch: &str) -> (r: Command)
    ensures
        r.deep_view() == fetch_in(dest@, branch@),
{
    let args: Vec<String> = vec!["fetch".to_owned(), "origin".to_owned(), branch.to_owned()];
    assert(args.deep_view() =~= seq!["fetch"@, "origin"@, branch@]);
    git(dest, args, true)
}

fn reset_fetched(dest: &str) -> (r: Command)
    ensures
        r.deep_view() == reset_fetched_in(dest@),
{
    let args: Vec<String> = vec!["reset".to_owned(), "--hard".to_owned(), "FETCH_HEAD".to_owned()];
    assert(args.deep_view() =~= seq!["reset"@, "--hard"@, "FETCH_HEAD"@]);
    git(dest, args, true)
}

fn fetch_branch(dest: &str, branch: &str) -> (r: Command)
    ensures
        r.deep_view() == fetch_branch_in(dest@, branch@),
{
    let mut refspec: String = cat3("+refs/heads/", branch, ":refs/remotes/origin/");
    refspec.append(branch);
    let args: Vec<String> = vec!["fetch".to_owned(), "origin".to_owned(), refspec];
    assert(args.deep_view() =~= seq![
        "fetch"@,
        "origin"@,
        "+refs/heads/"@ + branch@ + ":refs/remotes/origin/"@ + branch@,
    ]);
    git(dest, args, true)
}

fn fetch_heads(dest: &str) -> (r: Command)
    ensures
        r.deep_view() == fetch_heads_in(dest@),
{
    let args: Vec<String> = vec![
        "fetch".to_owned(),
        "--prune".to_owned(),
        "origin".to_owned(),
        "+refs/pull/*/head:refs/remotes/pr/*/head".to_owned(),
    ];
    assert(args.deep_view() =~= seq![
        "fetch"@,
        "--prune"@,
        "origin"@,
        "+refs/pull/*/head:refs/remotes/pr/*/head"@,
    ]);
    git(dest, args, true)
}

fn stash(dest: &str, branch: &str) -> (r: Command)
    ensures
        r.deep_view() == stash_in(dest@, branch@),
{
    let args: Vec<String> = vec![
        "stash".to_owned(),
        "push".to_owned(),
        "--include-untracked".to_owned(),
        "-m".to_owned(),
        cat("ghcache auto-stash before force-updating ", branch),
    ];
    assert(args.deep_view() =~= seq![
        "stash"@,
        "push"@,
        "--include-untracked"@,
        "-m"@,
        "ghcache auto-stash before force-updating "@ + branch@,
    ]);
    git(dest, args, true)
}

fn reset(dest: &str, branch: &str) -> (r: Command)
    ensures
        r.deep_view() == reset_in(dest@, branch@),
{
    let args: Vec<String> = vec!["reset".to_owned(), "--hard".to_owned(), remote(branch)];
    assert(args.deep_view() =~= seq!["reset"@, "--hard"@, remote_of(branch@)]);
    git(dest, args, true)
}

fn force_branch(dest: &str, branch: &str) -> (r: Command)
    ensures
        r.deep_view() == force_branch_in(dest@, branch@),
{
    let args: Vec<String> = vec![
        "branch".to_owned(),
        "-f".to_owned(),
        branch.to_owned(),
        remote(branch),
    ];
    assert(args.deep_view() =~= seq!["branch"@, "-f"@, branch@, remote_of(branch@)]);
    git(dest, args, true)
}

fn rev_parse(dest: &str, rev: &str) -> (r: Command)
    ensures
        r.deep_view() == rev_parse_in(dest@, rev@),
{
    let args: Vec<String> = vec!["rev-parse".to_owned(), rev.to_owned()];
    assert(args.deep_view() =~= seq!["rev-parse"@, rev@]);
    git(dest, args, false)
}

fn current_branch(dest: &str) -> (r: Command)
    ensures
        r.deep_view() == current_branch_in(dest@),
{
    let args: Vec<String> = vec!["branch".to_owned(), "--show-current".to_owned()];
    assert(args.deep_view() =~= seq!["branch"@, "--show-current"@]);
    git(dest, args, true)
}

fn status(dest: &str) -> (r: Command)
    ensures
        r.deep_view() == status_in(dest@),
{
    let args: Vec<String> = vec!["status".to_owned(), "--porcelain".to_owned()];
    assert(args.deep_view() =~= seq!["status"@, "--porcelain"@]);
    git(dest, args, true)
}

// ---- plans -------------------------------------------------------------------------
/// What is run where another branch than the default branch is checked out: the default
/// branch is set to its remote branch, and what is checked out is left alone.
pub open spec fn background_plan(dest: Seq<char>, branch: Seq<char>) -> Seq<CommandView> {
    seq![
        rev_parse_in(dest, branch),
        fetch_branch_in(dest, branch),
        rev_parse_in(dest, remote_of(branch)),
        force_branch_in(dest, branch),
        rev_parse_in(dest, branch),
    ]
}

/// What is run where the default branch is checked out: local changes are put aside if
/// there are any, and what is checked out is set to the remote branch.
pub open spec fn foreground_plan(dest: Seq<char>, branch: Seq<char>, clean: bool) -> Seq<
    CommandView,
> {
    let start = seq![rev_parse_in(dest, "HEAD"@)];
    let aside = if clean {
        start
    } else {
        start.push(stash_in(dest, branch))
    };
    aside + seq![
        fetch_branch_in(dest, branch),
        rev_parse_in(dest, remote_of(branch)),
        reset_in(dest, branch),
        rev_parse_in(dest, "HEAD"@),
    ]
}

/// A plan with the heads of the pull requests at its end, if they are wanted.
pub open spec fn with_heads(
    plan: Seq<CommandView>,
    dest: Seq<char>,
    wanted: bool,
) -> Seq<CommandView> {
    if wanted {
        plan.push(fetch_heads_in(dest))
    } else {
        plan
    }
}

// ---- explicit checkouts ------------------------------------------------------------
/// Gives the commit of a branch, as it was last synced.
pub const SELECT_SHA: &'static str = "SELECT sha FROM branch WHERE repo_id = ?1 AND name = ?2";

/// Gives the branch and the commit that were last checked out into a directory.
pub const SELECT_CHECKOUT: &'static str = "SELECT branch, sha FROM checkout
         WHERE repo_id = ?1 AND local_path = ?2 ORDER BY checked_out_at DESC LIMIT 1";

/// Records a checkout.
pub const UPSERT_CHECKOUT: &'static str =
    "INSERT INTO checkout (repo_id, branch, local_path, sha, checked_out_at)
         VALUES (?1, ?2, ?3, ?4, ?5)
         ON CONFLICT(repo_id, branch) DO UPDATE SET
             local_path     = excluded.local_path,
             sha            = excluded.sha,
             checked_out_at = excluded.checked_out_at";

/// The query for the commit of a branch.
pub fn select_sha(repo_id: i64, branch: &str) -> (r: Statement)
    ensures
        r.deep_view() == sha_query(repo_id, branch@),
        r.deep_view() == (StatementView {
            sql: SELECT_SHA@,
            params: seq![SqlView::Integer(repo_id), SqlView::Text(branch@)],
        }),
{
    let params: Vec<SqlValue> = vec![SqlValue::Integer(repo_id), SqlValue::text(branch)];
    assert(params.deep_view() =~= seq![SqlView::Integer(repo_id), SqlView::Text(branch@)]);
    Statement { sql: SELECT_SHA.to_owned(), params }
}

/// The commit of a branch, by the answer to the query for it; none where it is not known.
pub open spec fn sha_in(rows: Seq<Seq<SqlView>>) -> Option<Seq<char>> {
    if rows.len() == 0 {
        None
    } else {
        sql::text_in(rows[0], 0)
    }
}

/// Reads the commit of a branch.
pub fn read_sha(rows: &Vec<Row>) -> (r: Option<String>)
    ensures
        r.deep_view() == sha_in(rows.deep_view()),
{
    if rows.len() == 0 {
        return None;
    }
    match get_text(&rows[0], 0) {
        Ok(sha) => Some(sha),
        Err(_) => None,
    }
}

/// The query for what was last checked out into a directory.
pub fn select_checkout(repo_id: i64, dest: &str) -> (r: Statement)
    ensures
        r.deep_view() == checkout_query(repo_id, dest@),
        r.deep_view() == (StatementView {
            sql: SELECT_CHECKOUT@,
            params: seq![SqlView::Integer(repo_id), SqlView::Text(dest@)],
        }),
{
    let params: Vec<SqlValue> = vec![SqlValue::Integer(repo_id), SqlValue::text(dest)];
    assert(params.deep_view() =~= seq![SqlView::Integer(repo_id), SqlView::Text(dest@)]);
    Statement { sql: SELECT_CHECKOUT.to_owned(), params }
}

/// The branch and the commit that were last checked out, by the answer to the query for them.
pub open spec fn checkout_in(rows: Seq<Seq<SqlView>>) -> Option<(Seq<char>, Seq<char>)> {
    if rows.len() == 0 {
        None
    } else {
        match (sql::text_in(rows[0], 0), sql::text_in(rows[0], 1)) {
            (Some(branch), Some(sha)) => Some((branch, sha)),
            _ => None,
        }
    }
}

/// Reads the branch and the commit that were last checked out.
pub fn read_checkout(rows: &Vec<Row>) -> (r: Option<(String, String)>)
    ensures
        r.deep_view() == checkout_in(rows.deep_view()),
{
    if rows.len() == 0 {
        return None;
    }
    match (get_text(&rows[0], 0), get_text(&rows[0], 1)) {
        (Ok(branch), Ok(sha)) => Some((branch, sha)),
        _ => None,
    }
}

/// The statement that records a checkout.
pub open spec fn checkout_record(
    repo_id: i64,
    branch: Seq<char>,
    dest: Seq<char>,
    sha: Seq<char>,
    now: Seq<char>,
) -> StatementView {
    StatementView {
        sql: UPSERT_CHECKOUT@,
        params: seq![
            SqlView::Integer(repo_id),
            SqlView::Text(branch),
            SqlView::Text(dest),
            SqlView::Text(sha),
            SqlView::Text(now),
        ],
    }
}

/// What is run to learn which commit is checked out.
pub fn head_of(dest: &str) -> (r: Command)
    ensures
        r.deep_view() == rev_parse_in(dest@, "HEAD"@),
{
    rev_parse(dest, "HEAD")
}

/// The statement that records what was checked out, by how the question which commit that is
/// ended and what it printed.
pub open spec fn record_of(
    repo_id: i64,
    branch: Seq<char>,
    dest: Seq<char>,
    success: bool,
    stdout: Seq<u8>,
    now: Seq<char>,
) -> Option<StatementView> {
    if success {
        Some(
            checkout_record(repo_id, branch, dest, text::trimmed(text::utf8_lossy(stdout)), now),
        )
    } else {
        None
    }
}

/// The query for the commit of a branch.
pub open spec fn sha_query(repo_id: i64, branch: Seq<char>) -> StatementView {
    StatementView {
        sql: SELECT_SHA@,
        params: seq![SqlView::Integer(repo_id), SqlView::Text(branch)],
    }
}

/// The query for what was last checked out somewhere.
pub open spec fn checkout_query(repo_id: i64, dest: Seq<char>) -> StatementView {
    StatementView {
        sql: SELECT_CHECKOUT@,
        params: seq![SqlView::Integer(repo_id), SqlView::Text(dest)],
    }
}

/// The statement that records what was checked out, by the answer to the question which commit
/// that is. Where there is no answer, nothing is recorded.
pub fn record_checkout(
    repo_id: i64,
    branch: &str,
    dest: &str,
    head: &Finished,
    now: &str,
) -> (r: Option<Statement>)
    ensures
        r.deep_view() == record_of(repo_id, branch@, dest@, head.success, head.stdout@, now@),
        r.deep_view() == (if head.success {
            Some(
                checkout_record(
                    repo_id,
                    branch@,
                    dest@,
                    text::trimmed(text::utf8_lossy(head.stdout@)),
                    now@,
                ),
            )
        } else {
            None
        }),
{
    if !head.success {
        return None;
    }
    let out: String = from_utf8_lossy(head.stdout.as_slice());
    let sha: &str = trim(out.as_str());
    let params: Vec<SqlValue> = vec![
        SqlValue::Integer(repo_id),
        SqlValue::text(branch),
        SqlValue::text(dest),
        SqlValue::text(sha),
        SqlValue::text(now),
    ];
    let r: Statement = Statement { sql: UPSERT_CHECKOUT.to_owned(), params };
    assert(r.deep_view() =~= checkout_record(repo_id, branch@, dest@, sha@, now@));
    Some(r)
}

/// Whether a directory holds the commit of a branch already: that branch was checked out last,
/// at the commit that it was last synced at.
pub open spec fn is_current(
    branch: Seq<char>,
    known: Option<Seq<char>>,
    last: Option<(Seq<char>, Seq<char>)>,
) -> bool {
    known is Some && last == Some((branch, known->Some_0))
}

/// What is run for an explicit checkout of a branch: a clone where there is none yet, else a
/// fetch of the branch, after which what is checked out is set to what was fetched. Nothing is
/// run where the checkout is current.
pub open spec fn one_plan(
    slug: Seq<char>,
    dest: Seq<char>,
    exists: bool,
    branch: Seq<char>,
    current: bool,
) -> Seq<CommandView> {
    if !exists {
        seq![clone_at(slug, dest, branch)]
    } else if current {
        Seq::empty()
    } else {
        seq![fetch_in(dest, branch), reset_fetched_in(dest)]
    }
}

/// A repository that is not in the cache.
#[derive(Clone, Copy, PartialEq, Eq, Structural, Debug)]
pub struct UnknownRepo;

/// What is run for an explicit checkout of a branch of a repository; nothing can be where the
/// repository is not in the cache.
pub open spec fn asked_plan(
    repo_id: Option<i64>,
    owner: Seq<char>,
    name: Seq<char>,
    dest: Seq<char>,
    exists: bool,
    branch: Seq<char>,
    known: Option<Seq<char>>,
    last: Option<(Seq<char>, Seq<char>)>,
) -> Option<Seq<CommandView>> {
    match repo_id {
        Some(_) => Some(
            one_plan(
                config::slug_of(owner, name),
                dest,
                exists,
                branch,
                is_current(branch, known, last),
            ),
        ),
        None => None,
    }
}

/// What is run for an explicit checkout of a branch of a repository, whose id in the cache
/// is `repo_id`. There is a checkout at `dest` where `exists` says so; `known` is the commit
/// that the branch was last synced at, and `last` what was last checked out into `dest`.
pub fn checkout_one(
    repo_id: Option<i64>,
    owner: &str,
    name: &str,
    dest: &str,
    exists: bool,
    branch: &str,
    known: Option<&str>,
    last: Option<(&str, &str)>,
) -> (r: Result<Vec<Command>, UnknownRepo>)
    ensures
        match r {
            Ok(plan) => asked_plan(
                repo_id,
                owner@,
                name@,
                dest@,
                exists,
                branch@,
                known.deep_view(),
                last.deep_view(),
            ) == Some(plan.deep_view()),
            Err(_) => asked_plan(
                repo_id,
                owner@,
                name@,
                dest@,
                exists,
                branch@,
                known.deep_view(),
                last.deep_view(),
            ) is None,
        },
        match r {
            Ok(plan) => repo_id is Some && plan.deep_view() == one_plan(
                config::slug_of(owner@, name@),
                dest@,
                exists,
                branch@,
                is_current(branch@, known.deep_view(), last.deep_view()),
            ),
            Err(_) => repo_id is None,
        },
{
    if repo_id.is_none() {
        return Err(UnknownRepo);
    }
    if !exists {
        let full: String = slug(owner, name);
        let plan: Vec<Command> = vec![clone_branch(full.as_str(), dest, branch)];
        assert(plan.deep_view() =~= seq![clone_at(full@, dest@, branch@)]);
        return Ok(plan);
    }
    let current: bool = match (known, last) {
        (Some(sha), Some((there, at))) => same(there, branch) && same(at, sha),
        _ => false,
    };
    let plan: Vec<Command> = if current {
        Vec::new()
    } else {
        vec![fetch(dest, branch), reset_fetched(dest)]
    };
    assert(plan.deep_view() =~= one_plan(
        config::slug_of(owner@, name@),
        dest@,
        exists,
        branch@,
        current,
    ));
    Ok(plan)
}

fn push_command(plan: &mut Vec<Command>, command: Command)
    ensures
        final(plan).deep_view() == old(plan).deep_view().push(command.deep_view()),
{
    plan.push(command);
    assert(plan.deep_view() =~= old(plan).deep_view().push(command.deep_view()));
}

fn in_background(dest: &str, branch: &str) -> (r: Vec<Command>)
    ensures
        r.deep_view() == background_plan(dest@, branch@),
{
    let there: String = remote(branch);
    let r: Vec<Command> = vec![
        rev_parse(dest, branch),
        fetch_branch(dest, branch),
        rev_parse(dest, there.as_str()),
        force_branch(dest, branch),
        rev_parse(dest, branch),
    ];
    assert(r.deep_view() =~= background_plan(dest@, branch@));
    r
}

fn in_foreground(dest: &str, branch: &str, clean: bool) -> (r: Vec<Command>)
    ensures
        r.deep_view() == foreground_plan(dest@, branch@, clean),
{
    let there: String = remote(branch);
    let mut r: Vec<Command> = vec![rev_parse(dest, "HEAD")];
    assert(r.deep_view() =~= seq![rev_parse_in(dest@, "HEAD"@)]);
    if !clean {
        push_command(&mut r, stash(dest, branch));
    }
    push_command(&mut r, fetch_branch(dest, branch));
    push_command(&mut r, rev_parse(dest, there.as_str()));
    push_command(&mut r, reset(dest, branch));
    push_command(&mut r, rev_parse(dest, "HEAD"));
    assert(r.deep_view() =~= foreground_plan(dest@, branch@, clean));
    r
}

// ---- the update --------------------------------------------------------------------
/// An update of one checkout.
pub struct Checkout {
    dest: String,
    branch: String,
    heads: bool,
    stage: CheckoutStage,
}

/// What an update waits for.
enum CheckoutStage {
    /// The name of the branch that is checked out.
    Branch,
    /// What has changed locally.
    Status,
    /// That a command has run, with those that are still to be run.
    Work { must_succeed: bool, rest: Vec<Command> },
}

/// What an update is.
pub struct CheckoutView {
    pub dest: Seq<char>,
    pub branch: Seq<char>,
    pub heads: bool,
    pub stage: CheckoutStageView,
}

/// What an update waits for.
pub enum CheckoutStageView {
    Branch,
    Status,
    Work { must_succeed: bool, rest: Seq<CommandView> },
}

impl DeepView for Checkout {
    type V = CheckoutView;

    closed spec fn deep_view(&self) -> CheckoutView {
        CheckoutView {
            dest: self.dest@,
            branch: self.branch@,
            heads: self.heads,
            stage: match self.stage {
                CheckoutStage::Branch => CheckoutStageView::Branch,
                CheckoutStage::Status => CheckoutStageView::Status,
                CheckoutStage::Work { must_succeed, rest } => CheckoutStageView::Work {
                    must_succeed,
                    rest: rest.deep_view(),
                },
            },
        }
    }
}

/// How an update goes on.
pub enum CheckoutStep {
    /// It asks for a program to be run.
    Run(Checkout, Invocation),
    /// It is done.
    Done,
    /// It has failed.
    Failed,
}

/// What a step of an update is.
pub enum CheckoutStepView {
    Run(CheckoutView, InvocationView),
    Done,
    Failed,
}

impl DeepView for CheckoutStep {
    type V = CheckoutStepView;

    open spec fn deep_view(&self) -> CheckoutStepView {
        match self {
            CheckoutStep::Run(c, i) => CheckoutStepView::Run(c.deep_view(), i.deep_view()),
            CheckoutStep::Done => CheckoutStepView::Done,
            CheckoutStep::Failed => CheckoutStepView::Failed,
        }
    }
}

impl CheckoutView {
    /// The step to the next command of a plan, or to the end.
    pub open spec fn work(self, plan: Seq<CommandView>) -> CheckoutStepView {
        if plan.len() == 0 {
            CheckoutStepView::Done
        } else {
            CheckoutStepView::Run(
                CheckoutView {
                    stage: CheckoutStageView::Work {
                        must_succeed: plan[0].must_succeed,
                        rest: plan.skip(1),
                    },
                    ..self
                },
                plan[0].invocation,
            )
        }
    }

    /// The first step of the update of a checkout at `dest`.
    pub open spec fn start(task: TaskView, dest: Seq<char>, exists: bool) -> CheckoutStepView {
        let checkout = CheckoutView {
            dest,
            branch: task.default_branch,
            heads: task.fetch_pr_branches,
            stage: CheckoutStageView::Branch,
        };
        if exists {
            CheckoutStepView::Run(checkout, current_branch_in(dest).invocation)
        } else {
            checkout.work(
                with_heads(
                    seq![clone_of(config::slug_of(task.owner, task.name), dest)],
                    dest,
                    task.fetch_pr_branches,
                ),
            )
        }
    }

    /// The step that an update takes when a program has come to its end, successfully or
    /// not, and has written `stdout`. `None` is for a program that could not be run.
    pub open spec fn next(self, ended: Option<(bool, Seq<u8>)>) -> CheckoutStepView {
        match ended {
            None => CheckoutStepView::Failed,
            Some((success, stdout)) => match self.stage {
                CheckoutStageView::Branch => if !success {
                    CheckoutStepView::Failed
                } else if text::trimmed(text::utf8_lossy(stdout)) != self.branch {
                    self.work(
                        with_heads(
                            background_plan(self.dest, self.branch),
                            self.dest,
                            self.heads,
                        ),
                    )
                } else {
                    CheckoutStepView::Run(
                        CheckoutView { stage: CheckoutStageView::Status, ..self },
                        status_in(self.dest).invocation,
                    )
                },
                CheckoutStageView::Status => if !success {
                    CheckoutStepView::Failed
                } else {
                    self.work(
                        with_heads(
                            foreground_plan(self.dest, self.branch, stdout.len() == 0),
                            self.dest,
                            self.heads,
                        ),
                    )
                },
                CheckoutStageView::Work { must_succeed, rest } => if must_succeed && !success {
                    CheckoutStepView::Failed
                } else {
                    self.work(rest)
                },
            },
        }
    }
}

/// What a program that has come to its end did.
pub open spec fn ended(reply: Option<Finished>) -> Option<(bool, Seq<u8>)> {
    match reply {
        Some(f) => Some((f.success, f.stdout@)),
        None => None,
    }
}

impl Checkout {
    fn work(self, mut plan: Vec<Command>) -> (r: CheckoutStep)
        ensures
            r.deep_view() == self.deep_view().work(plan.deep_view()),
    {
        if plan.len() == 0 {
            return CheckoutStep::Done;
        }
        let ghost all = plan.deep_view();
        let first: Command = plan.remove(0);
        assert(plan.deep_view() =~= all.skip(1));
        let stage: CheckoutStage = CheckoutStage::Work {
            must_succeed: first.must_succeed,
            rest: plan,
        };
        CheckoutStep::Run(Checkout { stage, ..self }, first.invocation)
    }

    fn work_with_heads(self, mut plan: Vec<Command>) -> (r: CheckoutStep)
        ensures
            r.deep_view() == self.deep_view().work(
                with_heads(plan.deep_view(), self.deep_view().dest, self.deep_view().heads),
            ),
    {
        if self.heads {
            push_command(&mut plan, fetch_heads(self.dest.as_str()));
        }
        self.work(plan)
    }

    /// The first step of the update of a checkout at `dest`; `exists` says whether it is
    /// there.
    pub fn start(task: &CheckoutTask, dest: String, exists: bool) -> (r: CheckoutStep)
        ensures
            r.deep_view() == CheckoutView::start(task.deep_view(), dest@, exists),
    {
        let first: Command = current_branch(dest.as_str());
        let name: String = slug(task.owner.as_str(), task.name.as_str());
        let clone: Command = clone_command(name.as_str(), dest.as_str());
        let checkout: Checkout = Checkout {
            dest,
            branch: task.default_branch.clone(),
            heads: task.fetch_pr_branches,
            stage: CheckoutStage::Branch,
        };
        if exists {
            CheckoutStep::Run(checkout, first.invocation)
        } else {
            let plan: Vec<Command> = vec![clone];
            assert(plan.deep_view() =~= seq![clone.deep_view()]);
            checkout.work_with_heads(plan)
        }
    }

    /// Goes on when a program has come to its end, or could not be run.
    pub fn step(self, reply: Option<Finished>) -> (r: CheckoutStep)
        ensures
            r.deep_view() == self.deep_view().next(ended(reply)),
    {
        let finished: Finished = match reply {
            Some(f) => f,
            None => {
                return CheckoutStep::Failed;
            },
        };
        match self.stage {
            CheckoutStage::Branch => {
                if !finished.success {
                    return CheckoutStep::Failed;
                }
                let out: String = from_utf8_lossy(finished.stdout.as_slice());
                let me: Checkout = Checkout { stage: CheckoutStage::Branch, ..self };
                if !same(trim(out.as_str()), me.branch.as_str()) {
                    let plan: Vec<Command> = in_background(me.dest.as_str(), me.branch.as_str());
                    me.work_with_heads(plan)
                } else {
                    let probe: Command = status(me.dest.as_str());
                    CheckoutStep::Run(
                        Checkout { stage: CheckoutStage::Status, ..me },
                        probe.invocation,
                    )
                }
            },
            CheckoutStage::Status => {
                if !finished.success {
                    return CheckoutStep::Failed;
                }
                let clean: bool = finished.stdout.len() == 0;
                let me: Checkout = Checkout { stage: CheckoutStage::Status, ..self };
                let plan: Vec<Command> = in_foreground(me.dest.as_str(), me.branch.as_str(), clean);
                me.work_with_heads(plan)
            },
            CheckoutStage::Work { must_succeed, rest } => {
                if must_succeed && !finished.success {
                    return CheckoutStep::Failed;
                }
                let me: Checkout = Checkout { stage: CheckoutStage::Branch, ..self };
                assert(me.deep_view().work(rest.deep_view()) == self.deep_view().work(
                    rest.deep_view(),
                ));
                me.work(rest)
            },
        }
    }
}

// ---- what holds of every update ----------------------------------------------------
/// What a command of `git` in a checkout does: its first argument after the checkout.
pub open spec fn deed(command: CommandView) -> Seq<char> {
    command.invocation.args[2]
}

/// Where another branch than the default branch is checked out, nothing that is run
/// changes what is checked out or the local changes: commits are asked for, branches are
/// fetched, and branches that are not checked out are set.
pub proof fn other_branch_is_left_alone(dest: Seq<char>, branch: Seq<char>, heads: bool, i: int)
    requires
        0 <= i < with_heads(background_plan(dest, branch), dest, heads).len(),
    ensures
        ({
            let command = with_heads(background_plan(dest, branch), dest, heads)[i];
            &&& command.invocation.program == "git"@
            &&& command.invocation.args.take(2) == seq!["-C"@, dest]
            &&& deed(command) == "rev-parse"@ || deed(command) == "fetch"@ || deed(command)
                == "branch"@
        }),
{
    let command = with_heads(background_plan(dest, branch), dest, heads)[i];
    assert(command.invocation.args.take(2) =~= seq!["-C"@, dest]);
}

/// Local changes on the default branch are put aside before what is checked out is set to
/// the remote branch: without changes nothing is put aside, and the remote branch was
/// fetched before it is used.
pub proof fn changes_are_put_aside_first(dest: Seq<char>, branch: Seq<char>)
    ensures
        ({
            let dirty = foreground_plan(dest, branch, false);
            let clean = foreground_plan(dest, branch, true);
            &&& dirty.len() == 6 && clean.len() == 5
            &&& dirty[1] == stash_in(dest, branch) && dirty[2] == fetch_branch_in(dest, branch)
            &&& dirty[4] == reset_in(dest, branch)
            &&& clean == dirty.remove(1)
            &&& dirty[1].must_succeed && dirty[2].must_succeed && dirty[4].must_succeed
        }),
{
    assert(foreground_plan(dest, branch, true) =~= foreground_plan(dest, branch, false).remove(1));
}

/// An update does not ask whether something happened in the repository: it goes the same
/// way whatever is known of that.
pub proof fn update_happens_in_any_case(
    task: TaskView,
    dest: Seq<char>,
    exists: bool,
    is_dirty: bool,
)
    ensures
        CheckoutView::start(task, dest, exists) == CheckoutView::start(
            TaskView { is_dirty, ..task },
            dest,
            exists,
        ),
{
}

/// A command that must succeed and does not ends an update: nothing of the rest is run.
pub proof fn failed_command_ends_the_update(
    checkout: CheckoutView,
    rest: Seq<CommandView>,
    stdout: Seq<u8>,
)
    requires
        checkout.stage == (CheckoutStageView::Work { must_succeed: true, rest }),
    ensures
        checkout.next(Some((false, stdout))) == CheckoutStepView::Failed,
{
}

/// A checkout that was recorded is not made again while the branch stays where it is: where the
/// branch is synced at the commit that was recorded, nothing is run. Where it has moved, or
/// another branch was checked out since, it is fetched again.
pub proof fn recorded_checkout_is_current(
    slug: Seq<char>,
    dest: Seq<char>,
    branch: Seq<char>,
    sha: Seq<char>,
    known: Seq<char>,
    there: Seq<char>,
)
    ensures
        one_plan(
            slug,
            dest,
            true,
            branch,
            is_current(branch, Some(known), Some((there, sha))),
        ) == (if there == branch && sha == known {
            Seq::empty()
        } else {
            seq![fetch_in(dest, branch), reset_fetched_in(dest)]
        }),
{
}

} // verus!
