//! Which commands bring a checkout up to date.

use vstd::prelude::*;

use crate::checkout;
use crate::checkout::{
    CheckoutStageView, CheckoutStepView, CheckoutView, CommandView, TaskView, SELECT_CHECKOUT,
    SELECT_SHA,
};
use crate::laws::values;
use crate::process::InvocationView;
use crate::sql::{SqlView, StatementView};
use crate::{config, text};

verus! {

/// A command of `git` in a directory, which has to succeed or need not.
pub open spec fn git(dest: Seq<char>, args: Seq<Seq<char>>, has_to_succeed: bool) -> CommandView {
    CommandView {
        invocation: InvocationView { program: "git"@, args: seq!["-C"@, dest] + args },
        must_succeed: has_to_succeed,
    }
}

/// The branch of the remote is fetched into the place where the checkout keeps it:
/// `refs/remotes/origin/` and the name of the branch.
pub open spec fn fetches(dest: Seq<char>, branch: Seq<char>) -> CommandView {
    git(
        dest,
        seq![
            "fetch"@,
            "origin"@,
            "+refs/heads/"@ + branch + ":refs/remotes/origin/"@ + branch,
        ],
        true,
    )
}

/// Where the default branch is checked out, it is set to the branch of the remote, right after
/// that was fetched, and local changes are put aside before: what is checked out is then the
/// commit that `origin/` and the name of the branch stand for.
pub proof fn checked_out_branch_is_set_to_the_remote(
    dest: Seq<char>,
    branch: Seq<char>,
    clean: bool,
)
    ensures
        checkout::foreground_plan(dest, branch, clean) == seq![
            git(dest, seq!["rev-parse"@, "HEAD"@], false),
        ] + (if clean {
            Seq::empty()
        } else {
            seq![
                git(
                    dest,
                    seq![
                        "stash"@,
                        "push"@,
                        "--include-untracked"@,
                        "-m"@,
                        "ghcache auto-stash before force-updating "@ + branch,
                    ],
                    true,
                ),
            ]
        }) + seq![
            fetches(dest, branch),
            git(dest, seq!["rev-parse"@, "origin/"@ + branch], false),
            git(dest, seq!["reset"@, "--hard"@, "origin/"@ + branch], true),
            git(dest, seq!["rev-parse"@, "HEAD"@], false),
        ],
{
    assert(checkout::foreground_plan(dest, branch, clean) =~= seq![
        git(dest, seq!["rev-parse"@, "HEAD"@], false),
    ] + (if clean {
        Seq::empty()
    } else {
        seq![
            git(
                dest,
                seq![
                    "stash"@,
                    "push"@,
                    "--include-untracked"@,
                    "-m"@,
                    "ghcache auto-stash before force-updating "@ + branch,
                ],
                true,
            ),
        ]
    }) + seq![
        fetches(dest, branch),
        git(dest, seq!["rev-parse"@, "origin/"@ + branch], false),
        git(dest, seq!["reset"@, "--hard"@, "origin/"@ + branch], true),
        git(dest, seq!["rev-parse"@, "HEAD"@], false),
    ]);
}

/// Where another branch is checked out, the default branch is set to the branch of the remote,
/// right after that was fetched; what is checked out is left alone.
pub proof fn other_branch_is_set_to_the_remote(dest: Seq<char>, branch: Seq<char>)
    ensures
        checkout::background_plan(dest, branch) == seq![
            git(dest, seq!["rev-parse"@, branch], false),
            fetches(dest, branch),
            git(dest, seq!["rev-parse"@, "origin/"@ + branch], false),
            git(dest, seq!["branch"@, "-f"@, branch, "origin/"@ + branch], true),
            git(dest, seq!["rev-parse"@, branch], false),
        ],
{
    assert(checkout::background_plan(dest, branch) =~= seq![
        git(dest, seq!["rev-parse"@, branch], false),
        fetches(dest, branch),
        git(dest, seq!["rev-parse"@, "origin/"@ + branch], false),
        git(dest, seq!["branch"@, "-f"@, branch, "origin/"@ + branch], true),
        git(dest, seq!["rev-parse"@, branch], false),
    ]);
}

/// The heads of pull requests are fetched last, and only where they are asked for.
pub proof fn heads_are_fetched_where_asked_for(plan: Seq<CommandView>, dest: Seq<char>)
    ensures
        checkout::with_heads(plan, dest, false) == plan,
        checkout::with_heads(plan, dest, true) == plan.push(
            git(
                dest,
                seq![
                    "fetch"@,
                    "--prune"@,
                    "origin"@,
                    "+refs/pull/*/head:refs/remotes/pr/*/head"@,
                ],
                true,
            ),
        ),
{
    assert(checkout::with_heads(plan, dest, true) =~= plan.push(
        git(
            dest,
            seq![
                "fetch"@,
                "--prune"@,
                "origin"@,
                "+refs/pull/*/head:refs/remotes/pr/*/head"@,
            ],
            true,
        ),
    ));
}

/// A repository that is not there is cloned by its full name to where it belongs; of one that is
/// there, which branch is checked out is asked first.
pub proof fn missing_checkout_is_cloned(task: TaskView, dest: Seq<char>, ended: (bool, Seq<u8>))
    ensures
        CheckoutView::start(task, dest, true) matches CheckoutStepView::Run(c, i) && i
            == git(dest, seq!["branch"@, "--show-current"@], true).invocation && c == (
        CheckoutView {
            dest,
            branch: task.default_branch,
            heads: task.fetch_pr_branches,
            stage: CheckoutStageView::Branch,
        }),
        CheckoutView::start(task, dest, false) matches CheckoutStepView::Run(c, i) && i == (
        InvocationView {
            program: "gh"@,
            args: seq!["repo"@, "clone"@, task.owner.push('/') + task.name, dest],
        }) && c.stage == (CheckoutStageView::Work {
            must_succeed: true,
            rest: checkout::with_heads(Seq::empty(), dest, task.fetch_pr_branches),
        }),
{
    values::full_name_is_owner_slash_name(task.owner, task.name);
    let clone = checkout::clone_of(config::slug_of(task.owner, task.name), dest);
    let plan = checkout::with_heads(seq![clone], dest, task.fetch_pr_branches);
    assert(plan[0] == clone);
    assert(plan.skip(1) =~= checkout::with_heads(Seq::empty(), dest, task.fetch_pr_branches));
}

/// The branch that is checked out decides: where it is the default branch, whether there are local
/// changes is asked, and without any output there are none; where it is another one, that is left
/// alone. A question that fails ends the update.
pub proof fn checked_out_branch_decides(
    dest: Seq<char>,
    branch: Seq<char>,
    heads: bool,
    stdout: Seq<u8>,
)
    ensures
        ({
            let asked = CheckoutView { dest, branch, heads, stage: CheckoutStageView::Branch };
            let looked = CheckoutView { dest, branch, heads, stage: CheckoutStageView::Status };
            let there = text::trimmed(text::utf8_lossy(stdout));
            &&& there == branch ==> asked.next(Some((true, stdout))) == CheckoutStepView::Run(
                looked,
                git(dest, seq!["status"@, "--porcelain"@], true).invocation,
            )
            &&& there != branch ==> asked.next(Some((true, stdout))) == asked.work(
                checkout::with_heads(checkout::background_plan(dest, branch), dest, heads),
            )
            &&& looked.next(Some((true, stdout))) == looked.work(
                checkout::with_heads(
                    checkout::foreground_plan(dest, branch, stdout.len() == 0),
                    dest,
                    heads,
                ),
            )
            &&& asked.next(Some((false, stdout))) == CheckoutStepView::Failed
            &&& looked.next(Some((false, stdout))) == CheckoutStepView::Failed
            &&& asked.next(None) == CheckoutStepView::Failed
        }),
{
}

/// The commands of a plan are run one after the other: one that has to succeed and does not ends
/// the update, one that need not does not, and after the last one it is done.
pub proof fn plan_is_run_in_order(c: CheckoutView, plan: Seq<CommandView>, stdout: Seq<u8>)
    requires
        plan.len() > 0,
    ensures
        c.work(Seq::empty()) == CheckoutStepView::Done,
        c.work(plan) matches CheckoutStepView::Run(after, i) && i == plan[0].invocation
            && after.dest == c.dest && after.branch == c.branch && after.next(Some((true, stdout)))
            == after.work(plan.skip(1)) && after.next(Some((false, stdout))) == (
        if plan[0].must_succeed {
            CheckoutStepView::Failed
        } else {
            after.work(plan.skip(1))
        }),
{
}

/// One branch is checked out as it was asked for: a missing checkout is cloned at the branch; one
/// that is there is set to what is fetched of the branch, unless it is known to be there already.
pub proof fn one_branch_is_checked_out(
    slug: Seq<char>,
    dest: Seq<char>,
    branch: Seq<char>,
    current: bool,
    known: Option<Seq<char>>,
    last: Option<(Seq<char>, Seq<char>)>,
)
    ensures
        checkout::one_plan(slug, dest, false, branch, current) == seq![
            CommandView {
                invocation: InvocationView {
                    program: "gh"@,
                    args: seq!["repo"@, "clone"@, slug, dest, "--"@, "--branch"@, branch],
                },
                must_succeed: true,
            },
        ],
        checkout::one_plan(slug, dest, true, branch, true).len() == 0,
        checkout::one_plan(slug, dest, true, branch, false) == seq![
            git(dest, seq!["fetch"@, "origin"@, branch], true),
            git(dest, seq!["reset"@, "--hard"@, "FETCH_HEAD"@], true),
        ],
        checkout::is_current(branch, known, last) <==> (match (known, last) {
            (Some(sha), Some((there, at))) => there == branch && at == sha,
            _ => false,
        }),
{
    assert(checkout::one_plan(slug, dest, true, branch, false) =~= seq![
        git(dest, seq!["fetch"@, "origin"@, branch], true),
        git(dest, seq!["reset"@, "--hard"@, "FETCH_HEAD"@], true),
    ]);
}

/// What was checked out is recorded by repository and branch, and read again by where it is: the
/// one that was made last counts. The commit of a branch is read by repository and name.
pub proof fn checkouts_are_recorded_where_they_are(
    repo_id: i64,
    branch: Seq<char>,
    dest: Seq<char>,
    sha: Seq<char>,
    now: Seq<char>,
    more: Seq<Seq<SqlView>>,
)
    ensures
        checkout::checkout_record(repo_id, branch, dest, sha, now) == (StatementView {
            sql: "INSERT INTO checkout (repo_id, branch, local_path, sha, checked_out_at)
         VALUES (?1, ?2, ?3, ?4, ?5)
         ON CONFLICT(repo_id, branch) DO UPDATE SET
             local_path     = excluded.local_path,
             sha            = excluded.sha,
             checked_out_at = excluded.checked_out_at"@,
            params: seq![
                SqlView::Integer(repo_id),
                SqlView::Text(branch),
                SqlView::Text(dest),
                SqlView::Text(sha),
                SqlView::Text(now),
            ],
        }),
        SELECT_CHECKOUT@ == "SELECT branch, sha FROM checkout
         WHERE repo_id = ?1 AND local_path = ?2 ORDER BY checked_out_at DESC LIMIT 1"@,
        SELECT_SHA@ == "SELECT sha FROM branch WHERE repo_id = ?1 AND name = ?2"@,
        checkout::checkout_in(seq![seq![SqlView::Text(branch), SqlView::Text(sha)]] + more)
            == Some((branch, sha)),
        checkout::checkout_in(Seq::empty()) is None,
        checkout::sha_in(seq![seq![SqlView::Text(sha)]] + more) == Some(sha),
        checkout::sha_in(Seq::empty()) is None,
{
    let a = seq![seq![SqlView::Text(branch), SqlView::Text(sha)]];
    let b = seq![seq![SqlView::Text(sha)]];
    assert((a + more)[0] == a[0]);
    assert((b + more)[0] == b[0]);
    assert(a[0][0] == SqlView::Text(branch) && a[0][1] == SqlView::Text(sha));
    assert(b[0][0] == SqlView::Text(sha));
}

/// What was checked out is recorded where the question for its commit succeeded: the commit is
/// what was printed, without the blanks around it. The queries for it name the repository, and
/// the branch or the place.
pub proof fn checked_out_commit_is_what_was_printed(
    repo_id: i64,
    branch: Seq<char>,
    dest: Seq<char>,
    stdout: Seq<u8>,
    now: Seq<char>,
)
    ensures
        checkout::record_of(repo_id, branch, dest, true, stdout, now) == Some(
            checkout::checkout_record(
                repo_id,
                branch,
                dest,
                text::trimmed(text::utf8_lossy(stdout)),
                now,
            ),
        ),
        checkout::record_of(repo_id, branch, dest, false, stdout, now) is None,
        checkout::sha_query(repo_id, branch) == (StatementView {
            sql: "SELECT sha FROM branch WHERE repo_id = ?1 AND name = ?2"@,
            params: seq![SqlView::Integer(repo_id), SqlView::Text(branch)],
        }),
        checkout::checkout_query(repo_id, dest) == (StatementView {
            sql: "SELECT branch, sha FROM checkout
         WHERE repo_id = ?1 AND local_path = ?2 ORDER BY checked_out_at DESC LIMIT 1"@,
            params: seq![SqlView::Integer(repo_id), SqlView::Text(dest)],
        }),
{
}

/// A checkout that was asked for is made where the repository is in the cache, by its full name;
/// where it is not, nothing is run.
pub proof fn asked_checkout_needs_a_known_repository(
    id: i64,
    owner: Seq<char>,
    name: Seq<char>,
    dest: Seq<char>,
    exists: bool,
    branch: Seq<char>,
    known: Option<Seq<char>>,
    last: Option<(Seq<char>, Seq<char>)>,
)
    ensures
        checkout::asked_plan(None, owner, name, dest, exists, branch, known, last) is None,
        checkout::asked_plan(Some(id), owner, name, dest, exists, branch, known, last) == Some(
            checkout::one_plan(
                owner.push('/') + name,
                dest,
                exists,
                branch,
                match (known, last) {
                    (Some(sha), Some((there, at))) => there == branch && at == sha,
                    _ => false,
                },
            ),
        ),
{
    values::full_name_is_owner_slash_name(owner, name);
}

/// The command that tells which commit is checked out.
pub proof fn head_is_asked_for(dest: Seq<char>, rev: Seq<char>)
    ensures
        checkout::rev_parse_in(dest, rev) == git(dest, seq!["rev-parse"@, rev], false),
{
    assert(checkout::rev_parse_in(dest, rev) =~= git(dest, seq!["rev-parse"@, rev], false));
}

} // verus!
