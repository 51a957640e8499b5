use ghcache::checkout::{
    checkout_one, parse_slug, short_sha, Checkout, CheckoutStep, CheckoutTask,
};
use ghcache::process::{Finished, Invocation};

fn task(fetch_pr_branches: bool) -> CheckoutTask {
    CheckoutTask {
        owner: "o".into(),
        name: "n".into(),
        fs_owner: "o".into(),
        is_dirty: false,
        default_branch: "main".into(),
        fetch_pr_branches,
    }
}

fn text(inv: &Invocation) -> String {
    format!("{} {}", inv.program, inv.args.join(" "))
}

/// Runs a checkout with an outside that answers from the text of a command, and gives all
/// commands and whether it came to its end.
fn run(
    task: &CheckoutTask,
    exists: bool,
    answer: impl Fn(&str) -> Option<Finished>,
) -> (Vec<String>, bool) {
    let mut commands = Vec::new();
    let mut step = Checkout::start(task, "/s/o/n".to_owned(), exists);
    loop {
        match step {
            CheckoutStep::Run(machine, inv) => {
                let line = text(&inv);
                let reply = answer(&line);
                commands.push(line);
                step = machine.step(reply);
            }
            CheckoutStep::Done => return (commands, true),
            CheckoutStep::Failed => return (commands, false),
        }
    }
}

fn done(stdout: &str) -> Option<Finished> {
    Some(Finished { success: true, stdout: stdout.as_bytes().to_vec() })
}

#[test]
fn slugs_are_taken_apart() {
    assert_eq!(parse_slug("o/n").ok().unwrap(), ("o".to_owned(), "n".to_owned()));
    assert!(parse_slug("noname").is_err());
}

#[test]
fn commits_are_named_by_seven_bytes() {
    assert_eq!(short_sha(Some("0123456789")), "0123456");
    assert_eq!(short_sha(Some("012")), "missing");
    assert_eq!(short_sha(None), "missing");
}

#[test]
fn one_checkout_needs_a_known_repository() {
    assert!(checkout_one(None, "o", "n", "/d", false, "main", None, None).is_err());
    let clone = checkout_one(Some(1), "o", "n", "/d", false, "main", None, None).ok().unwrap();
    assert_eq!(clone.len(), 1);
    assert_eq!(text(&clone[0].invocation), "gh repo clone o/n /d -- --branch main");
    let update = checkout_one(Some(1), "o", "n", "/d", true, "dev", None, None).ok().unwrap();
    let lines: Vec<String> = update.iter().map(|c| text(&c.invocation)).collect();
    assert_eq!(lines, vec!["git -C /d fetch origin dev", "git -C /d reset --hard FETCH_HEAD"]);
    assert!(update.iter().all(|c| c.must_succeed));
}

#[test]
fn current_checkout_is_left_as_it_is() {
    let plan = |exists, known, last| {
        checkout_one(Some(1), "o", "n", "/d", exists, "main", known, last).ok().unwrap().len()
    };
    assert_eq!(plan(true, Some("abc"), Some(("main", "abc"))), 0);
    assert_eq!(plan(true, Some("abd"), Some(("main", "abc"))), 2);
    assert_eq!(plan(true, Some("abc"), Some(("dev", "abc"))), 2);
    assert_eq!(plan(true, None, Some(("main", "abc"))), 2);
    assert_eq!(plan(true, Some("abc"), None), 2);
    assert_eq!(plan(false, Some("abc"), Some(("main", "abc"))), 1);
}

#[test]
fn missing_checkout_is_cloned() {
    let (commands, ok) = run(&task(false), false, |_| done(""));
    assert!(ok);
    assert!(commands[0].starts_with("gh repo clone o/n /s/o/n"));
}

#[test]
fn clean_checkout_on_its_branch_is_moved_forward() {
    let (commands, ok) = run(&task(false), true, |c| {
        if c.contains("branch --show-current") {
            done("main\n")
        } else {
            done("")
        }
    });
    assert!(ok, "{commands:?}");
    assert!(commands.iter().any(|c| c.contains("fetch")), "{commands:?}");
    assert!(!commands.iter().any(|c| c.contains("stash")), "{commands:?}");
}

#[test]
fn other_branch_stays_checked_out() {
    let (commands, ok) = run(&task(false), true, |c| {
        if c.contains("branch --show-current") {
            done("feature\n")
        } else {
            done("")
        }
    });
    assert!(ok, "{commands:?}");
    assert!(!commands.iter().any(|c| c.contains("reset --hard")), "{commands:?}");
    assert!(!commands.iter().any(|c| c.contains(" checkout ")), "{commands:?}");
}

#[test]
fn changes_are_stashed_before_the_branch_is_moved() {
    let (commands, ok) = run(&task(false), true, |c| {
        if c.contains("branch --show-current") {
            done("main\n")
        } else if c.contains("status") {
            done("?? new.txt\n")
        } else {
            done("")
        }
    });
    assert!(ok, "{commands:?}");
    let stash = commands.iter().position(|c| c.contains("stash")).expect("a stash");
    let reset = commands.iter().position(|c| c.contains("reset --hard")).expect("a reset");
    assert!(stash < reset, "{commands:?}");
}

#[test]
fn failed_command_ends_the_checkout() {
    let (commands, ok) = run(&task(false), true, |_| {
        Some(Finished { success: false, stdout: Vec::new() })
    });
    assert!(!ok);
    assert!(!commands.is_empty());
    let (_, ok) = run(&task(false), true, |_| None);
    assert!(!ok);
}

#[test]
fn heads_of_pull_requests_are_fetched_on_demand() {
    let answer = |c: &str| {
        if c.contains("branch --show-current") {
            done("main\n")
        } else {
            done("")
        }
    };
    let (with, ok) = run(&task(true), true, answer);
    assert!(ok, "{with:?}");
    assert!(with.iter().any(|c| c.contains("refs/pull/")), "{with:?}");
    let (without, ok) = run(&task(false), true, answer);
    assert!(ok);
    assert!(!without.iter().any(|c| c.contains("refs/pull/")), "{without:?}");
}

#[test]
fn update_happens_whether_or_not_something_happened() {
    let answer = |c: &str| if c.contains("branch --show-current") { done("main\n") } else { done("") };
    let mut dirty = task(false);
    dirty.is_dirty = true;
    assert_eq!(run(&dirty, true, answer), run(&task(false), true, answer));
}
