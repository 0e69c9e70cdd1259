use rtk::embedded::git_rendering::{
    can_cut_commit, render_git_commit_output, render_git_diff_output, render_git_fetch_output,
    render_git_output, render_git_pull_output, render_git_push_output, render_git_show_output,
};
use rtk::embedded::{plan, render_diff_output, GitRenderer, RenderError, StepResult};

fn ok(output: &str) -> StepResult<'_> {
    StepResult { output, succeeded: true }
}

fn failed(output: &str) -> StepResult<'_> {
    StepResult { output, succeeded: false }
}

fn shown(command: &str, results: &[StepResult<'_>]) -> String {
    plan(command, &[]).expect("should be planned").render(results).expect("should be shown")
}

#[test]
fn results_are_counted() {
    let p = plan("git diff", &[]).expect("planned");
    match p.render(&[ok("x")]) {
        Err(RenderError::ResultCount { expected, got }) => assert_eq!((expected, got), (2, 1)),
        _ => panic!("one result is missing"),
    }
    let e = p.render(&[]).expect_err("two results are missing");
    assert_eq!(e.message(), "expected 2 RTK step results, got 0");
}

#[test]
fn a_missing_filter_is_named() {
    let e: RenderError<String> = RenderError::MissingFilter { command: "x y".to_string() };
    assert_eq!(e.message(), "missing builtin TOML filter for command: x y");
}

#[test]
fn shows_what_adding_did() {
    let add = |a, b| shown("git add x", &[a, b]);
    assert_eq!(add(failed(" fatal: no\n"), ok("")), "fatal: no");
    assert_eq!(add(ok(""), ok("")), "ok (nothing to add)");
    assert_eq!(add(ok(""), ok("a\n \n")), "ok (nothing to add)");
    assert_eq!(add(ok(""), ok("a\n 2 files \n")), "ok ✓ 2 files");
}

#[test]
fn shows_what_changing_branches_did() {
    assert_eq!(shown("git branch new", &[ok("")]), "ok ✓");
    assert_eq!(shown("git branch new", &[failed(" fatal: x \n")]), "fatal: x");
    assert_eq!(
        shown("git branch", &[ok("* main\n  dev\n  remotes/origin/HEAD -> origin/main\n")]),
        "* main\ndev"
    );
    assert_eq!(shown("git branch", &[ok("")]), "No branches");
}

#[test]
fn shows_the_hash_of_a_commit() {
    let commit = |r| render_git_commit_output(r);
    assert_eq!(commit(ok("[main (root-commit) 0123456789] x\n 1 file")), "ok ✓ 0123456");
    assert_eq!(commit(ok("[main abc] short hash")), "ok ✓");
    assert_eq!(commit(ok("no bracket")), "ok ✓");
    assert_eq!(commit(ok("")), "ok ✓");
    assert_eq!(commit(ok("[] x")), "ok ✓");
    assert_eq!(commit(ok("xabcdefghi] y")), "ok ✓ abcdefg");
}

#[test]
fn shows_why_a_commit_failed() {
    assert_eq!(
        render_git_commit_output(failed("On branch main\nnothing to commit, clean\n")),
        "ok (nothing to commit)"
    );
    assert_eq!(render_git_commit_output(failed(" error: x\n")), "error: x");
}

#[test]
fn knows_which_commits_can_be_cut() {
    assert!(can_cut_commit(""));
    assert!(can_cut_commit("[main abc1234] x"));
    assert!(can_cut_commit("é no bracket"));
    assert!(!can_cut_commit("] x"));
    assert!(!can_cut_commit("é] x"));
    assert!(!can_cut_commit("[main ééééé] x"));
    assert!(can_cut_commit("[main aééé] x"));
    let p = plan("git commit", &[]).expect("planned");
    assert!(!p.can_render(&[ok("] x")]));
    assert!(p.can_render(&[failed("] x")]));
    assert!(p.can_render(&[]));
    assert!(plan("git push", &[]).expect("planned").can_render(&[ok("] x")]));
}

#[test]
fn a_hash_is_cut_at_a_byte() {
    assert_eq!(render_git_commit_output(ok("[main aééé] x")), "ok ✓ aééé");
}

#[test]
fn shows_a_diff_behind_its_numbers() {
    assert_eq!(render_git_diff_output(" \n", "", 500), "");
    assert_eq!(render_git_diff_output(" 1 file \n", "", 500), "1 file");
    let diff = "diff --git a/x b/x\n--- a/x\n+++ b/x\n@@ -1 +1 @@\n-a\n+b\n c\n";
    assert_eq!(render_git_diff_output("", diff, 500), "📄 x\n@@ -1 +1 @@\n  -a\n  +b");
    assert_eq!(
        render_git_diff_output("1 file", diff, 2),
        "1 file\n\n--- Changes ---\n📄 x\n@@ -1 +1 @@\n... (more changes truncated)"
    );
}

#[test]
fn shows_a_commit_in_parts() {
    assert_eq!(render_git_show_output(" ", "", "", 500), "");
    assert_eq!(render_git_show_output("abc x", "", "", 500), "abc x");
    assert_eq!(
        render_git_show_output("abc x\n", " 1 file\n", "diff --git a/x b/x\n+b\n", 500),
        "abc x\n1 file\n📄 x\n  +b"
    );
    assert_eq!(render_git_show_output("abc x", "1 file", "no diff", 500), "abc x\n1 file");
    assert_eq!(shown("git show --stat", &[ok(" as it is \n")]), "as it is");
}

#[test]
fn shows_where_a_push_went() {
    let push = |r| render_git_push_output(r);
    assert_eq!(push(failed(" rejected \n")), "rejected");
    assert_eq!(push(ok("To x\n   a..b  main -> origin/main\n c -> d\n")), "ok ✓ origin/main");
    assert_eq!(push(ok("nothing special")), "ok ✓");
    assert_eq!(push(ok("Everything up-to-date")), "ok (up-to-date)");
}

#[test]
fn shows_what_a_pull_changed() {
    let pull = |r| render_git_pull_output(r);
    assert_eq!(pull(failed(" conflict \n")), "conflict");
    assert_eq!(pull(ok("Already up-to-date.")), "ok (up-to-date)");
    assert_eq!(pull(ok("Updating a..b\n")), "ok ✓");
    assert_eq!(
        pull(ok("Fast-forward\n 3 files changed, 10 insertions(+), 2 deletions(-)\n")),
        "ok ✓ 3 files +10 -2"
    );
    assert_eq!(pull(ok(" 1 file changed, 4 deletions(-)")), "ok ✓ 1 files +0 -4");
    assert_eq!(pull(ok(" x files changed, 1 insertion(+)")), "ok ✓");
    assert_eq!(pull(ok(" -1 files changed")), "ok ✓");
    assert_eq!(pull(ok(" 99999999999 files changed")), "ok ✓");
    assert_eq!(
        pull(ok(" 1 file changed, 5 insertions(+)\n 2 files changed, 6 deletions(-)\n")),
        "ok ✓ 2 files +5 -6"
    );
}

#[test]
fn counts_what_was_fetched() {
    let fetch = |r| render_git_fetch_output(r);
    assert_eq!(fetch(failed(" no remote \n")), "no remote");
    assert_eq!(fetch(ok("From x\n")), "ok fetched");
    assert_eq!(
        fetch(ok("From x\n * [new tag] v1\n a..b main -> origin/main\n")),
        "ok fetched (2 new refs)"
    );
}

#[test]
fn shows_the_stash() {
    assert_eq!(shown("git stash pop", &[ok("x")]), "ok stash pop");
    assert_eq!(shown("git stash pop", &[failed(" x ")]), "x");
    assert_eq!(shown("git stash", &[ok("No local changes to save\n")]), "ok (nothing to stash)");
    assert_eq!(shown("git stash", &[failed(" x ")]), "x");
    assert_eq!(shown("git stash list", &[ok(" \n")]), "No stashes");
    assert_eq!(
        shown("git stash list", &[ok("stash@{0}: WIP on main: abc x\n")]),
        "stash@{0}: WIP on main: abc x"
    );
    assert_eq!(shown("git stash show", &[ok("")]), "Empty stash");
}

#[test]
fn shows_the_status() {
    assert_eq!(shown("git status", &[ok("## main...origin/main\n")]), "📌 main...origin/main\nclean");
    assert_eq!(
        shown("git status", &[ok("## main\n M a.rs\n?? b.rs\n")]),
        "📌 main\n M a.rs\n?? b.rs"
    );
    assert_eq!(
        shown("git status -v", &[ok("On branch main\n\n  (use \"git add\" to x)\n\tmodified: a\n")]),
        "On branch main\n\tmodified: a"
    );
}

#[test]
fn shows_what_changing_work_trees_did() {
    assert_eq!(shown("git worktree add x", &[ok("")]), "ok ✓");
    assert_eq!(shown("git worktree add x", &[failed(" fatal ")]), "fatal");
    assert_eq!(shown("git worktree", &[ok("")]), "No worktrees");
}

#[test]
fn shows_a_log() {
    let many: String = (0..12).map(|i| format!("c{i}\n")).collect();
    assert_eq!(shown("git log", &[ok(&many)]).lines().count(), 10);
    assert_eq!(shown("git log -n 12", &[ok(&many)]).lines().count(), 12);
    assert_eq!(shown("git log", &[ok("")]), "No commits");
    let long = "x".repeat(100);
    assert_eq!(shown("git log", &[ok(&long)]), "x".repeat(77) + "...");
}

#[test]
fn shows_comparisons() {
    assert_eq!(render_diff_output(" \n"), "✅ Files are identical");
    assert_eq!(render_diff_output("diff: x: no such file\n"), "diff: x: no such file");
    assert_eq!(
        render_diff_output("--- a\t1\n+++ b\t2\n@@ -1 +1 @@\n-x\n+y\n z\n"),
        "📄 b (+1 -1)\n  -x\n  +y"
    );
    assert_eq!(
        render_diff_output("--- a/p\n+++ b/p\n+x\n--- a/q\n+++ b/q\n-y\n-z\n"),
        "📄 p (+1 -0)\n  +x\n📄 q (+0 -2)\n  -y\n  -z"
    );
}

#[test]
fn shows_searches() {
    let search = |r| shown("grep needle src", &[r]);
    assert_eq!(search(ok(" \n")), "🔍 0 for 'needle'");
    assert_eq!(search(failed(" bad pattern \n")), "bad pattern");
    assert_eq!(search(ok("a:1:needle\nb:2:needle\n")), "🔍 2 in src:\na:1:needle\nb:2:needle");
    let many: String = (0..60).map(|i| format!("f:{i}:x\n")).collect();
    assert!(search(ok(&many)).ends_with("\nf:49:x\n... +10 more"));
    let long = "y".repeat(90);
    assert_eq!(search(ok(&long)), format!("🔍 1 in src:\n{}...", "y".repeat(77)));
}

#[test]
fn shows_listings() {
    let listing = "total 8\ndrwxr-xr-x 2 u g 4096 Jan 1 00:00 .\ndrwxr-xr-x 2 u g 4096 Jan 1 00:00 src\n\
drwxr-xr-x 2 u g 4096 Jan 1 00:00 target\n-rw-r--r-- 1 u g 12 Jan 1 00:00 a b.txt\n\
-rw-r--r-- 1 u g 5 Jan 1 00:00 .env\n";
    assert_eq!(shown("ls", &[ok(listing)]), "src/\na b.txt 12");
    assert_eq!(shown("ls -la", &[ok(listing)]), "src/\ntarget/\na b.txt 12\n.env 5");
    assert_eq!(shown("ls --all", &[ok("")]), "(empty)");
}

#[test]
fn shows_files() {
    let code = "// note\n/// doc\nfn a() {}\n\n# x\n";
    assert_eq!(shown("cat a.rs", &[ok(code)]), "/// doc\nfn a() {}\n\n# x");
    assert_eq!(shown("cat a.py", &[ok(code)]), "// note\n/// doc\nfn a() {}\n");
    assert_eq!(shown("cat a.txt", &[ok(code)]), code.trim_end());
    assert_eq!(shown("head -2 a.txt", &[ok("a\nb\nc\n")]), "a\nb\n... (1 more lines)");
    assert_eq!(shown("tail -2 a.txt", &[ok("a\nb\nc\n")]), "b\nc");
    assert_eq!(
        shown("rtk read a.rs -l aggressive -n", &[ok(code)]),
        "1 │ fn a() {}\n2 │ # x"
    );
    assert_eq!(shown("rtk read a.rs -l none", &[ok(code)]), code.trim_end());
}

#[test]
fn shows_builds_and_tests() {
    assert_eq!(shown("cargo build", &[ok("   Compiling a v1\n    Finished x\n")]), "✓ cargo build");
    assert_eq!(shown("cargo check", &[failed("Checking a\nerror: x\n")]), "error: x");
    assert_eq!(
        shown("cargo test", &[failed("running 2 tests\ntest a ... ok\ntest b ... FAILED\n")]),
        "test b ... FAILED"
    );
    assert_eq!(shown("cargo test", &[ok("")]), "✓ cargo test");
    assert_eq!(shown("cargo clippy", &[ok("")]), "✓ cargo clippy");
    assert_eq!(shown("cargo install x", &[ok("Updating x\n")]), "✓ cargo install");
    assert_eq!(shown("cargo fmt", &[ok(" x \n")]), "x");
    assert_eq!(shown("pytest", &[ok("platform linux\nt.py ... [100%]\n3 passed\n")]), "3 passed");
}

#[test]
fn shows_other_tools() {
    assert_eq!(shown("prettier .", &[ok("Checking formatting...\n")]), "✓ prettier");
    assert_eq!(shown("tree", &[ok(".\n\n0 directories\n")]), ".\n0 directories");
    assert_eq!(shown("tsc", &[ok("")]), "✓ tsc");
    assert_eq!(shown("ruff check", &[ok("[]")]), "✓ ruff check");
    assert_eq!(
        shown("ruff", &[failed("[\n  {\n    \"cell\": null,\n    \"code\": \"F401\",\n  }\n]\n")]),
        "    \"code\": \"F401\","
    );
    assert_eq!(shown("ruff format", &[ok("\n")]), "✓ ruff format");
    assert_eq!(shown("ruff version", &[ok(" ruff 1 \n")]), "ruff 1");
    assert_eq!(shown("make", &[ok("make[1]: x\n")]), "make: ok");
}

#[test]
fn space_around_output_does_not_matter() {
    for (command, output) in [
        ("git commit -m x", "[main abc1234] x"),
        ("git push", "   a..b  main -> main"),
        ("git pull", " 2 files changed, 3 insertions(+)"),
        ("git fetch", " * [new tag] v1 -> v1"),
        ("git stash", "No local changes to save"),
        ("git stash list", "stash@{0}: WIP on main"),
        ("git show --stat", " a | 1 +"),
    ] {
        let padded = format!("\n  {output} \n\n");
        assert_eq!(
            shown(command, &[ok(output)]),
            shown(command, &[ok(&padded)]),
            "{command}"
        );
    }
}

#[test]
fn changes_say_ok_or_why_they_failed() {
    for command in [
        "git branch x", "git commit", "git fetch", "git pull", "git push", "git stash", "git stash pop",
        "git worktree prune",
    ] {
        assert!(shown(command, &[ok(" x y \n")]).starts_with("ok"), "{command}");
        assert_eq!(shown(command, &[failed(" fatal: x \n")]), "fatal: x", "{command}");
    }
}

#[test]
fn what_failed_to_be_added_is_not_counted() {
    assert_eq!(render_git_output(&GitRenderer::Add, &[failed(" fatal: x\n")]), "fatal: x");
}
