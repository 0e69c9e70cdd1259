use rtk::embedded::{plan, StepResult};

#[test]
fn plans_ls_via_rewrite_registry() {
    let plan = plan("ls -la", &[]).expect("ls should be planned");
    assert_eq!(plan.steps()[0].shell_command(), "ls -la .");
}

#[test]
fn plans_git_log_via_rewrite_registry() {
    let plan = plan("git log -n 5", &[]).expect("git log should be planned");
    assert!(plan.steps()[0].shell_command().starts_with("git log "));
}

#[test]
fn plans_grep_via_rewrite_registry() {
    let plan = plan("grep -rn needle .", &[]).expect("grep should be planned");
    assert!(
        plan.steps()[0]
            .shell_command()
            .contains("command -v rg >/dev/null 2>&1")
    );
}

#[test]
fn plans_git_status_via_rewrite_registry() {
    let plan = plan("git status", &[]).expect("git status should be planned");
    assert_eq!(plan.steps()[0].shell_command(), "git status --porcelain -b");
}

#[test]
fn plans_git_diff_via_rewrite_registry() {
    let plan = plan("git diff", &[]).expect("git diff should be planned");
    assert_eq!(plan.steps().len(), 2);
    assert!(plan.steps()[0].shell_command().starts_with("git diff --stat"));
    assert_eq!(plan.steps()[1].shell_command(), "git diff");
}

#[test]
fn plans_git_stash_list_via_rewrite_registry() {
    let plan = plan("git stash list", &[]).expect("git stash list should be planned");
    assert_eq!(plan.steps()[0].shell_command(), "git stash list");
}

#[test]
fn plans_every_supported_git_subcommand_via_rewrite_registry() {
    let commands = [
        "git status",
        "git status --short",
        "git log -n 5",
        "git diff",
        "git show HEAD",
        "git add tracked.txt",
        "git commit -m test",
        "git push origin main",
        "git pull --rebase",
        "git branch",
        "git branch feature/test",
        "git fetch --all",
        "git stash",
        "git stash list",
        "git stash show stash@{0}",
        "git stash pop",
        "git worktree list",
        "git worktree add ../feature-worktree",
    ];

    for command in commands {
        assert!(
            plan(command, &[]).is_some(),
            "expected embedded planner to support `{command}`"
        );
    }
}

#[test]
fn plans_read_from_cat_via_rewrite_registry() {
    let plan = plan("cat src/main.rs", &[]).expect("cat should be planned");
    assert_eq!(plan.steps()[0].shell_command(), "cat src/main.rs");
}

#[test]
fn plans_head_from_rewrite_registry() {
    let plan = plan("head -20 src/main.rs", &[]).expect("head should be planned");
    assert_eq!(plan.steps()[0].shell_command(), "head -20 src/main.rs");
}

#[test]
fn plans_diff_via_rewrite_registry() {
    let plan = plan("diff left.txt right.txt", &[]).expect("diff should be planned");
    assert_eq!(plan.steps()[0].shell_command(), "diff -u left.txt right.txt");
}

#[test]
fn plans_ruff_check_with_json_output() {
    let plan = plan("ruff check src", &[]).expect("ruff check should be planned");
    assert_eq!(
        plan.steps()[0].shell_command(),
        "ruff check --output-format=json src"
    );
}

#[test]
fn plans_pytest_via_rewrite_registry() {
    let plan = plan("python -m pytest tests/", &[]).expect("pytest should be planned");
    assert_eq!(plan.steps()[0].shell_command(), "python -m pytest tests/");
}

#[test]
fn plans_tsc_via_rewrite_registry() {
    let plan = plan("npx tsc --noEmit", &[]).expect("tsc should be planned");
    assert_eq!(plan.steps()[0].shell_command(), "npx tsc --noEmit");
}

#[test]
fn plans_prettier_via_rewrite_registry() {
    let plan = plan("npx prettier --check src/", &[]).expect("prettier should be planned");
    assert_eq!(plan.steps()[0].shell_command(), "npx prettier --check src/");
}

#[test]
fn plans_make_via_builtin_toml_filters() {
    let plan = plan("make", &[]).expect("make should be planned");
    assert_eq!(plan.steps()[0].shell_command(), "make");
}

#[test]
fn renders_grep_zero_results_from_empty_output() {
    let plan = plan("grep -rn missing .", &[]).expect("grep should be planned");
    let rendered = plan
        .render(&[StepResult {
            output: "",
            succeeded: false,
        }])
        .expect("render should succeed");

    assert_eq!(rendered, "🔍 0 for 'missing'");
}

#[test]
fn renders_read_output_from_head_rewrite() {
    let plan = plan("head -2 notes.txt", &[]).expect("head should be planned");
    let rendered = plan
        .render(&[StepResult {
            output: "one\ntwo\nthree\n",
            succeeded: true,
        }])
        .expect("render should succeed");

    assert!(rendered.contains("one"));
    assert!(rendered.contains("more lines"));
}

#[test]
fn renders_diff_output_from_unified_diff() {
    let plan = plan("diff left.txt right.txt", &[]).expect("diff should be planned");
    let rendered = plan
        .render(&[StepResult {
            output: "--- left.txt\n+++ right.txt\n@@ -1,2 +1,2 @@\n-old\n+new\n stable\n",
            succeeded: false,
        }])
        .expect("render should succeed");

    assert!(rendered.contains("📄 right.txt (+1 -1)"));
}

#[test]
fn renders_make_with_builtin_toml_filters() {
    let plan = plan("make", &[]).expect("make should be planned");
    let rendered = plan
        .render(&[StepResult {
            output: "make[1]: Entering directory '/tmp'\nbuilt\nmake[1]: Leaving directory '/tmp'\n",
            succeeded: true,
        }])
        .expect("render should succeed");

    assert_eq!(rendered, "built");
}

#[test]
fn renders_git_add_summary_from_follow_up_stat() {
    let plan = plan("git add tracked.txt", &[]).expect("git add should be planned");
    let rendered = plan
        .render(&[
            StepResult {
                output: "",
                succeeded: true,
            },
            StepResult {
                output: " tracked.txt | 2 +-\n 1 file changed, 1 insertion(+), 1 deletion(-)\n",
                succeeded: true,
            },
        ])
        .expect("render should succeed");

    assert_eq!(rendered, "ok ✓ 1 file changed, 1 insertion(+), 1 deletion(-)");
}

#[test]
fn renders_git_commit_summary_from_commit_output() {
    let plan = plan("git commit -m test", &[]).expect("git commit should be planned");
    let rendered = plan
        .render(&[StepResult {
            output: "[main abc1234] test message\n 1 file changed, 1 insertion(+)\n",
            succeeded: true,
        }])
        .expect("render should succeed");

    assert_eq!(rendered, "ok ✓ abc1234");
}

#[test]
fn renders_git_push_up_to_date_summary() {
    let plan = plan("git push origin main", &[]).expect("git push should be planned");
    let rendered = plan
        .render(&[StepResult {
            output: "Everything up-to-date\n",
            succeeded: true,
        }])
        .expect("render should succeed");

    assert_eq!(rendered, "ok (up-to-date)");
}

#[test]
fn renders_git_pull_up_to_date_summary() {
    let plan = plan("git pull --rebase", &[]).expect("git pull should be planned");
    let rendered = plan
        .render(&[StepResult {
            output: "Already up to date.\n",
            succeeded: true,
        }])
        .expect("render should succeed");

    assert_eq!(rendered, "ok (up-to-date)");
}

#[test]
fn renders_git_fetch_summary_with_new_refs() {
    let plan = plan("git fetch --all", &[]).expect("git fetch should be planned");
    let rendered = plan
        .render(&[StepResult {
            output: " * [new branch]      feature/test -> origin/feature/test\n",
            succeeded: true,
        }])
        .expect("render should succeed");

    assert_eq!(rendered, "ok fetched (1 new refs)");
}

#[test]
fn renders_git_stash_default_summary() {
    let plan = plan("git stash", &[]).expect("git stash should be planned");
    let rendered = plan
        .render(&[StepResult {
            output: "Saved working directory and index state WIP on main: abc1234 test\n",
            succeeded: true,
        }])
        .expect("render should succeed");

    assert_eq!(rendered, "ok stashed");
}

#[test]
fn renders_git_stash_show_as_compact_diff() {
    let plan = plan("git stash show stash@{0}", &[]).expect("git stash show should be planned");
    let rendered = plan
        .render(&[StepResult {
            output: "diff --git a/file.txt b/file.txt\n--- a/file.txt\n+++ b/file.txt\n@@ -1 +1 @@\n-old\n+new\n",
            succeeded: true,
        }])
        .expect("render should succeed");

    assert!(rendered.contains("📄 file.txt"));
}

#[test]
fn renders_git_worktree_list_compactly() {
    let plan = plan("git worktree list", &[]).expect("git worktree list should be planned");
    let rendered = plan
        .render(&[StepResult {
            output: "/tmp/repo  abc1234 [main]\n/tmp/repo-feature  def5678 [feature/test]\n",
            succeeded: true,
        }])
        .expect("render should succeed");

    assert!(rendered.contains("/tmp/repo abc1234 [main]"));
    assert!(rendered.contains("/tmp/repo-feature def5678 [feature/test]"));
}
