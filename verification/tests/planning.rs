use rtk::discover::registry::{rewrite_command, strip_disabled_prefix};
use rtk::embedded::git_planning::plan_git_from_raw;
use rtk::embedded::planning::{
    plan_cargo_from_raw, plan_diff_from_raw, plan_grep_from_raw, plan_ls, plan_read_from_rewritten,
    plan_ruff_from_raw, plan_toml_filter, with_env_prefix, PlanError, Tool,
};
use rtk::embedded::{plan, plan_rewritten};
use rtk::shell_words::split;

fn list(words: &[&str]) -> Vec<String> {
    words.iter().map(|w| w.to_string()).collect()
}

fn steps(command: &str) -> Vec<String> {
    plan(command, &[])
        .expect("should be planned")
        .steps()
        .iter()
        .map(|s| s.shell_command().to_string())
        .collect()
}

#[test]
fn commands_without_a_rule_have_no_plan() {
    assert!(plan("", &[]).is_none());
    assert!(plan("   ", &[]).is_none());
    assert!(plan("docker ps", &[]).is_none());
    assert!(plan("gitk", &[]).is_none());
}

#[test]
fn compound_commands_have_no_plan() {
    for command in [
        "git status; ls", "git log | head", "git add . && git commit", "ls & ls", "make &",
        "cat <<EOF", "ls $(pwd)", "ls\nls",
    ] {
        assert!(plan(command, &[]).is_none(), "{command}");
    }
}

#[test]
fn excluded_commands_have_no_plan() {
    assert!(plan("git status", &list(&["git"])).is_none());
    assert!(plan("A=1 git status", &list(&["ls", "git"])).is_none());
    assert!(plan("git status", &list(&["gi"])).is_some());
}

#[test]
fn disabled_commands_have_no_plan() {
    assert!(plan("RTK_DISABLED=1 git status", &[]).is_none());
    assert!(plan("A=1 RTK_DISABLED=1 git status", &[]).is_none());
}

#[test]
fn space_around_a_command_does_not_matter() {
    assert_eq!(steps("  git push  "), list(&["git push"]));
    assert_eq!(steps("  git status\t"), list(&["git status --porcelain -b"]));
}

#[test]
fn what_is_set_before_a_command_is_kept() {
    assert_eq!(steps("LANG=C git status"), list(&["LANG=C git status --porcelain -b"]));
    assert_eq!(steps("sudo env A=1 ls"), list(&["sudo env A=1 ls -la ."]));
    assert_eq!(with_env_prefix("A=1   B=2  git x", "git y"), "A=1   B=2 git y");
    assert_eq!(with_env_prefix("git x", "git y"), "git y");
}

#[test]
fn finds_the_command_behind_what_is_set() {
    assert_eq!(strip_disabled_prefix("  A=1 sudo git x "), "git x");
    assert_eq!(strip_disabled_prefix("git x"), "git x");
    assert_eq!(strip_disabled_prefix("A=1"), "A=1");
    assert_eq!(strip_disabled_prefix("1A=1 git"), "1A=1 git");
    assert_eq!(strip_disabled_prefix("a-b=1 git"), "a-b=1 git");
}

#[test]
fn rewrites_leading_words() {
    let none = Vec::new();
    for (from, to) in [
        ("git  log", "rtk git  log"),
        ("rg x", "rtk grep x"),
        ("python3 -m pytest -q", "rtk pytest -q"),
        ("cat a.rs", "rtk read a.rs"),
        ("head a.rs", "rtk read a.rs"),
        ("head -5 a.rs", "rtk read a.rs --max-lines 5"),
        ("head -n 5 a.rs", "rtk read a.rs --max-lines 5"),
        ("head --lines=5 a.rs", "rtk read a.rs --max-lines 5"),
        ("tail -5 a.rs", "rtk read a.rs --tail-lines 5"),
        ("rtk gain", "rtk gain"),
    ] {
        assert_eq!(rewrite_command(from, &none).as_deref(), Some(to));
    }
    assert_eq!(rewrite_command("cat -A a.rs", &none), None);
    assert_eq!(rewrite_command("cat a b", &none), None);
    assert_eq!(rewrite_command("head -c 5 a.rs", &none), None);
}

#[test]
fn rewritten_words_decide_the_plan() {
    assert!(plan_rewritten("x", "x", &list(&[])).is_none());
    assert!(plan_rewritten("x", "x", &list(&["env", "rtk"])).is_none());
    assert!(plan_rewritten("x", "x", &list(&["rtk"])).is_none());
    assert!(plan_rewritten("x", "x", &list(&["rtk", "gain"])).is_none());
    assert!(plan_rewritten("make", "make", &list(&["rtk"])).is_some());
    let p = plan_rewritten(" x y ", "x y", &list(&["rtk", "tree"])).expect("planned");
    assert_eq!(p.steps()[0].shell_command(), "x y");
}

#[test]
fn plans_ls() {
    assert_eq!(steps("ls"), list(&["ls -la ."]));
    assert_eq!(steps("ls -ltr src 'my dir'"), list(&["ls -la -tr src 'my dir'"]));
    assert_eq!(steps("ls --all --color src"), list(&["ls -la --color src"]));
    assert!(plan_ls("ls", &list(&["-a"])).is_ok());
}

#[test]
fn plans_cargo() {
    for command in ["cargo build", "cargo check", "cargo test", "cargo clippy", "cargo install x", "cargo fmt"] {
        assert_eq!(steps(command), list(&[command]));
    }
    assert!(plan("cargo run", &[]).is_none());
    assert!(plan("cargo", &[]).is_none());
}

#[test]
fn cargo_errors() {
    assert!(matches!(
        plan_cargo_from_raw("", &[]),
        Err(PlanError::MissingCommand(Tool::Cargo))
    ));
    assert!(matches!(
        plan_cargo_from_raw("x", &list(&["x"])),
        Err(PlanError::OtherCommand(Tool::Cargo))
    ));
    assert!(matches!(
        plan_cargo_from_raw("cargo", &list(&["cargo"])),
        Err(PlanError::MissingSubcommand(Tool::Cargo))
    ));
    match plan_cargo_from_raw("cargo run", &list(&["cargo", "run"])) {
        Err(PlanError::UnsupportedSubcommand(Tool::Cargo, s)) => assert_eq!(s, "run"),
        _ => panic!("no plan for cargo run"),
    }
}

#[test]
fn read_errors() {
    let read = |words: &[&str]| plan_read_from_rewritten("cat f", &list(words));
    assert!(matches!(read(&["rtk", "read"]), Err(PlanError::MissingFile)));
    assert!(matches!(read(&["rtk", "read", "f", "-l"]), Err(PlanError::MissingLevel)));
    assert!(matches!(read(&["rtk", "read", "f", "--max-lines"]), Err(PlanError::MissingMaxLines)));
    assert!(matches!(read(&["rtk", "read", "f", "--tail-lines"]), Err(PlanError::MissingTailLines)));
    match read(&["rtk", "read", "f", "--level", "high"]) {
        Err(PlanError::UnknownLevel(s)) => assert_eq!(s, "high"),
        _ => panic!("no such level"),
    }
    match read(&["rtk", "read", "f", "-m", "-1"]) {
        Err(PlanError::InvalidMaxLines(s)) => assert_eq!(s, "-1"),
        _ => panic!("no such number"),
    }
    match read(&["rtk", "read", "f", "--tail-lines", "x"]) {
        Err(PlanError::InvalidTailLines(s)) => assert_eq!(s, "x"),
        _ => panic!("no such number"),
    }
    assert!(read(&["rtk", "read", "f", "-n", "other", "-l", "none", "-m", "+3"]).is_ok());
}

#[test]
fn diff_needs_two_files() {
    assert!(matches!(
        plan_diff_from_raw("diff a", &list(&["diff", "a"])),
        Err(PlanError::UnsupportedDiff)
    ));
    assert!(matches!(
        plan_diff_from_raw("x a b", &list(&["x", "a", "b"])),
        Err(PlanError::UnsupportedDiff)
    ));
    assert_eq!(steps("A=1 diff a b"), list(&["A=1 diff -u a b"]));
    assert!(plan("diff -r a b", &[]).is_none());
}

#[test]
fn grep_finds_pattern_and_path() {
    assert_eq!(
        steps("grep -rn -i needle src --include x"),
        list(&["if command -v rg >/dev/null 2>&1; then rg -n --no-heading -i --include x -- needle src; \
else grep -rn -rn -i --include x -- needle src; fi"])
    );
    assert_eq!(
        steps("rg 'a b'"),
        list(&["if command -v rg >/dev/null 2>&1; then rg -n --no-heading -- 'a b' .; \
else grep -rn -- 'a b' .; fi"])
    );
    assert_eq!(
        steps("grep x -y"),
        list(&["if command -v rg >/dev/null 2>&1; then rg -n --no-heading -- x -y; \
else grep -rn -- x -y; fi"])
    );
}

#[test]
fn grep_errors() {
    assert!(matches!(
        plan_grep_from_raw(&[]),
        Err(PlanError::MissingCommand(Tool::Grep))
    ));
    assert!(matches!(
        plan_grep_from_raw(&list(&["ag", "x"])),
        Err(PlanError::OtherCommand(Tool::Grep))
    ));
    assert!(matches!(
        plan_grep_from_raw(&list(&["grep", "-r"])),
        Err(PlanError::MissingPattern)
    ));
}

#[test]
fn ruff_runs_the_linter() {
    assert_eq!(steps("ruff"), list(&["ruff check --output-format=json ."]));
    assert_eq!(steps("ruff check"), list(&["ruff check --output-format=json ."]));
    assert_eq!(steps("ruff src"), list(&["ruff check --output-format=json src"]));
    assert_eq!(
        steps("A=1 ruff check --select=E a=b"),
        list(&["A=1 ruff check --output-format=json --select=E a=b ."])
    );
    assert_eq!(
        steps("ruff check --output-format text src"),
        list(&["ruff check --output-format text src"])
    );
    assert_eq!(
        steps("ruff check --output-format=text"),
        list(&["ruff check --output-format=text ."])
    );
}

#[test]
fn ruff_runs_other_commands_as_they_are() {
    assert_eq!(steps("ruff format src"), list(&["ruff format src"]));
    assert_eq!(steps("ruff version"), list(&["ruff version"]));
    assert_eq!(steps("ruff --help"), list(&["ruff --help"]));
    assert_eq!(steps("ruff -v format"), list(&["ruff -v format"]));
}

#[test]
fn ruff_errors() {
    assert!(matches!(
        plan_ruff_from_raw("", &[]),
        Err(PlanError::MissingCommand(Tool::Ruff))
    ));
    assert!(matches!(
        plan_ruff_from_raw("x", &list(&["x"])),
        Err(PlanError::OtherCommand(Tool::Ruff))
    ));
}

#[test]
fn commands_with_a_filter_run_as_they_are() {
    assert_eq!(steps("A=1 make all"), list(&["A=1 make all"]));
    assert!(plan_toml_filter("make", "make -j8").is_some());
    assert!(plan_toml_filter("cmake", "cmake .").is_none());
}

#[test]
fn git_errors() {
    assert!(matches!(
        plan_git_from_raw("", &[]),
        Err(PlanError::MissingCommand(Tool::Git))
    ));
    assert!(matches!(
        plan_git_from_raw("x", &list(&["x"])),
        Err(PlanError::OtherCommand(Tool::Git))
    ));
    assert!(matches!(
        plan_git_from_raw("git", &list(&["git"])),
        Err(PlanError::MissingSubcommand(Tool::Git))
    ));
    match plan_git_from_raw("git bisect", &list(&["git", "bisect"])) {
        Err(PlanError::UnsupportedSubcommand(Tool::Git, s)) => assert_eq!(s, "bisect"),
        _ => panic!("no plan for git bisect"),
    }
    assert!(plan("git -C x status", &[]).is_none());
}

#[test]
fn plans_git_add() {
    assert_eq!(
        steps("git add"),
        list(&["git add .", "git diff --cached --stat --shortstat"])
    );
    assert_eq!(
        steps("A=1 git add a b"),
        list(&["A=1 git add a b", "A=1 git diff --cached --stat --shortstat"])
    );
}

#[test]
fn plans_git_branch() {
    assert_eq!(steps("git branch"), list(&["git branch -a --no-color"]));
    assert_eq!(steps("git branch -v"), list(&["git branch -a --no-color -v"]));
    assert_eq!(steps("git branch -r"), list(&["git branch --no-color -r"]));
    assert_eq!(
        steps("git branch --contains abc"),
        list(&["git branch --no-color --contains abc"])
    );
    assert_eq!(steps("git branch new"), list(&["git branch new"]));
    assert_eq!(steps("git branch -D old"), list(&["git branch -D old"]));
    assert_eq!(steps("git branch -a -d old"), list(&["git branch -a -d old"]));
}

#[test]
fn plans_git_diff() {
    assert_eq!(
        steps("git diff HEAD~1 src"),
        list(&["git diff --stat HEAD~1 src", "git diff HEAD~1 src"])
    );
    assert_eq!(steps("git diff --stat"), list(&["git diff --stat"]));
    assert_eq!(steps("git diff --no-compact"), list(&["git diff --no-compact"]));
}

#[test]
fn plans_git_show() {
    assert_eq!(
        steps("git show HEAD"),
        list(&[
            "git show --no-patch --pretty=format:%h\\ %s\\ (%ar)\\ <%an> HEAD",
            "git show --stat --pretty=format: HEAD",
            "git show --pretty=format: HEAD",
        ])
    );
    for command in [
        "git show --numstat", "git show --pretty=oneline", "git show --format=%h", "git show HEAD:a.rs",
    ] {
        assert_eq!(steps(command), list(&[command]));
    }
    assert_eq!(steps("git show --x=a:b").len(), 3);
}

#[test]
fn plans_git_log() {
    assert_eq!(
        steps("git log"),
        list(&["git log '--pretty=format:%h %s (%ar) <%an>' -10"])
    );
    assert_eq!(
        steps("git log -n 5 --oneline"),
        list(&["git log -n 5 --oneline"])
    );
    assert_eq!(
        steps("git log --max-count=3"),
        list(&["git log '--pretty=format:%h %s (%ar) <%an>' '--max-count=3'"])
    );
}

#[test]
fn plans_git_stash() {
    assert_eq!(steps("A=1 git stash list"), list(&["A=1 git stash list"]));
    assert_eq!(
        steps("git stash show stash@{1}"),
        list(&["git stash show -p show stash@{1}"])
    );
    for command in ["git stash", "git stash pop", "git stash apply", "git stash drop", "git stash push -m x", "git stash clear"] {
        assert_eq!(steps(command), list(&[command]));
    }
}

#[test]
fn plans_git_status_and_worktree() {
    assert_eq!(steps("git status -s"), list(&["git status -s"]));
    assert_eq!(steps("git worktree"), list(&["git worktree list"]));
    assert_eq!(steps("git worktree list -v"), list(&["git worktree list"]));
    assert_eq!(steps("git worktree remove x"), list(&["git worktree remove x"]));
}

#[test]
fn changes_run_as_they_were_written() {
    for command in [
        "git commit -m 'a  b'", "git fetch", "git pull --rebase", "git push -u origin x",
        "git branch -d x", "git worktree add ../x", "git stash", "git stash pop",
    ] {
        assert_eq!(steps(command), list(&[command]));
    }
}

#[test]
fn plans_agree_with_the_words_of_the_command() {
    let raw = "git diff --cached";
    let whole = plan(raw, &[]).expect("planned");
    let again = plan_git_from_raw(raw, &split(raw)).expect("planned");
    assert_eq!(whole.steps(), again.steps());
}

#[test]
fn a_copy_of_a_plan_is_the_same_plan() {
    let whole = plan("git show HEAD", &[]).expect("planned");
    assert_eq!(whole.clone().steps(), whole.steps());
}

#[test]
fn excluding_other_commands_changes_no_plan() {
    let left = plan("git add a", &list(&["ls", "cargo"])).expect("planned");
    let whole = plan("git add a", &[]).expect("planned");
    assert_eq!(left.steps(), whole.steps());
}

#[test]
fn putting_a_command_back_keeps_its_words() {
    let raw = "  A=1  sudo   git  log ";
    let again = with_env_prefix(raw, &strip_disabled_prefix(raw));
    assert_eq!(again, "A=1  sudo git  log");
    let words: Vec<&str> = raw.split_whitespace().collect();
    assert_eq!(again.split_whitespace().collect::<Vec<&str>>(), words);
}

#[test]
fn rewriting_keeps_the_arguments() {
    let rewritten = rewrite_command("python -m pytest -k 'a b' x", &[]).expect("rewritten");
    assert_eq!(split(&rewritten), list(&["rtk", "pytest", "-k", "a b", "x"]));
    let rewritten = rewrite_command("git\tlog", &[]).expect("rewritten");
    assert_eq!(split(&rewritten), list(&["rtk", "git", "log"]));
    assert_eq!(steps("git\tpush"), list(&["git\tpush"]));
}

#[test]
fn every_step_runs_something() {
    for (command, count) in [
        ("git add", 2), ("git diff", 2), ("git show", 3), ("git branch", 1), ("git log", 1),
        ("ls", 1), ("rg x", 1), ("diff a b", 1), ("ruff", 1), ("cat a", 1), ("make", 1),
    ] {
        let all = steps(command);
        assert_eq!(all.len(), count, "{command}");
        assert!(all.iter().all(|s| !s.is_empty()), "{command}");
    }
}
