# rtk

Shell commands print more than there is to read. This library looks at a command line and
plans how to run it with less output: `embedded::plan` gives the shell commands to run, and
`ShellPlan::render` says what to show of what they printed. The library runs nothing; whoever
uses it runs the steps of a plan and hands back their results.

```rust
let plan = rtk::embedded::plan("git status", &[]).unwrap();
assert_eq!(plan.steps()[0].shell_command(), "git status --porcelain -b");
```

Everything under `src/` is verified with Verus. Texts are modelled as `Seq<char>`; each
function states what it returns for every input.

- `embedded` holds plans and their rendering. `embedded::planning` and
  `embedded::git_planning` say which steps a command becomes, `embedded::git_rendering` how
  the results of `git` are shown, and `embedded::laws` what holds of all plans.
- `discover::registry` finds the command behind what is set before it, and decides which tool
  it belongs to.
- `shell_words` splits command lines into words and quotes words back into command lines.
- `git`, `cargo_cmd`, `grep_cmd`, `ls`, `read`, `diff_cmd`, `toml_filter` and the other
  modules named after tools hold what is known of each tool.
- `text`, `number` and `compact` are what all of them share.

`render` asks that the results can be shown: the output of a successful `git commit` is cut at
fixed bytes to find the hash. `ShellPlan::can_render` tells.

One thing is believed without proof: that `String::push` of the standard library appends a
character (in `text`).

`app/` shows the results of a plan for callers that use `anyhow`.
