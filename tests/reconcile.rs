use chezmoi_bridge::command::CommandOutput;
use chezmoi_bridge::reconcile::{reconcile, FileState, FileStatesPass, PassAction, PassStep};

fn ok(stdout: &str) -> Result<CommandOutput, String> {
    Ok(CommandOutput { stdout: stdout.to_string(), stderr: String::new(), success: true })
}

fn failed(stderr: &str) -> Result<CommandOutput, String> {
    Ok(CommandOutput { stdout: String::new(), stderr: stderr.to_string(), success: false })
}

fn check(f: &FileState, path: &str, local: &str, index: &str, worktree: &str, ahead: u32, behind: u32) {
    assert_eq!(f.path, path);
    assert_eq!(f.local_change, local);
    assert_eq!(f.git_index, index);
    assert_eq!(f.git_worktree, worktree);
    assert_eq!(f.commits_ahead, ahead);
    assert_eq!(f.commits_behind, behind);
}

fn args(a: &PassAction) -> Vec<String> {
    match a {
        PassAction::Run(v) => v.clone(),
        PassAction::Finish(_) => panic!("pass finished early"),
    }
}

fn outcome(a: PassAction) -> Result<Vec<FileState>, String> {
    match a {
        PassAction::Finish(r) => r,
        PassAction::Run(v) => panic!("pass still runs {:?}", v),
    }
}

#[test]
fn single_untracked_dotfile() {
    let r = reconcile(".bashrc\n", "", "?? dot_bashrc\n", &Err("no upstream".to_string()));
    assert_eq!(r.len(), 1);
    check(&r[0], ".bashrc", " ", "?", "?", 0, 0);
}

#[test]
fn basename_collision_later_line_wins() {
    let git = "M  a/init.lua\n M b/init.lua\n";
    let r = reconcile("x/init.lua\n", "", git, &Err("none".to_string()));
    assert_eq!(r.len(), 1);
    check(&r[0], "x/init.lua", " ", " ", "M", 0, 0);
    let full = reconcile("a/init.lua\n", "", git, &Err("none".to_string()));
    check(&full[0], "a/init.lua", " ", "M", " ", 0, 0);
}

#[test]
fn one_record_per_path_in_order() {
    let managed = ".zshrc\r\n\n.config/nvim/init.lua\nbin/tool\n\n";
    let r = reconcile(managed, "", "", &ok("2\t5\n"));
    assert_eq!(r.len(), 3);
    check(&r[0], ".zshrc", " ", " ", " ", 2, 5);
    check(&r[1], ".config/nvim/init.lua", " ", " ", " ", 2, 5);
    check(&r[2], "bin/tool", " ", " ", " ", 2, 5);
}

#[test]
fn unlisted_path_gets_defaults() {
    let r = reconcile(".vimrc\n.bashrc\n", "M  .bashrc\n", "A  dot_bashrc\n", &ok("1 0"));
    check(&r[0], ".vimrc", " ", " ", " ", 1, 0);
    check(&r[1], ".bashrc", "M", "A", " ", 1, 0);
}

#[test]
fn nested_source_name_found_in_full() {
    let git = " M dot_config/nvim/init.lua\nM  other/init.lua\n";
    let r = reconcile(".config/nvim/init.lua\n", "", git, &ok("0 3\n"));
    check(&r[0], ".config/nvim/init.lua", " ", " ", "M", 0, 3);
}

#[test]
fn short_status_lines_are_skipped() {
    let r = reconcile(".a\n", "M\nAD\nD  .a\n", "??\n", &ok("0 0"));
    check(&r[0], ".a", "D", " ", " ", 0, 0);
}

#[test]
fn later_local_status_line_wins() {
    let r = reconcile(".a\n", "M  .a\nR  .a\n", "", &ok("0 0"));
    check(&r[0], ".a", "R", " ", " ", 0, 0);
}

#[test]
fn counts_default_to_zero() {
    let cases = vec![
        failed("fatal: no upstream configured"),
        Err("cannot start".to_string()),
        ok("7"),
        ok("7 x"),
        ok("7 8 9"),
        ok("-1 2"),
        ok("4294967296 1"),
        ok(""),
    ];
    for c in cases {
        let r = reconcile(".a\n.b\n", "", "", &c);
        check(&r[0], ".a", " ", " ", " ", 0, 0);
        check(&r[1], ".b", " ", " ", " ", 0, 0);
    }
}

#[test]
fn counts_parsed_exactly() {
    let r = reconcile(".a\n", "", "", &ok("+12\t4294967295\n"));
    check(&r[0], ".a", " ", " ", " ", 12, 4294967295);
}

#[test]
fn pass_runs_commands_in_order() {
    let (mut pass, first) = FileStatesPass::start();
    assert_eq!(pass.step, PassStep::Managed);
    assert_eq!(args(&first), vec!["managed", "--include=files"]);
    let a = pass.advance(ok(".bashrc\n"));
    assert_eq!(args(&a), vec!["status"]);
    let a = pass.advance(ok(""));
    assert_eq!(args(&a), vec!["git", "--", "status", "--porcelain"]);
    let a = pass.advance(ok("?? dot_bashrc\n"));
    assert_eq!(
        args(&a),
        vec!["git", "--", "rev-list", "--left-right", "--count", "HEAD...@{upstream}"]
    );
    let r = outcome(pass.advance(failed("no upstream"))).unwrap();
    assert_eq!(pass.step, PassStep::Finished);
    assert_eq!(r.len(), 1);
    check(&r[0], ".bashrc", " ", "?", "?", 0, 0);
}

#[test]
fn pass_empty_listing_ends_at_once() {
    let (mut pass, _) = FileStatesPass::start();
    let r = outcome(pass.advance(ok("\n\n"))).unwrap();
    assert!(r.is_empty());
    assert_eq!(pass.step, PassStep::Finished);
}

#[test]
fn pass_launch_failures_are_errors() {
    let (mut pass, _) = FileStatesPass::start();
    assert_eq!(outcome(pass.advance(Err("e1".to_string()))).unwrap_err(), "e1");

    let (mut pass, _) = FileStatesPass::start();
    pass.advance(ok(".a\n"));
    assert_eq!(outcome(pass.advance(Err("e2".to_string()))).unwrap_err(), "e2");

    let (mut pass, _) = FileStatesPass::start();
    pass.advance(ok(".a\n"));
    pass.advance(ok(""));
    assert_eq!(outcome(pass.advance(Err("e3".to_string()))).unwrap_err(), "e3");
}

#[test]
fn pass_uses_failed_status_output() {
    let (mut pass, _) = FileStatesPass::start();
    pass.advance(failed("warning"));
    assert_eq!(pass.step, PassStep::Finished);

    let (mut pass, _) = FileStatesPass::start();
    pass.advance(ok(".a\n"));
    let a = pass.advance(Ok(CommandOutput {
        stdout: "M  .a\n".to_string(),
        stderr: "warning".to_string(),
        success: false,
    }));
    assert_eq!(args(&a), vec!["git", "--", "status", "--porcelain"]);
    pass.advance(ok(""));
    let r = outcome(pass.advance(ok("3 1"))).unwrap();
    check(&r[0], ".a", "M", " ", " ", 3, 1);
}
