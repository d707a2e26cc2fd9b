use chezmoi_bridge::command::{
    chezmoi_add, chezmoi_apply, chezmoi_cat, chezmoi_data, chezmoi_diff, chezmoi_diff_git,
    chezmoi_diff_git_cached, chezmoi_doctor, chezmoi_forget, chezmoi_git, chezmoi_managed,
    chezmoi_source_path, expand_home, run_chezmoi_git, source_dir, CommandOutput,
};

#[test]
fn expand_relative_paths_under_home() {
    assert_eq!(expand_home(".bashrc", "/home/u"), "/home/u/.bashrc");
    assert_eq!(expand_home("/etc/hosts", "/home/u"), "/etc/hosts");
    assert_eq!(expand_home("~/.bashrc", "/home/u"), "~/.bashrc");
    assert_eq!(expand_home("~x", "/home/u"), "/home/u/~x");
    assert_eq!(expand_home(".vimrc", "~"), "~/.vimrc");
}

#[test]
fn git_passthrough_arguments() {
    let a = vec!["log".to_string(), "-1".to_string()];
    assert_eq!(run_chezmoi_git(&a), vec!["git", "--", "log", "-1"]);
    assert_eq!(chezmoi_git(a), vec!["git", "--", "log", "-1"]);
    assert_eq!(chezmoi_git(vec![]), vec!["git", "--"]);
}

#[test]
fn per_file_command_arguments() {
    let h = "/home/u";
    assert_eq!(chezmoi_diff(None, h), vec!["diff"]);
    assert_eq!(chezmoi_diff(Some(".zshrc".to_string()), h), vec!["diff", "/home/u/.zshrc"]);
    assert_eq!(chezmoi_apply(None, h), vec!["apply", "--force"]);
    assert_eq!(
        chezmoi_apply(Some("/etc/x".to_string()), h),
        vec!["apply", "--force", "/etc/x"]
    );
    assert_eq!(chezmoi_add(".gitconfig".to_string(), h), vec!["add", "/home/u/.gitconfig"]);
    assert_eq!(
        chezmoi_forget("~/.a".to_string(), h),
        vec!["forget", "--force", "~/.a"]
    );
    assert_eq!(chezmoi_source_path(None, h), vec!["source-path"]);
    assert_eq!(
        chezmoi_source_path(Some(".a".to_string()), h),
        vec!["source-path", "/home/u/.a"]
    );
    assert_eq!(chezmoi_cat(".a".to_string(), h), vec!["cat", "/home/u/.a"]);
}

#[test]
fn fixed_command_arguments() {
    assert_eq!(chezmoi_managed(), vec!["managed"]);
    assert_eq!(chezmoi_data(), vec!["data", "--format=json"]);
    assert_eq!(chezmoi_doctor(), vec!["doctor"]);
    assert_eq!(chezmoi_diff_git("dot_a".to_string()), vec!["git", "--", "diff", "dot_a"]);
    assert_eq!(
        chezmoi_diff_git_cached("dot_a".to_string()),
        vec!["git", "--", "diff", "--cached", "dot_a"]
    );
}

#[test]
fn source_dir_is_trimmed_output() {
    let out = CommandOutput {
        stdout: "/home/u/.local/share/chezmoi\n".to_string(),
        stderr: String::new(),
        success: true,
    };
    assert_eq!(source_dir(Ok(out)), Ok("/home/u/.local/share/chezmoi".to_string()));
    assert_eq!(source_dir(Err("missing".to_string())), Err("missing".to_string()));
}
