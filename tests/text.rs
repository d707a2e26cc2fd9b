use chezmoi_bridge::command::CommandOutput;
use chezmoi_bridge::status::{
    ahead_behind, last_segment_of, parse_git_status, parse_local_status, path_to_source_name,
};
use chezmoi_bridge::text::{lines_of, parse_u32_of, trimmed, words_of};

#[test]
fn lines_drop_empty_and_line_endings() {
    assert_eq!(lines_of("a\r\n\nb\nc"), vec!["a", "b", "c"]);
    assert_eq!(lines_of(""), Vec::<String>::new());
    assert_eq!(lines_of("\r\n"), Vec::<String>::new());
    assert_eq!(lines_of("x\r"), vec!["x\r"]);
    assert_eq!(lines_of("é ü\n"), vec!["é ü"]);
}

#[test]
fn words_split_on_any_whitespace() {
    assert_eq!(words_of("  3\t4\n"), vec!["3", "4"]);
    assert_eq!(words_of("a\u{3000}b"), vec!["a", "b"]);
    assert_eq!(words_of(" \n "), Vec::<String>::new());
}

#[test]
fn trim_both_ends() {
    assert_eq!(trimmed("  /home/u/.local/share/chezmoi\n"), "/home/u/.local/share/chezmoi");
    assert_eq!(trimmed("\t\n"), "");
    assert_eq!(trimmed("a b"), "a b");
}

#[test]
fn parse_unsigned_numbers() {
    assert_eq!(parse_u32_of("0"), Some(0));
    assert_eq!(parse_u32_of("+42"), Some(42));
    assert_eq!(parse_u32_of("4294967295"), Some(u32::MAX));
    assert_eq!(parse_u32_of("4294967296"), None);
    assert_eq!(parse_u32_of("99999999999x"), None);
    assert_eq!(parse_u32_of(""), None);
    assert_eq!(parse_u32_of("+"), None);
    assert_eq!(parse_u32_of("-1"), None);
    assert_eq!(parse_u32_of("1a"), None);
    for s in ["7", "+7", "007", "12345", "x", " 1", "4294967295", "4294967296"] {
        assert_eq!(parse_u32_of(s), s.parse::<u32>().ok());
    }
}

#[test]
fn source_name_transform() {
    assert_eq!(path_to_source_name(".bashrc"), "dot_bashrc");
    assert_eq!(path_to_source_name(".config/nvim/init.lua"), "dot_config/nvim/init.lua");
    assert_eq!(path_to_source_name(".config/.hidden"), "dot_config/.hidden");
    assert_eq!(path_to_source_name("bin/.tool"), "bin/.tool");
    assert_eq!(path_to_source_name("README"), "README");
    assert_eq!(path_to_source_name("."), "dot_");
}

#[test]
fn last_segment_after_final_slash() {
    assert_eq!(last_segment_of("a/b/c.lua"), "c.lua");
    assert_eq!(last_segment_of("plain"), "plain");
    assert_eq!(last_segment_of("dir/"), "");
}

#[test]
fn local_status_entries() {
    let es = parse_local_status(" M .bashrc\nAD\nMM .config/x\n");
    assert_eq!(es.len(), 2);
    assert_eq!(es[0].path, ".bashrc");
    assert_eq!(es[0].code, " ");
    assert_eq!(es[1].path, ".config/x");
    assert_eq!(es[1].code, "M");
}

#[test]
fn git_status_entries_base_then_full() {
    let es = parse_git_status("AM dot_config/nvim/init.lua\n?? dot_bashrc\n");
    assert_eq!(es.len(), 4);
    assert_eq!(es[0].name, "init.lua");
    assert_eq!(es[1].name, "dot_config/nvim/init.lua");
    assert_eq!((es[1].index.as_str(), es[1].worktree.as_str()), ("A", "M"));
    assert_eq!(es[2].name, "dot_bashrc");
    assert_eq!(es[3].name, "dot_bashrc");
    assert_eq!((es[3].index.as_str(), es[3].worktree.as_str()), ("?", "?"));
}

#[test]
fn ahead_behind_counts() {
    let out = |s: &str, ok: bool| {
        Ok(CommandOutput { stdout: s.to_string(), stderr: String::new(), success: ok })
    };
    assert_eq!(ahead_behind(&out("3\t4\n", true)), (3, 4));
    assert_eq!(ahead_behind(&out("3\t4\n", false)), (0, 0));
    assert_eq!(ahead_behind(&out("3", true)), (0, 0));
    assert_eq!(ahead_behind(&Err("x".to_string())), (0, 0));
}
