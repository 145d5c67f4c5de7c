use aristar_worktrees::git::get_commits;
use aristar_worktrees::launch::{editor_choice, escape_quotes, terminal_choice, Editor, Terminal};
use aristar_worktrees::logs::extract_log_timestamp;
use aristar_worktrees::naming::{repo_info_path, worktree_destination};

#[test]
fn commits_need_five_fields() {
    let out = "abc123|abc|Fix parser|Ann|1700000000\nshort|line\n\nd|e|msg with | bar|Bob|notanumber\nx|y|z|w|-42\n";
    let cs = get_commits(out);
    assert_eq!(cs.len(), 3);
    assert_eq!(cs[0].hash, "abc123");
    assert_eq!(cs[0].short_hash, "abc");
    assert_eq!(cs[0].message, "Fix parser");
    assert_eq!(cs[0].author, "Ann");
    assert_eq!(cs[0].date, 1700000000);
    assert_eq!(cs[1].message, "msg with ");
    assert_eq!(cs[1].author, " bar");
    assert_eq!(cs[1].date, 0);
    assert_eq!(cs[2].date, -42);
}

#[test]
fn commit_dates_follow_i64_parsing() {
    let line = |d: &str| get_commits(&format!("a|b|c|d|{}", d))[0].date;
    assert_eq!(line("9223372036854775807"), i64::MAX);
    assert_eq!(line("-9223372036854775808"), i64::MIN);
    assert_eq!(line("9223372036854775808"), 0);
    assert_eq!(line("+17"), 17);
    assert_eq!(line("-"), 0);
    assert_eq!(line(""), 0);
    assert_eq!(line(" 5"), 0);
}

#[test]
fn log_rotation_numbers() {
    assert_eq!(extract_log_timestamp("aristar-2024-01-01.log", "aristar-2024-01-01"), 0);
    assert_eq!(extract_log_timestamp("aristar-2024-01-01.1.log", "aristar-2024-01-01"), 1);
    assert_eq!(extract_log_timestamp("aristar-2024-01-01.12.log", "aristar-2024-01-01"), 12);
    assert_eq!(extract_log_timestamp("other.3.log", "aristar-2024-01-01"), 0);
    assert_eq!(extract_log_timestamp("base..7.log.log", "base"), 7);
    assert_eq!(extract_log_timestamp("base.x.log", "base"), 0);
}

#[test]
fn applications_are_chosen_by_name() {
    assert_eq!(terminal_choice("ghostty", None), Ok(Terminal::Ghostty));
    assert_eq!(terminal_choice("terminal", None), Ok(Terminal::AppleTerminal));
    assert_eq!(terminal_choice("iterm", None), Ok(Terminal::ITerm));
    assert_eq!(
        terminal_choice("xterm", None),
        Err("Unknown terminal app: xterm".to_string())
    );
    assert_eq!(
        terminal_choice("custom", None),
        Err("custom_command is required when app is 'custom'".to_string())
    );
    assert_eq!(
        terminal_choice("custom", Some("/usr/bin/env")),
        Ok(Terminal::Custom("/usr/bin/env".to_string()))
    );
    assert!(terminal_choice("custom", Some("/usr/bin/env; rm -rf /"))
        .unwrap_err()
        .contains("forbidden characters"));
    assert_eq!(editor_choice("zed", None), Ok(Editor::Zed));
    assert_eq!(editor_choice("vscode", None), Ok(Editor::VsCode));
    assert_eq!(editor_choice("vim", None), Err("Unknown editor app: vim".to_string()));
    assert!(editor_choice("custom", Some("vim")).unwrap_err().contains("absolute path"));
}

#[test]
fn quotes_are_escaped() {
    assert_eq!(escape_quotes("/a \"b\"/c"), "/a \\\"b\\\"/c");
    assert_eq!(escape_quotes("/plain"), "/plain");
}

#[test]
fn worktree_destinations_sit_in_the_hash_folder() {
    let root = "/home/u/.aristar-worktrees";
    assert_eq!(
        worktree_destination(root, "/Users/test/projects/my-repo", "feature-x"),
        "/home/u/.aristar-worktrees/26ae0a9d/feature-x"
    );
    assert_eq!(
        repo_info_path(root, "/Users/test/projects/my-repo"),
        "/home/u/.aristar-worktrees/26ae0a9d/.aristar-repo-info.json"
    );
}
