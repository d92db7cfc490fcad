use synap::cli::{
    amend_check, choose_editor, padding_to, AmendCheck,
    capture_mode, content_preview, format_hashtags, format_tags, graph_layout, parse_search_query, parse_sync_args, parse_ulid,
    shell_from_hint, shell_from_name, CaptureMode, SearchQuery, ShellKind, SyncArgsError, SyncCommand,
};
use synap::completions::{completion_install, detect_shell, join_path, rc_update, RcUpdate};
use uuid::Uuid;

fn words(ws: &[&str]) -> Vec<String> {
    ws.iter().map(|w| w.to_string()).collect()
}

#[test]
fn graph_test_parse_ulid_full() {
    let ulid = Uuid::new_v4();
    let ulid_str = ulid.to_string();
    let result = parse_ulid(&ulid_str);
    assert!(result.is_ok());
    assert_eq!(result.unwrap(), ulid.as_u128());
}

#[test]
fn graph_test_parse_ulid_invalid() {
    let result = parse_ulid("invalid_ulid");
    assert!(result.is_err());
}

#[test]
fn graph_test_parse_ulid_short() {
    let result = parse_ulid("01KJYFFB4Z");
    assert!(result.is_err());
}

#[test]
fn tag_test_parse_ulid_full() {
    let ulid = Uuid::new_v4();
    let ulid_str = ulid.to_string();
    let result = parse_ulid(&ulid_str);
    assert!(result.is_ok());
    assert_eq!(result.unwrap(), ulid.as_u128());
}

#[test]
fn tag_test_parse_ulid_invalid() {
    let result = parse_ulid("invalid_ulid");
    assert!(result.is_err());
}

#[test]
fn tag_test_parse_ulid_short() {
    let result = parse_ulid("01KJYFFB4Z");
    assert!(result.is_err());
}

#[test]
fn parse_ulid_error_message_names_the_problem() {
    let err = parse_ulid("01KJYFFB4Z").unwrap_err();
    assert!(err.starts_with("无效的 ULID: "));
    assert!(err.len() > "无效的 ULID: ".len());
}

#[test]
fn capture_mode_reply() {
    match capture_mode(&words(&["@@A3F", "but", "then", "#gc"])) {
        CaptureMode::Reply { id, content } => {
            assert_eq!(id, "A3F");
            assert_eq!(content, "but then #gc");
        }
        other => panic!("unexpected {:?}", other),
    }
}

#[test]
fn capture_mode_lone_mention_is_captured() {
    match capture_mode(&words(&["@A3F"])) {
        CaptureMode::Capture { content } => assert_eq!(content, "@A3F"),
        other => panic!("unexpected {:?}", other),
    }
}

#[test]
fn capture_mode_tag_search() {
    match capture_mode(&words(&["##rust", "ignored"])) {
        CaptureMode::TagSearch { tag } => assert_eq!(tag, "rust"),
        other => panic!("unexpected {:?}", other),
    }
}

#[test]
fn capture_mode_show_and_capture() {
    match capture_mode(&words(&["01KJYF"])) {
        CaptureMode::Show { prefix } => assert_eq!(prefix, "01KJYF"),
        other => panic!("unexpected {:?}", other),
    }
    match capture_mode(&words(&["hello", "world"])) {
        CaptureMode::Capture { content } => assert_eq!(content, "hello world"),
        other => panic!("unexpected {:?}", other),
    }
    assert!(matches!(capture_mode(&vec![]), CaptureMode::Recent));
}

#[test]
fn sync_args_are_read() {
    match parse_sync_args(&words(&["sync", "init", "127.0.0.1:8080"])) {
        Ok(SyncCommand::Init { addr }) => assert_eq!(addr, "127.0.0.1:8080"),
        other => panic!("unexpected {:?}", other),
    }
    assert!(matches!(parse_sync_args(&words(&["sync", "respond"])), Ok(SyncCommand::Respond)));
}

#[test]
fn test_execute_invalid_subcommand() {
    let result = parse_sync_args(&words(&["sync", "invalid"]));
    assert_eq!(result.unwrap_err(), SyncArgsError::UnknownSubcommand);
    assert_eq!(parse_sync_args(&words(&["sync"])).unwrap_err(), SyncArgsError::UnknownSubcommand);
}

#[test]
fn test_execute_init_missing_addr() {
    let result = parse_sync_args(&words(&["sync", "init"]));
    assert_eq!(result.unwrap_err(), SyncArgsError::MissingAddress);
    assert_eq!(SyncArgsError::MissingAddress.message(), "sync init 需要指定地址");
}

#[test]
fn search_query_kinds() {
    assert!(parse_search_query("").is_none());
    match parse_search_query("#rust") {
        Some(SearchQuery::Tag(t)) => assert_eq!(t, "rust"),
        other => panic!("unexpected {:?}", other),
    }
    match parse_search_query("##x") {
        Some(SearchQuery::Tag(t)) => assert_eq!(t, "#x"),
        other => panic!("unexpected {:?}", other),
    }
    match parse_search_query("rust") {
        Some(SearchQuery::Content(c)) => assert_eq!(c, "rust"),
        other => panic!("unexpected {:?}", other),
    }
}

#[test]
fn preview_shortens_long_content() {
    let long = "a".repeat(61);
    assert_eq!(content_preview(&long, 60, 57), format!("{}...", "a".repeat(57)));
    let exact = "a".repeat(60);
    assert_eq!(content_preview(&exact, 60, 57), exact);
    // The length test counts bytes, the cut counts characters.
    let wide = "思".repeat(11);
    assert_eq!(content_preview(&wide, 30, 27), format!("{}...", wide));
    assert_eq!(content_preview("short", 30, 27), "short");
}

#[test]
fn hashtags_line() {
    assert_eq!(format_hashtags(&words(&["rust", "gc"])), "#rust #gc");
    assert_eq!(format_hashtags(&vec![]), "");
}

#[test]
fn shells() {
    assert_eq!(shell_from_name("bash"), Some(ShellKind::Bash));
    assert_eq!(shell_from_name("pwsh"), Some(ShellKind::PowerShell));
    assert_eq!(shell_from_name("powershell"), Some(ShellKind::PowerShell));
    assert_eq!(shell_from_name("elvish"), Some(ShellKind::Elvish));
    assert_eq!(shell_from_name("tcsh"), None);
    assert_eq!(shell_from_hint("/usr/bin/zsh"), Some(ShellKind::Zsh));
    assert_eq!(shell_from_hint("/opt/fish/bin/fish"), Some(ShellKind::Fish));
    assert_eq!(shell_from_hint("/bin/bash"), Some(ShellKind::Bash));
    assert_eq!(shell_from_hint("/bin/sh"), None);
}

#[test]
fn test_format_tags() {
    let tags = vec!["rust".to_string(), "programming".to_string()];
    let formatted = format_tags(&tags);
    assert!(formatted.contains("rust"));
    assert!(formatted.contains("programming"));
}

#[test]
fn test_format_tags_empty() {
    let tags: Vec<String> = vec![];
    let formatted = format_tags(&tags);
    assert!(formatted.is_empty());
}

#[test]
fn format_tags_separates_with_comma() {
    let tags = vec!["a".to_string(), "b".to_string()];
    let formatted = format_tags(&tags);
    assert!(formatted == "a, b" || formatted == "\u{1b}[32ma\u{1b}[0m, \u{1b}[32mb\u{1b}[0m");
}

#[test]
fn graph_layout_orders_by_depth_and_marks_branches() {
    let entries: Vec<(u128, usize)> = vec![(1, 0), (3, 2), (2, 1), (4, 1), (5, 2)];
    let lines = graph_layout(&entries);
    let order: Vec<usize> = lines.iter().map(|l| l.entry).collect();
    assert_eq!(order, vec![0, 2, 3, 1, 4]);
    let prefixes: Vec<&str> = lines.iter().map(|l| l.prefix.as_str()).collect();
    assert_eq!(prefixes, vec!["", "├─ ", "└─ ", "  ├─ ", "  └─ "]);
}

#[test]
fn graph_layout_repeated_entry_uses_its_first_line() {
    let entries: Vec<(u128, usize)> = vec![(1, 0), (7, 1), (7, 1)];
    let lines = graph_layout(&entries);
    let prefixes: Vec<&str> = lines.iter().map(|l| l.prefix.as_str()).collect();
    assert_eq!(prefixes, vec!["", "├─ ", "├─ "]);
    assert!(graph_layout(&Vec::new()).is_empty());
}

#[test]
fn padding_fills_to_width() {
    assert_eq!(padding_to("abc", 6), "   ");
    assert_eq!(padding_to("中文", 3), " ");
    assert_eq!(padding_to("abcdef", 6), "");
    assert_eq!(padding_to("abcdefg", 6), "");
}

#[test]
fn amend_check_refuses_blank_and_skips_unchanged() {
    assert_eq!(amend_check("old", " \n\t "), AmendCheck::Blank);
    assert_eq!(amend_check("old", ""), AmendCheck::Blank);
    assert_eq!(amend_check("old", "\u{3000}"), AmendCheck::Blank);
    assert_eq!(amend_check("same\n", "same\n"), AmendCheck::Unchanged);
    assert_eq!(amend_check("old", "new"), AmendCheck::Changed);
    assert_eq!(amend_check("old", "old\n"), AmendCheck::Changed);
}

#[test]
fn editor_choice_prefers_env_then_first_available() {
    assert_eq!(choose_editor(Some("test-editor".to_string()), &vec![true]), "test-editor");
    assert_eq!(choose_editor(None, &vec![false, true]), "vim");
    assert_eq!(choose_editor(None, &vec![false, false, false, true, true]), "nano");
    assert_eq!(choose_editor(None, &vec![false; 5]), "vi");
    assert_eq!(choose_editor(None, &vec![]), "vi");
}

#[test]
fn shell_detection_prefers_shell_variable() {
    assert_eq!(detect_shell(Some("/bin/zsh"), Some("bash")), Some(ShellKind::Zsh));
    assert_eq!(detect_shell(Some("/bin/sh"), Some("fish")), Some(ShellKind::Fish));
    assert_eq!(detect_shell(None, Some("bash")), Some(ShellKind::Bash));
    assert_eq!(detect_shell(Some("/bin/sh"), Some("synap")), None);
    assert_eq!(detect_shell(None, None), None);
}

#[test]
fn completion_paths_per_shell() {
    let z = completion_install(ShellKind::Zsh, "/home/u").unwrap();
    assert_eq!(z.dir, "/home/u/.zsh/completion");
    assert_eq!(z.script_path, "/home/u/.zsh/completion/_synap");
    assert_eq!(z.rc_file.as_deref(), Some("/home/u/.zshrc"));
    assert_eq!(z.snippet.as_deref(), Some("\n# Synap completions\nfpath=($HOME/.zsh/completion $fpath)\n"));
    let f = completion_install(ShellKind::Fish, "/home/u/").unwrap();
    assert_eq!(f.script_path, "/home/u/.config/fish/completions/synap.fish");
    assert!(f.rc_file.is_none() && f.snippet.is_none());
    let b = completion_install(ShellKind::Bash, "/root").unwrap();
    assert_eq!(b.script_path, "/root/.local/share/bash-completion/completions/synap");
    assert_eq!(b.rc_file.as_deref(), Some("/root/.bashrc"));
    assert!(completion_install(ShellKind::PowerShell, "/root").is_none());
    assert!(completion_install(ShellKind::Elvish, "/root").is_none());
    assert_eq!(join_path("", "x"), "x");
    assert_eq!(join_path("a/", "x"), "a/x");
    assert_eq!(join_path("a", "x"), "a/x");
}

#[test]
fn rc_update_decisions() {
    assert_eq!(rc_update(None), RcUpdate::Create);
    assert_eq!(rc_update(Some("alias x=y\n")), RcUpdate::Append);
    assert_eq!(rc_update(Some("\n# Synap completions\nfpath=(...)\n")), RcUpdate::AlreadyConfigured);
}

#[test]
fn second_install_leaves_rc_alone() {
    let plan = completion_install(ShellKind::Bash, "/home/u").unwrap();
    let snippet = plan.snippet.unwrap();
    let first = "alias ll='ls -l'\n".to_string();
    assert_eq!(rc_update(Some(&first)), RcUpdate::Append);
    let after = first + &snippet;
    assert_eq!(rc_update(Some(&after)), RcUpdate::AlreadyConfigured);
    assert_eq!(rc_update(Some(&snippet)), RcUpdate::AlreadyConfigured);
}

#[test]
fn format_tags_keeps_green_after_inner_reset() {
    let tags = vec!["a\u{1b}[0mb".to_string()];
    let formatted = format_tags(&tags);
    assert!(formatted == "a\u{1b}[0mb" || formatted == "\u{1b}[32ma\u{1b}[0m\u{1b}[32mb\u{1b}[0m");
}

#[test]
fn parse_ulid_reads_every_uuid_form() {
    let v: u128 = 0x550e8400_e29b_41d4_a716_446655440000;
    assert_eq!(parse_ulid("550e8400e29b41d4a716446655440000"), Ok(v));
    assert_eq!(parse_ulid("550E8400-E29B-41D4-A716-446655440000"), Ok(v));
    assert_eq!(parse_ulid("{550e8400-e29b-41d4-a716-446655440000}"), Ok(v));
    assert_eq!(parse_ulid("URN:uuid:550e8400-e29b-41d4-a716-446655440000"), Ok(v));
    assert!(parse_ulid("550e8400-e29b-41d4-a716_446655440000").is_err());
    assert!(parse_ulid("550e8400e29b41d4a71644665544000g").is_err());
}
