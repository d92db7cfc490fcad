use synap::revision::{
    git_metadata, head_reference, packed_ref_commit, read_head_commit, resolve_git_dir, short_commit_from, split_lines,
    GitMetadata,
};
use synap::text::{split_words, trim_text};

#[test]
fn trim_and_words() {
    assert_eq!(trim_text("  abc \n"), "abc");
    assert_eq!(trim_text(" \t\n"), "");
    assert_eq!(trim_text("\u{3000}x y\u{a0}"), "x y");
    assert_eq!(split_words(" a  bb\tc\n"), vec!["a", "bb", "c"]);
    assert!(split_words("   ").is_empty());
}

#[test]
fn lines_like_str_lines() {
    let cases = ["", "a", "a\n", "a\nb", "a\r\nb\r\n", "\n\nx", "a\rb\n", "x\r"];
    for c in cases {
        let expected: Vec<String> = c.lines().map(|l| l.to_string()).collect();
        assert_eq!(split_lines(c), expected, "input {:?}", c);
    }
}

#[test]
fn head_reference_and_short_commit() {
    assert_eq!(head_reference("ref: refs/heads/main\n"), Some("refs/heads/main".to_string()));
    assert_eq!(head_reference("0123456789abcdef\n"), None);
    assert_eq!(short_commit_from("unknown"), "unknown");
    assert_eq!(short_commit_from("abcdef0123456789"), "abcdef012345");
    assert_eq!(short_commit_from("abc"), "abc");
}

#[test]
fn packed_refs_lookup() {
    let packed = "# pack-refs with: peeled fully-peeled sorted\n\
                  1111111111111111111111111111111111111111 refs/heads/dev\n\
                  2222222222222222222222222222222222222222 refs/tags/v1\n\
                  ^3333333333333333333333333333333333333333\n\
                  4444444444444444444444444444444444444444 refs/heads/main\n";
    assert_eq!(packed_ref_commit(packed, "refs/heads/main"), Some("4444444444444444444444444444444444444444".to_string()));
    assert_eq!(packed_ref_commit(packed, "refs/heads/dev"), Some("1111111111111111111111111111111111111111".to_string()));
    assert_eq!(packed_ref_commit(packed, "refs/heads/none"), None);
    assert_eq!(packed_ref_commit("abc\n5555 refs/heads/main\n", "refs/heads/main"), None);
}

#[test]
fn head_commit_from_files() {
    assert_eq!(read_head_commit(Some("ref: refs/heads/main\n"), Some("abc123\n"), None), Some("abc123".to_string()));
    assert_eq!(
        read_head_commit(Some("ref: refs/heads/main\n"), None, Some("def456 refs/heads/main\n")),
        Some("def456".to_string())
    );
    assert_eq!(read_head_commit(Some("ref: refs/heads/main\n"), None, None), None);
    assert_eq!(read_head_commit(Some("  fedcba\n"), None, None), Some("fedcba".to_string()));
    assert_eq!(read_head_commit(None, None, None), None);
}

#[test]
fn git_dir_resolution() {
    assert_eq!(resolve_git_dir("/repo", true, None), Some("/repo/.git".to_string()));
    assert_eq!(resolve_git_dir("/repo", false, Some("gitdir: /elsewhere/.git/worktrees/a\n")), Some("/elsewhere/.git/worktrees/a".to_string()));
    assert_eq!(resolve_git_dir("/repo", false, Some("gitdir: ../main/.git\n")), Some("/repo/../main/.git".to_string()));
    assert_eq!(resolve_git_dir("/repo", false, Some("something else")), None);
    assert_eq!(resolve_git_dir("/repo", false, None), None);
}

#[test]
fn metadata_from_git_and_files() {
    let m = git_metadata(Some("main\n"), Some("abcdef0123456789\n"), Some("abcdef012345\n"), Some("v0.1.0\n"), None, None);
    assert_eq!(
        m,
        GitMetadata {
            branch: "main".to_string(),
            commit: "abcdef0123456789".to_string(),
            short_commit: "abcdef012345".to_string(),
            tag: Some("v0.1.0".to_string()),
        }
    );
    let detached = git_metadata(Some("HEAD\n"), Some("abc\n"), None, Some(""), None, None);
    assert_eq!(detached.branch, "detached");
    assert_eq!(detached.short_commit, "abc");
    assert_eq!(detached.tag, None);
    let no_git = git_metadata(None, None, None, None, Some("ref: refs/heads/feature/x\n"), Some("0123456789abcdef0"));
    assert_eq!(no_git.branch, "feature/x");
    assert_eq!(no_git.commit, "0123456789abcdef0");
    assert_eq!(no_git.short_commit, "0123456789ab");
    let nothing = git_metadata(None, Some("  \n"), None, None, None, None);
    assert_eq!(nothing.branch, "unknown");
    assert_eq!(nothing.commit, "unknown");
    assert_eq!(nothing.short_commit, "unknown");
}
