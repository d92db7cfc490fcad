use synap::config::{default_db_path, resolve_db_path, DB_FILE_NAME};
use synap::ffi::{BuildInfo, NoteDTO};
use synap::version::{build_info, build_info_from, version_string, BuildInfo as CoreBuildInfo};
use synap::dto::NoteDTO as CoreNoteDto;

#[test]
fn test_build_info_contains_commit_identity() {
    let info = build_info();
    assert!(!info.crate_version.is_empty());
    assert!(!info.git_branch.is_empty());
    assert!(!info.git_commit.is_empty());
    assert!(!info.git_short_commit.is_empty());
}

#[test]
fn test_version_string_prefers_tag_when_available() {
    let info = build_info();
    let version = version_string();

    if let Some(tag) = info.git_tag {
        assert!(version.contains(tag));
    } else {
        assert!(version.contains(info.git_branch));
    }
    assert!(version.contains(info.git_short_commit));
}

#[test]
fn display_version_uses_tag_then_branch() {
    let tagged = build_info_from("0.1.0", "main", "abcdef0123456789", "abcdef012345", "v0.1.0");
    assert_eq!(tagged.display_version(), "v0.1.0 (abcdef012345)");
    let untagged = build_info_from("0.1.0", "main", "abcdef0123456789", "abcdef012345", "");
    assert_eq!(untagged.git_tag, None);
    assert_eq!(untagged.display_version(), "main (abcdef012345)");
}

#[test]
fn test_resolve_db_path_without_override() {
    let default = default_db_path("/home/user/.local/share/synap");
    let path = resolve_db_path(None, default);
    assert!(path.ends_with("synap.db"));
}

#[test]
fn test_resolve_db_path_with_override() {
    let default = format!("/home/user/.local/share/synap/{}", DB_FILE_NAME);
    let path = resolve_db_path(Some("/tmp/test.db".to_string()), default);
    assert_eq!(path, "/tmp/test.db");
}

#[test]
fn test_note_dto_conversion() {
    let core_note = CoreNoteDto {
        id: "0195f9a8-d085-7f9d-a604-469e0f91d0e3".to_string(),
        content: "Test content".to_string(),
        tags: vec!["rust".to_string(), "android".to_string()],
        created_at: 1_742_165_200_000,
    };

    let ffi_note: NoteDTO = core_note.into();
    assert_eq!(ffi_note.id, "0195f9a8-d085-7f9d-a604-469e0f91d0e3");
    assert_eq!(ffi_note.content, "Test content");
    assert_eq!(ffi_note.tags, vec!["rust", "android"]);
    assert_eq!(ffi_note.created_at, 1_742_165_200_000);
}

#[test]
fn note_dto_conversion_wraps_huge_times() {
    let core_note = CoreNoteDto { id: String::new(), content: String::new(), tags: vec![], created_at: u64::MAX };
    let ffi_note: NoteDTO = core_note.into();
    assert_eq!(ffi_note.created_at, -1);
}

#[test]
fn test_build_info_conversion() {
    let core_info = CoreBuildInfo {
        crate_version: "0.1.0",
        git_branch: "main",
        git_commit: "abcdef0123456789",
        git_short_commit: "abcdef012345",
        git_tag: Some("v0.1.0"),
    };

    let ffi_info: BuildInfo = core_info.into();
    assert_eq!(ffi_info.crate_version, "0.1.0");
    assert_eq!(ffi_info.git_branch, "main");
    assert_eq!(ffi_info.git_commit, "abcdef0123456789");
    assert_eq!(ffi_info.git_short_commit, "abcdef012345");
    assert_eq!(ffi_info.git_tag.as_deref(), Some("v0.1.0"));
    assert_eq!(ffi_info.display_version, "v0.1.0 (abcdef012345)");
}

#[test]
fn default_db_path_joins_the_data_directory() {
    assert_eq!(default_db_path("/home/user/.local/share/synap"), "/home/user/.local/share/synap/synap.db");
    assert_eq!(default_db_path("/data/"), "/data/synap.db");
    assert_eq!(DB_FILE_NAME, "synap.db");
}
