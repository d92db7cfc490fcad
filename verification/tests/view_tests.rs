use synap::ids::{id_prefix, unix_millis};
use synap::theme::Theme;
use synap::views::ledger::{Note, NoteError, NoteLinks, NoteReader, Relation, Tag};
use synap::views::note_view::NoteView;
use synap::views::timeline_view::TimelineView;

const V7: u128 = 0x0195f9a8_d085_7f9d_a604_469e0f91d0e3;
const V4: u128 = 0x550e8400_e29b_41d4_a716_446655440000;

fn n(id: u128, short: u8, content: &str, tags: Vec<u128>, deleted: bool) -> Note {
    Note { id, short_id: [short; 8], content: content.to_string(), tags, deleted }
}

fn links(id: u128, parents: Vec<u128>, children: Vec<u128>) -> NoteLinks {
    NoteLinks {
        id,
        parents,
        children,
        previous_versions: vec![],
        next_versions: vec![],
        other_versions: vec![],
    }
}

fn reader() -> NoteReader {
    NoteReader::new(
        vec![
            n(V7, 1, "root #rust", vec![100], false),
            n(2, 2, "child", vec![], false),
            n(3, 3, "gone", vec![], true),
            n(4, 4, "tagless", vec![999], false),
        ],
        vec![Tag { id: 100, content: "rust".to_string() }],
        vec![V7, 2, 3, 4],
        vec![links(V7, vec![], vec![2, 3, 77]), links(2, vec![V7], vec![])],
    )
    .unwrap()
}

#[test]
fn uuid_text_and_time() {
    assert_eq!(id_prefix(V7, 36), "0195f9a8-d085-7f9d-a604-469e0f91d0e3");
    assert_eq!(id_prefix(V4, 36), "550e8400-e29b-41d4-a716-446655440000");
    assert_eq!(id_prefix(V7, 12), "0195f9a8-d08");
    assert_eq!(id_prefix(V4, 0), "");
    assert_eq!(unix_millis((1_743_650_345, 93_000_000)), 1_743_650_345_093);
}

#[test]
fn reader_refuses_repeated_keys() {
    assert!(NoteReader::new(vec![n(1, 1, "a", vec![], false), n(1, 2, "b", vec![], false)], vec![], vec![], vec![]).is_none());
    assert!(NoteReader::new(vec![n(1, 1, "a", vec![], false), n(2, 1, "b", vec![], false)], vec![], vec![], vec![]).is_none());
}

#[test]
fn views_by_id_and_short_id() {
    let r = reader();
    let v = NoteView::from_id(&r, 2).unwrap();
    assert_eq!(v.get_note().content, "child");
    assert_eq!(NoteView::from_id(&r, 42).err(), Some(NoteError::IdNotFound { id: 42 }));
    let s = NoteView::from_short_id(&r, [4; 8]).unwrap();
    assert_eq!(s.note.id, 4);
    assert_eq!(NoteView::from_short_id(&r, [9; 8]).err(), Some(NoteError::ShortIdNotFound { id: [9; 8] }));
}

#[test]
fn children_skip_deleted_and_report_missing() {
    let r = reader();
    let root = NoteView::from_id(&r, V7).unwrap();
    let kids = root.children();
    assert_eq!(kids.len(), 2);
    assert_eq!(kids[0].as_ref().unwrap().note.id, 2);
    assert_eq!(kids[1].as_ref().err(), Some(&NoteError::IdNotFound { id: 77 }));
    assert!(root.parents().is_empty());
    assert!(root.history().is_empty());
    assert!(root.next_version().is_empty());
    assert!(root.other_versions().is_empty());
    let child = NoteView::from_id(&r, 2).unwrap();
    let up = child.parents();
    assert_eq!(up.len(), 1);
    assert_eq!(up[0].as_ref().unwrap().note.id, V7);
    assert_eq!(child.linked_views(Relation::Children).len(), 0);
}

#[test]
fn tags_and_dto() {
    let r = reader();
    let root = NoteView::from_id(&r, V7).unwrap();
    let tags = root.tags().unwrap();
    assert_eq!(tags.len(), 1);
    assert_eq!(tags[0].get_content(), "rust");
    let dto = root.to_dto().unwrap();
    assert_eq!(dto.id, "0195f9a8-d085-7f9d-a604-469e0f91d0e3");
    assert_eq!(dto.content, "root #rust");
    assert_eq!(dto.tags, vec!["rust"]);
    assert_eq!(dto.created_at, 1_743_650_345_093);
}

#[test]
fn dto_errors() {
    let r = reader();
    let missing_tag = NoteView::from_id(&r, 4).unwrap();
    assert_eq!(missing_tag.to_dto().err(), Some(NoteError::IdNotFound { id: 999 }));
    let no_time = NoteView::from_id(&r, 2).unwrap();
    assert_eq!(no_time.to_dto().err(), Some(NoteError::IdNotFound { id: 2 }));
}

#[test]
fn timeline_is_newest_first_without_deleted() {
    let r = reader();
    let t = TimelineView::new(&r);
    let ids: Vec<u128> = t.recent().into_iter().map(|v| v.unwrap().note.id).collect();
    assert_eq!(ids, vec![4, 2, V7]);
}

#[test]
fn theme_toggles() {
    let mut t = Theme::Light;
    t.toggle();
    assert_eq!(t, Theme::Dark);
    t.toggle();
    assert_eq!(t, Theme::Light);
}

#[test]
fn creation_time_of_version_1_and_6_ids() {
    let v1: u128 = 0xC232AB00_9414_11EC_B3C8_9F6BDECED846;
    let v6: u128 = 0x1EC9414C_232A_6B00_B3C8_9F6BDECED846;
    let r = NoteReader::new(
        vec![n(v1, 1, "one", vec![], false), n(v6, 2, "six", vec![], false)],
        vec![],
        vec![v1, v6],
        vec![],
    )
    .unwrap();
    for id in [v1, v6] {
        let (secs, nanos) = uuid::Uuid::from_u128(id).get_timestamp().unwrap().to_unix();
        let dto = NoteView::from_id(&r, id).unwrap().to_dto().unwrap();
        assert_eq!(dto.created_at, secs * 1000 + (nanos / 1_000_000) as u64);
        assert_eq!(dto.created_at, 1_645_557_742_000);
    }
}
