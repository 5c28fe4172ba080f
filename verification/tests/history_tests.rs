use clawpal::history::{
    add_snapshot, add_to_index, index_is_blank, new_snapshot_name, replace_colons,
    snapshot_name_at, sort_newest_first, text_before, SnapshotIndex, SnapshotMeta,
    MAX_SNAPSHOTS,
};

fn meta(id: &str, created_at: &str) -> SnapshotMeta {
    SnapshotMeta {
        id: id.to_string(),
        recipe_id: None,
        created_at: created_at.to_string(),
        config_path: format!("/h/{id}.json"),
        source: "test".to_string(),
        can_rollback: true,
    }
}

fn chars(s: &str) -> Vec<char> {
    s.chars().collect()
}

fn ids(list: &[SnapshotMeta]) -> Vec<String> {
    list.iter().map(|m| m.id.clone()).collect()
}

#[test]
fn snapshot_names() {
    let name = snapshot_name_at("2024-05-01T10-20-30", Some("recipe:one"));
    assert_eq!(name.created_at, "2024-05-01T10-20-30");
    assert_eq!(name.id, "2024-05-01T10-20-30-recipe:one");
    assert_eq!(name.file_name, "2024-05-01T10-20-30-recipe-one.json");
    let manual = snapshot_name_at("T", None);
    assert_eq!(manual.id, "T-manual");
    assert_eq!(manual.file_name, "T-manual.json");
}

#[test]
fn new_snapshot_name_uses_the_clock() {
    let name = new_snapshot_name(Some("r"));
    assert_eq!(name.created_at.len(), 19);
    assert_eq!(&name.created_at[10..11], "T");
    assert!(!name.created_at.contains(':'));
    assert_eq!(name.id, format!("{}-r", name.created_at));
    assert_eq!(name.file_name, format!("{}-r.json", name.created_at));
}

#[test]
fn colons_become_hyphens() {
    assert_eq!(replace_colons("a:b::c"), "a-b--c");
    assert_eq!(replace_colons(""), "");
    assert_eq!(replace_colons("\u{e9}:\u{4e2d}"), "\u{e9}-\u{4e2d}");
}

#[test]
fn blank_index_text() {
    assert!(index_is_blank(""));
    assert!(index_is_blank(" \n\t "));
    assert!(!index_is_blank(" {} "));
}

#[test]
fn string_order() {
    assert!(text_before(&chars("a"), &chars("b")));
    assert!(!text_before(&chars("b"), &chars("a")));
    assert!(!text_before(&chars("a"), &chars("a")));
    assert!(text_before(&chars("a"), &chars("ab")));
    assert!(!text_before(&chars("ab"), &chars("a")));
    assert!(text_before(&chars(""), &chars("a")));
    assert!(!text_before(&chars(""), &chars("")));
    assert!(text_before(&chars("2024-01"), &chars("2024-02")));
    assert!(text_before(&chars("Z"), &chars("a")));
    assert!(text_before(&chars("z"), &chars("\u{e9}")));
    for (a, b) in [("abc", "abd"), ("", "x"), ("10", "9"), ("a\u{10000}", "a\u{ffff}")] {
        assert_eq!(text_before(&chars(a), &chars(b)), a < b);
        assert_eq!(text_before(&chars(b), &chars(a)), b < a);
    }
}

#[test]
fn sort_is_newest_first_and_stable() {
    let list = vec![meta("a", "2"), meta("b", "3"), meta("c", "1"), meta("d", "3"), meta("e", "2")];
    let sorted = sort_newest_first(&list);
    assert_eq!(ids(&sorted), vec!["b", "d", "a", "e", "c"]);
    let mut expected = list.clone();
    expected.sort_by(|x, y| y.created_at.cmp(&x.created_at));
    assert_eq!(sorted, expected);
    assert!(sort_newest_first(&vec![]).is_empty());
}

#[test]
fn add_to_index_sorts_and_caps() {
    let mut index = SnapshotIndex::default();
    add_to_index(&mut index, meta("old", "2020"));
    add_to_index(&mut index, meta("new", "2024"));
    add_to_index(&mut index, meta("mid", "2022"));
    assert_eq!(ids(&index.items), vec!["new", "mid", "old"]);
    let mut full = SnapshotIndex { items: Vec::new() };
    for i in 0..MAX_SNAPSHOTS {
        full.items.push(meta(&format!("s{i}"), &format!("{:04}", 1000 + (MAX_SNAPSHOTS - i))));
    }
    assert_eq!(full.items.len(), 200);
    add_to_index(&mut full, meta("newest", "9999"));
    assert_eq!(full.items.len(), 200);
    assert_eq!(full.items[0].id, "newest");
    assert_eq!(full.items[199].id, "s198");
    add_to_index(&mut full, meta("oldest", "0000"));
    assert_eq!(full.items.len(), 200);
    assert!(!ids(&full.items).contains(&"oldest".to_string()));
}

#[test]
fn add_snapshot_files_and_reports() {
    let mut index = SnapshotIndex { items: vec![meta("x", "2000-01-01T00-00-00")] };
    let name = snapshot_name_at("2024-05-01T10-20-30", None);
    let told = add_snapshot(&mut index, &name, None, "queue-apply", true, "/h/f.json");
    assert_eq!(
        told,
        SnapshotMeta {
            id: "2024-05-01T10-20-30-manual".into(),
            recipe_id: Some("manual".into()),
            created_at: "2024-05-01T10-20-30".into(),
            config_path: "/h/f.json".into(),
            source: "queue-apply".into(),
            can_rollback: true,
        }
    );
    assert_eq!(index.items.len(), 2);
    assert_eq!(index.items[0].id, "2024-05-01T10-20-30-manual");
    assert_eq!(index.items[0].recipe_id, None);
    let name = snapshot_name_at("2024-05-02T10-20-30", Some("pre-apply"));
    let told = add_snapshot(&mut index, &name, Some("pre-apply".into()), "s", false, "/p");
    assert_eq!(told.recipe_id, Some("pre-apply".to_string()));
    assert_eq!(index.items[0].recipe_id, Some("pre-apply".to_string()));
    assert!(!index.items[0].can_rollback);
}
