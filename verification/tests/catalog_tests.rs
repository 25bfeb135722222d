use mcc::catalog::{
    ScanEntry, build_catalog, clamp_selection, decode_project_dir, encode_project_path,
    next_selection, path_encoding_ambiguous, prev_selection, transcript_id,
};

fn entry(dir: &str, file: &str, content: &str, mtime: u64) -> ScanEntry {
    ScanEntry {
        dir_name: dir.to_string(),
        file_name: file.to_string(),
        content: content.to_string(),
        last_modified: mtime,
    }
}

#[test]
fn path_codec_substitutes_separators() {
    assert_eq!(encode_project_path("/home/user/proj"), "-home-user-proj");
    assert_eq!(decode_project_dir("-home-user-proj"), "/home/user/proj");
    assert_eq!(encode_project_path(""), "");
}

#[test]
fn path_codec_round_trip_without_hyphens() {
    let p = "/home/user/proj";
    assert_eq!(decode_project_dir(&encode_project_path(p)), p);
}

#[test]
fn hyphenated_paths_are_flagged_ambiguous() {
    assert!(path_encoding_ambiguous("/home/user/my-proj"));
    assert!(!path_encoding_ambiguous("/home/user/proj"));
    // the round trip indeed loses the hyphen
    assert_eq!(decode_project_dir(&encode_project_path("/a-b")), "/a/b");
}

#[test]
fn transcript_ids_come_from_the_file_stem() {
    assert_eq!(transcript_id("abc.jsonl").as_deref(), Some("abc"));
    assert_eq!(transcript_id("a.b.jsonl").as_deref(), Some("a.b"));
    assert_eq!(transcript_id("abc.json"), None);
    assert_eq!(transcript_id(".jsonl"), None);
    assert_eq!(transcript_id("x"), None);
}

#[test]
fn empty_scan_yields_an_empty_catalog() {
    let catalog = build_catalog(Vec::new());
    assert!(catalog.is_empty());
}

#[test]
fn catalog_is_ordered_newest_first() {
    let entries = vec![
        entry("-p-one", "a.jsonl", "{\"type\":\"user\"}\n", 10),
        entry("-p-two", "b.jsonl", "", 300),
        entry("-p-two", "notes.txt", "", 999),
        entry("-p-three", "c.jsonl", "", 200),
    ];
    let catalog = build_catalog(entries);
    assert_eq!(catalog.len(), 3);
    assert_eq!(catalog[0].id, "b");
    assert_eq!(catalog[0].project_path, "/p/two");
    assert_eq!(catalog[0].last_modified, 300);
    assert_eq!(catalog[1].id, "c");
    assert_eq!(catalog[2].id, "a");
    assert_eq!(catalog[2].message_count(), 1);
}

#[test]
fn selection_wraps_in_both_directions() {
    assert_eq!(next_selection(0, 3), 1);
    assert_eq!(next_selection(2, 3), 0);
    assert_eq!(next_selection(5, 0), 5);
    assert_eq!(prev_selection(0, 3), 2);
    assert_eq!(prev_selection(2, 3), 1);
    assert_eq!(prev_selection(5, 0), 5);
    assert_eq!(clamp_selection(5, 3), 2);
    assert_eq!(clamp_selection(1, 3), 1);
    assert_eq!(clamp_selection(0, 0), 0);
}
