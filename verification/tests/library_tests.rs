use tone_mark::library::{is_patch_extension, LibraryMeta, TagColor};

fn names(meta: &LibraryMeta) -> Vec<String> {
    meta.tags.iter().map(|t| t.name.clone()).collect()
}

#[test]
fn tag_color_names_roundtrip() {
    for c in TagColor::ALL {
        assert_eq!(TagColor::from_id(c.id()), c);
    }
    assert_eq!(TagColor::Indigo.id(), "indigo");
}

#[test]
fn unknown_tag_color_is_slate() {
    assert_eq!(TagColor::from_id("orange"), TagColor::Slate);
    assert_eq!(TagColor::from_id("Crimson"), TagColor::Slate);
}

#[test]
fn default_metadata_has_starter_tags() {
    let meta = LibraryMeta::default();
    assert_eq!(
        names(&meta),
        vec!["Clean", "Crunch", "Lead", "Metal", "Ambient", "Funk", "Acoustic", "Live"]
    );
    assert_eq!(meta.tags[0].color, TagColor::Lime);
    assert_eq!(meta.tags[7].color, TagColor::Pink);
    assert!(meta.assignments.entries.is_empty());
}

#[test]
fn tag_by_name_finds_first_match() {
    let meta = LibraryMeta::default();
    assert_eq!(meta.tag_by_name("Metal").map(|t| t.color), Some(TagColor::Violet));
    assert!(meta.tag_by_name("metal").is_none());
}

#[test]
fn toggle_adds_then_removes_and_drops_empty_entry() {
    let mut meta = LibraryMeta::default();
    meta.toggle_assignment("a/b.tsl", "Lead");
    meta.toggle_assignment("a/b.tsl", "Clean");
    assert_eq!(meta.assignments.get("a/b.tsl").unwrap(), &vec!["Lead".to_string(), "Clean".to_string()]);
    let tags: Vec<&str> = meta.tags_for("a/b.tsl").iter().map(|t| t.name.as_str()).collect();
    assert_eq!(tags, vec!["Lead", "Clean"]);
    meta.toggle_assignment("a/b.tsl", "Lead");
    assert_eq!(meta.assignments.get("a/b.tsl").unwrap(), &vec!["Clean".to_string()]);
    meta.toggle_assignment("a/b.tsl", "Clean");
    assert!(meta.assignments.get("a/b.tsl").is_none());
    assert!(meta.tags_for("a/b.tsl").is_empty());
}

#[test]
fn toggling_twice_restores_assignments() {
    let mut meta = LibraryMeta::default();
    meta.toggle_assignment("x.tsl", "Funk");
    meta.toggle_assignment("x.tsl", "Live");
    meta.toggle_assignment("x.tsl", "Metal");
    meta.toggle_assignment("x.tsl", "Metal");
    assert_eq!(meta.assignments.get("x.tsl").unwrap(), &vec!["Funk".to_string(), "Live".to_string()]);
}

#[test]
fn tags_for_skips_unknown_names() {
    let mut meta = LibraryMeta::default();
    meta.toggle_assignment("p.tsl", "Nope");
    meta.toggle_assignment("p.tsl", "Ambient");
    let tags: Vec<&str> = meta.tags_for("p.tsl").iter().map(|t| t.name.as_str()).collect();
    assert_eq!(tags, vec!["Ambient"]);
}

#[test]
fn remove_tag_clears_assignments() {
    let mut meta = LibraryMeta::default();
    meta.toggle_assignment("one.tsl", "Lead");
    meta.toggle_assignment("two.tsl", "Lead");
    meta.toggle_assignment("two.tsl", "Clean");
    meta.remove_tag("Lead");
    assert!(!names(&meta).contains(&"Lead".to_string()));
    assert_eq!(names(&meta).len(), 7);
    assert!(meta.assignments.get("one.tsl").is_none());
    assert_eq!(meta.assignments.get("two.tsl").unwrap(), &vec!["Clean".to_string()]);
}

#[test]
fn adding_tags_checks_name() {
    let mut meta = LibraryMeta::default();
    assert!(!meta.can_add_tag("   "));
    assert!(!meta.can_add_tag(" clean "));
    assert!(meta.can_add_tag("  Doom "));
    assert!(!meta.add_tag("LEAD", TagColor::Gold));
    assert!(meta.add_tag("  Doom ", TagColor::Slate));
    assert_eq!(meta.tags.last().unwrap().name, "Doom");
    assert_eq!(meta.tags.last().unwrap().color, TagColor::Slate);
    assert!(!meta.can_add_tag("doom"));
}

#[test]
fn parse_reads_tags_and_assignments() {
    let text = r#"{
        "tags": [
            {"name": "Heavy", "color": "crimson"},
            {"name": "NoColor"},
            {"name": "Soft", "color": "unknown"}
        ],
        "assignments": {
            "b.tsl": ["Heavy", 3, "Soft"],
            "a.tsl": [],
            "c.tsl": "Heavy"
        }
    }"#;
    let meta = LibraryMeta::parse(text);
    assert_eq!(names(&meta), vec!["Heavy", "Soft"]);
    assert_eq!(meta.tags[0].color, TagColor::Crimson);
    assert_eq!(meta.tags[1].color, TagColor::Slate);
    assert_eq!(meta.assignments.get("b.tsl").unwrap(), &vec!["Heavy".to_string(), "Soft".to_string()]);
    assert!(meta.assignments.get("a.tsl").is_none());
    assert!(meta.assignments.get("c.tsl").is_none());
}

#[test]
fn parse_without_tags_gives_starter_tags() {
    let meta = LibraryMeta::parse(r#"{"tags": [], "assignments": {"x": ["Lead"]}}"#);
    assert_eq!(names(&meta).len(), 8);
    assert_eq!(meta.assignments.get("x").unwrap(), &vec!["Lead".to_string()]);
}

#[test]
fn parse_of_invalid_text_gives_default() {
    let meta = LibraryMeta::parse("not json at all");
    assert_eq!(names(&meta).len(), 8);
    assert!(meta.assignments.entries.is_empty());
}

#[test]
fn saved_text_reads_back() {
    let mut meta = LibraryMeta::default();
    meta.toggle_assignment("dir/z.tsl", "Funk");
    meta.toggle_assignment("dir/z.tsl", "Clean");
    meta.toggle_assignment("a.tsl", "Live");
    assert!(meta.add_tag("Extra", TagColor::Indigo));
    let text = meta.to_json_string();
    assert!(text.contains("\"assignments\""));
    let back = LibraryMeta::parse(&text);
    assert_eq!(names(&back), names(&meta));
    assert_eq!(back.tags[8].color, TagColor::Indigo);
    assert_eq!(back.assignments.get("dir/z.tsl").unwrap(), &vec!["Funk".to_string(), "Clean".to_string()]);
    assert_eq!(back.assignments.get("a.tsl").unwrap(), &vec!["Live".to_string()]);
}

#[test]
fn patch_extension_ignores_case() {
    assert!(is_patch_extension("tsl"));
    assert!(is_patch_extension("TsL"));
    assert!(!is_patch_extension("tsl2"));
    assert!(!is_patch_extension("json"));
}

#[test]
fn assignment_entries_stay_in_path_order() {
    let mut meta = LibraryMeta::default();
    meta.toggle_assignment("z.tsl", "Lead");
    meta.toggle_assignment("a.tsl", "Lead");
    meta.toggle_assignment("m/b.tsl", "Funk");
    meta.toggle_assignment("a.tsl", "Live");
    let keys: Vec<&str> = meta.assignments.entries.iter().map(|(k, _)| k.as_str()).collect();
    assert_eq!(keys, vec!["a.tsl", "m/b.tsl", "z.tsl"]);
    let back = LibraryMeta::parse(&meta.to_json_string());
    let back_keys: Vec<&str> = back.assignments.entries.iter().map(|(k, _)| k.as_str()).collect();
    assert_eq!(back_keys, keys);
    assert_eq!(back.assignments.get("a.tsl").unwrap(), &vec!["Lead".to_string(), "Live".to_string()]);
}
