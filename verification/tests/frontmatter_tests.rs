use docuram_sync::config::DocumentInfo;
use docuram_sync::frontmatter::{
    add_docuram_metadata, compose_with_front_matter, default_front_matter, extract_title,
    is_docuram_schema, remove_docuram_metadata, split_front_matter, split_lines,
};
use docuram_sync::importer::{
    derive_category_from_path, determine_import_mode, full_import_category, import_target_file,
    normalize_category_path, validate_category_path, CategoryPathError, ImportArgsError,
    ImportMode,
};
use docuram_sync::tree::{
    build_tree_structure, forest_has_path, get_parent_path, insert_into_tree, try_insert_as_child,
};

fn descriptor() -> DocumentInfo {
    DocumentInfo {
        id: 0,
        uuid: "uuid-1".to_string(),
        title: "A \"quoted\" title".to_string(),
        category_id: 1,
        category_name: "docs".to_string(),
        category_path: "team/docs".to_string(),
        category_uuid: "cu-1".to_string(),
        doc_type: "knowledge".to_string(),
        version: 3,
        path: "docuram/team/docs/a.md".to_string(),
        checksum: "sha256:0".to_string(),
        is_required: false,
    }
}

#[test]
fn split_lines_mirrors_line_iteration() {
    let lines = split_lines("a\r\nb\nc");
    assert_eq!(lines, vec!["a", "b", "c"]);
    let lines = split_lines("a\nb\n");
    assert_eq!(lines, vec!["a", "b"]);
    let empty = split_lines("");
    assert!(empty.is_empty());
}

#[test]
fn front_matter_splits_at_delimiters() {
    let content = "---\ntitle: x\n---\n\nbody here\n";
    let (yaml, body) = split_front_matter(content).expect("front matter found");
    assert_eq!(yaml, "title: x");
    assert_eq!(body, "body here");

    assert!(split_front_matter("no front matter").is_none());
    assert!(split_front_matter("---\nunclosed").is_none());
}

#[test]
fn schema_tags() {
    assert!(is_docuram_schema("DOCURAM DOCUMENT"));
    assert!(is_docuram_schema("TEAMTURBO DOCURAM DOCUMENT"));
    assert!(!is_docuram_schema("SOMETHING ELSE"));
}

#[test]
fn default_front_matter_uses_filename() {
    let fm = default_front_matter("notes");
    assert_eq!(fm.schema, "TEAMTURBO DOCURAM DOCUMENT");
    assert_eq!(fm.title, "notes");
    assert_eq!(fm.doc_type.as_deref(), Some("knowledge"));
    assert!(fm.uuid.is_none());
}

#[test]
fn metadata_block_roundtrip() {
    let d = descriptor();
    let with = add_docuram_metadata("The body.", &d, 3);
    assert!(with.starts_with("---\ndocuram:\n"));
    assert!(with.contains("uuid: \"uuid-1\""));
    assert!(with.contains("title: \"A \\\"quoted\\\" title\""));
    assert!(with.contains("version: 3"));
    assert!(with.ends_with("---\n\nThe body."));
    // Content that already carries the block is left alone.
    assert_eq!(add_docuram_metadata(&with, &d, 3), with);
    // Stripping the block gives the body back.
    assert_eq!(remove_docuram_metadata(&with), "The body.");
    assert_eq!(remove_docuram_metadata("plain"), "plain");
}

#[test]
fn compose_wraps_yaml_and_body() {
    let file = compose_with_front_matter("k: v\n", "body");
    assert_eq!(file, "---\nk: v\n---\n\nbody");
}

#[test]
fn titles_come_from_filename_stems() {
    assert_eq!(extract_title("docs/a/b/notes.md"), "notes");
    assert_eq!(extract_title("notes.markdown"), "notes");
    assert_eq!(extract_title("archive.tar.gz"), "archive.tar");
    assert_eq!(extract_title(".hidden"), ".hidden");
    assert_eq!(extract_title("plain"), "plain");
}

#[test]
fn import_mode_decision_table() {
    let none: Vec<String> = vec![];
    let some_paths = vec!["a.md".to_string()];
    let from = Some("src-dir".to_string());
    let to = Some("target/cat".to_string());

    match determine_import_mode(&some_paths, &None, &None).unwrap() {
        ImportMode::InPlace(v) => assert_eq!(v, some_paths),
        _ => panic!("expected in-place"),
    }
    match determine_import_mode(&none, &from, &to).unwrap() {
        ImportMode::Remote { source, target_category } => {
            assert_eq!(source, "src-dir");
            assert_eq!(target_category, "target/cat");
        },
        _ => panic!("expected remote"),
    }
    match determine_import_mode(&none, &from, &None).unwrap() {
        ImportMode::InPlace(v) => assert_eq!(v, vec!["src-dir".to_string()]),
        _ => panic!("expected in-place of the source"),
    }
    assert!(matches!(
        determine_import_mode(&some_paths, &from, &None),
        Err(ImportArgsError::PathsWithFrom)
    ));
    assert!(matches!(
        determine_import_mode(&none, &None, &to),
        Err(ImportArgsError::ToRequiresFrom)
    ));
    assert!(matches!(
        determine_import_mode(&none, &None, &None),
        Err(ImportArgsError::NoInput)
    ));
}

#[test]
fn category_path_normalization_and_validation() {
    assert_eq!(normalize_category_path(" ./docs/a/b/ "), "a/b");
    assert_eq!(normalize_category_path("docs/a"), "a");
    assert_eq!(normalize_category_path("./a"), "a");
    assert_eq!(normalize_category_path("a/b///"), "a/b");
    assert!(validate_category_path("a/b").is_ok());
    assert_eq!(validate_category_path(""), Err(CategoryPathError::Empty));
    assert_eq!(validate_category_path("a//b"), Err(CategoryPathError::ConsecutiveSlashes));
}

#[test]
fn import_paths_are_derived() {
    assert_eq!(derive_category_from_path("home/docs/cat/sub/file.md"), Some("cat/sub".to_string()));
    assert_eq!(derive_category_from_path("home/docs/file.md"), Some("".to_string()));
    assert_eq!(derive_category_from_path("home/elsewhere/file.md"), None);

    assert_eq!(full_import_category("target", None), "target");
    assert_eq!(full_import_category("target", Some("a\\b")), "target/a/b");
    assert_eq!(import_target_file("target/a", "Bad/Name?"), "docs/target/a/Bad_Name_.md");
}

#[test]
fn display_tree_holds_every_inserted_prefix() {
    let paths = vec!["organic".to_string(), "a/b/c".to_string(), "a/b".to_string()];
    let forest = build_tree_structure(&paths);
    assert!(forest_has_path(&forest, "organic"));
    assert!(forest_has_path(&forest, "a"));
    assert!(forest_has_path(&forest, "a/b"));
    assert!(forest_has_path(&forest, "a/b/c"));
    assert!(!forest_has_path(&forest, "a/b/c/d"));

    let forest = insert_into_tree(forest, "a/x");
    assert!(forest_has_path(&forest, "a/x"));
    assert!(forest_has_path(&forest, "a/b/c"));

    let (forest, attached) = try_insert_as_child(forest, "a/b/leaf", "a/b");
    assert!(attached);
    assert!(forest_has_path(&forest, "a/b/leaf"));
    let (_, attached) = try_insert_as_child(forest, "x", "nowhere");
    assert!(!attached);

    assert_eq!(get_parent_path("a/b/c"), Some("a/b".to_string()));
    assert_eq!(get_parent_path("a"), None);
}
