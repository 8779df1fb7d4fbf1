use docuram_sync::organic::{generate_document_content, generate_filename, DocType};

#[test]
fn test_generate_filename_without_title() {
    assert_eq!(generate_filename(DocType::Req, 1, None), "req001.md");
    assert_eq!(generate_filename(DocType::Bug, 42, None), "bug042.md");
}

#[test]
fn test_generate_filename_with_title() {
    assert_eq!(generate_filename(DocType::Req, 1, Some("新功能")), "req001-新功能.md");
    assert_eq!(generate_filename(DocType::Bug, 5, Some("修复登录问题")), "bug005-修复登录问题.md");
}

#[test]
fn test_generate_document_content_without_title() {
    let content = generate_document_content(DocType::Req, None);
    assert!(content.contains("**实现以下需求，并按Docuram规范生成并放置文档**"));
    assert!(!content.contains("# "));
}

#[test]
fn test_generate_document_content_with_title() {
    let content = generate_document_content(DocType::Req, Some("测试标题"));
    assert!(content.contains("**实现以下需求，并按Docuram规范生成并放置文档**"));
    assert!(content.contains("# 测试标题"));
}

#[test]
fn generate_filename_pads_to_three_digits() {
    assert_eq!(generate_filename(DocType::Req, 123, None), "req123.md");
    assert_eq!(generate_filename(DocType::Bug, 1234, None), "bug1234.md");
}

#[test]
fn next_document_number_over_existing_files() {
    let files = vec![
        "req001.md".to_string(),
        "req007-title.md".to_string(),
        "bug003.md".to_string(),
        "notes.md".to_string(),
    ];
    assert_eq!(docuram_sync::organic::get_next_document_number(&files, DocType::Req), 8);
    assert_eq!(docuram_sync::organic::get_next_document_number(&files, DocType::Bug), 4);
    let none: Vec<String> = Vec::new();
    assert_eq!(docuram_sync::organic::get_next_document_number(&none, DocType::Req), 1);
}
