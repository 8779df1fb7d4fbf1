use docuram_sync::config::{CliConfig, DocuramConfig, DocuramInfo, DocumentInfo, ProjectInfo};
use docuram_sync::auth::AuthConfig;
use docuram_sync::paths::{derive_local_path, doctype_subdir, find_path_collision};

fn descriptor(
    uuid: &str,
    path: &str,
    category_path: &str,
    doc_type: &str,
    is_required: bool,
) -> DocumentInfo {
    DocumentInfo {
        id: 0,
        uuid: uuid.to_string(),
        title: uuid.to_string(),
        category_id: 1,
        category_name: "cat".to_string(),
        category_path: category_path.to_string(),
        category_uuid: "cu".to_string(),
        doc_type: doc_type.to_string(),
        version: 1,
        path: path.to_string(),
        checksum: "sha256:0".to_string(),
        is_required,
    }
}

#[test]
fn doctype_mapping_is_fixed() {
    assert_eq!(doctype_subdir("knowledge"), "organic");
    assert_eq!(doctype_subdir("requirement"), "organic");
    assert_eq!(doctype_subdir("bug"), "organic");
    assert_eq!(doctype_subdir("implementation"), "impl");
    assert_eq!(doctype_subdir("design"), "impl");
    assert_eq!(doctype_subdir("test"), "impl");
    assert_eq!(doctype_subdir("framework"), "manual");
    assert_eq!(doctype_subdir("standard"), "manual");
    assert_eq!(doctype_subdir("spec"), "manual");
    assert_eq!(doctype_subdir("api"), "manual");
    assert_eq!(doctype_subdir("troubleshooting"), "manual");
    assert_eq!(doctype_subdir("anything-else"), "organic");
}

#[test]
fn working_document_is_filed_by_type() {
    let p = derive_local_path("docuram/team/docs/a.md", "team/docs", "implementation", false, "team/docs");
    assert_eq!(p, "docuram/impl/a.md");
    let p = derive_local_path("docuram/team/docs/sub/a.md", "team/docs", "knowledge", false, "team/docs");
    assert_eq!(p, "docuram/organic/sub/a.md");
}

#[test]
fn working_subtree_keeps_its_subdirectory() {
    let p = derive_local_path(
        "docuram/team/docs/req/a.md",
        "team/docs/req",
        "knowledge",
        false,
        "team/docs",
    );
    assert_eq!(p, "docuram/req/a.md");
}

#[test]
fn external_dependency_goes_under_dependencies() {
    let p = derive_local_path("docuram/other/cat/a.md", "other/cat", "knowledge", true, "team/docs");
    assert_eq!(p, "dependencies/other/cat/a.md");
}

#[test]
fn required_document_of_the_working_category_stays_in_place() {
    let p = derive_local_path("docuram/team/docs/a.md", "team/docs", "knowledge", true, "team/docs");
    assert_eq!(p, "docuram/organic/a.md");
}

#[test]
fn sibling_category_prefix_is_not_a_match() {
    // "team/docsx" merely shares a prefix with "team/docs": it is not a
    // working-category document, so a required one is an external
    // dependency.
    let p = derive_local_path("docuram/team/docsx/a.md", "team/docsx", "knowledge", true, "team/docs");
    assert_eq!(p, "dependencies/team/docsx/a.md");
}

#[test]
fn malformed_server_path_degrades_to_filename() {
    let p = derive_local_path("elsewhere/b/c.md", "team/docs", "knowledge", false, "team/docs");
    assert_eq!(p, "docuram/organic/c.md");
}

#[test]
fn collision_check_finds_duplicate_paths() {
    let a = descriptor("A", "docuram/team/docs/a.md", "team/docs", "knowledge", false);
    let b = descriptor("B", "docuram/team/docs/b.md", "team/docs", "knowledge", false);
    let clash = descriptor("C", "docuram/team/docs/a.md", "team/docs", "knowledge", false);
    let ok = vec![a.clone(), b.clone()];
    assert_eq!(find_path_collision(&ok, "team/docs"), None);
    let bad = vec![a, b, clash];
    assert_eq!(find_path_collision(&bad, "team/docs"), Some((0, 2)));
}

#[test]
fn manifest_accessors() {
    let config = DocuramConfig {
        project: ProjectInfo {
            id: 1,
            name: "proj".to_string(),
            description: None,
            url: "https://example.test".to_string(),
            created_at: "2024".to_string(),
        },
        docuram: DocuramInfo {
            version: "1.0.0".to_string(),
            category_id: 2,
            category_name: "docs".to_string(),
            category_uuid: Some("cu".to_string()),
            category_slug: None,
            category_path: "team/docs".to_string(),
            task_id: None,
            task_name: None,
        },
        documents: vec![descriptor("A", "docuram/team/docs/a.md", "team/docs", "knowledge", false)],
        requires: vec![descriptor("R", "docuram/other/r.md", "other", "knowledge", true)],
        dependencies: vec![],
        category_tree: None,
    };
    assert_eq!(config.server_url(), "https://example.test");
    let all = config.all_documents();
    assert_eq!(all.len(), 2);
    assert_eq!(all[0].uuid, "A");
    assert_eq!(all[1].uuid, "R");
    assert_eq!(DocuramConfig::config_path(), "docuram/docuram.json");

    let doc = &config.documents[0];
    assert_eq!(doc.remote_url("https://example.test"), "https://example.test/wiki/documents/A");
    assert_eq!(doc.category_remote_url("https://example.test"), "https://example.test/wiki/cu");
    assert_eq!(doc.local_path("team/docs"), "docuram/organic/a.md");
}

#[test]
fn cli_config_auth_roundtrip() {
    let auth = AuthConfig {
        access_token: "tok".to_string(),
        token_type: "Bearer".to_string(),
        expires_at: "2030".to_string(),
        user_id: 5,
        user_name: "user".to_string(),
        user_email: "user@example.test".to_string(),
    };
    let mut config = CliConfig::new();
    assert!(config.get_auth("https://a.test").is_none());
    config.set_auth("https://a.test".to_string(), auth);
    assert_eq!(config.get_auth("https://a.test").unwrap().access_token, "tok");
    let removed = config.remove_auth("https://a.test").unwrap();
    assert_eq!(removed.user_id, 5);
    assert!(config.get_auth("https://a.test").is_none());
}
