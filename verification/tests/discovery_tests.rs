use docuram_sync::api;
use docuram_sync::checksum::calculate_checksum;
use docuram_sync::config::{merge_document_sets, DocuramConfig, DocuramInfo, DocumentInfo, ProjectInfo};
use docuram_sync::discovery::{
    document_from_front_matter, documents_under_directory, find_document_by_path, is_new_document,
    new_remote_documents, state_only_documents,
};
use docuram_sync::frontmatter::default_front_matter;
use docuram_sync::integrity::{
    integrity_issue_for, verify_category_path_structure, verify_dependencies_directory,
    verify_directory_structure, verify_documents_exist, verify_req_directory, DirEntryInfo,
    IssueLevel,
};
use docuram_sync::logger;
use docuram_sync::status::{get_local_version, get_remote_version, lookup_remote_version, RemoteVersionEntry};
use docuram_sync::storage::{LocalDocumentInfo, LocalState};

fn descriptor(uuid: &str, path: &str) -> DocumentInfo {
    DocumentInfo {
        id: 0,
        uuid: uuid.to_string(),
        title: uuid.to_string(),
        category_id: 1,
        category_name: "docs".to_string(),
        category_path: "team/docs".to_string(),
        category_uuid: "cu".to_string(),
        doc_type: "knowledge".to_string(),
        version: 2,
        path: path.to_string(),
        checksum: "sha256:0".to_string(),
        is_required: false,
    }
}

fn entry(uuid: &str, path: &str, pending: bool) -> LocalDocumentInfo {
    LocalDocumentInfo {
        uuid: uuid.to_string(),
        path: path.to_string(),
        checksum: "sha256:1".to_string(),
        version: 1,
        last_sync: "now".to_string(),
        pending_deletion: pending,
    }
}

fn config_with(documents: Vec<DocumentInfo>, requires: Vec<DocumentInfo>) -> DocuramConfig {
    DocuramConfig {
        project: ProjectInfo {
            id: 1,
            name: "proj".to_string(),
            description: None,
            url: "https://example.test".to_string(),
            created_at: "2024".to_string(),
        },
        docuram: DocuramInfo {
            version: "1".to_string(),
            category_id: 2,
            category_name: "docs".to_string(),
            category_uuid: Some("cu".to_string()),
            category_slug: None,
            category_path: "team/docs".to_string(),
            task_id: None,
            task_name: None,
        },
        documents,
        requires,
        dependencies: vec![],
        category_tree: None,
    }
}

#[test]
fn new_document_filter_checks_path_and_uuid() {
    let docs = vec![descriptor("A", "docuram/team/docs/a.md")];
    let mut state = LocalState::new();
    state.upsert_document(entry("S", "docuram/team/docs/s.md", false));

    assert!(is_new_document(&docs, &state, "docuram/team/docs/new.md", &None));
    assert!(!is_new_document(&docs, &state, "docuram/team/docs/a.md", &None));
    assert!(!is_new_document(&docs, &state, "docuram/team/docs/s.md", &None));
    assert!(!is_new_document(&docs, &state, "fresh.md", &Some("A".to_string())));
    assert!(!is_new_document(&docs, &state, "fresh.md", &Some("S".to_string())));
    assert!(is_new_document(&docs, &state, "fresh.md", &Some("X".to_string())));
}

#[test]
fn path_lookup_prefers_manifest_then_state() {
    let config = config_with(vec![descriptor("A", "docuram/team/docs/a.md")], vec![]);
    let mut state = LocalState::new();
    state.upsert_document(entry("S", "docuram/loose/s.md", false));

    let t = find_document_by_path(&config, &state, "docuram/team/docs/a.md").unwrap();
    assert_eq!(t.uuid, "A");
    assert_eq!(t.category_path, "team/docs");

    let t = find_document_by_path(&config, &state, "docuram/loose/s.md").unwrap();
    assert_eq!(t.uuid, "S");
    assert_eq!(t.title, "s");
    assert_eq!(t.category_path, "");

    assert!(find_document_by_path(&config, &state, "unknown.md").is_none());

    let mut fm = default_front_matter("fresh");
    assert!(document_from_front_matter(&fm, "docs/fresh.md").is_none());
    fm.uuid = Some("N".to_string());
    let t = document_from_front_matter(&fm, "docs/fresh.md").unwrap();
    assert_eq!(t.uuid, "N");
    assert_eq!(t.path, "docs/fresh.md");
}

#[test]
fn directory_selection_and_state_only() {
    let config = config_with(
        vec![
            descriptor("A", "docuram/team/docs/a.md"),
            descriptor("B", "docuram/other/b.md"),
        ],
        vec![],
    );
    let mut state = LocalState::new();
    state.upsert_document(entry("A", "docuram/team/docs/a.md", false));
    state.upsert_document(entry("S", "docuram/team/docs/s.md", false));

    let under = documents_under_directory(&config, "docuram/team");
    assert_eq!(under.len(), 1);
    assert_eq!(under[0].uuid, "A");

    let state_under = docuram_sync::discovery::state_documents_under_directory(
        &config,
        &state,
        "docuram/team",
    );
    assert_eq!(state_under.len(), 1);
    assert_eq!(state_under[0].uuid, "S");

    let only = state_only_documents(&config, &state);
    assert_eq!(only.len(), 1);
    assert_eq!(only[0].uuid, "S");
}

#[test]
fn remote_discovery_skips_known_and_pending() {
    let config = config_with(vec![descriptor("A", "docuram/team/docs/a.md")], vec![]);
    let mut state = LocalState::new();
    state.upsert_document(entry("P", "docuram/team/docs/p.md", true));

    let remote = vec![
        descriptor("A", "docuram/team/docs/a.md"),
        descriptor("P", "docuram/team/docs/p.md"),
        descriptor("N", "docuram/team/docs/n.md"),
    ];
    let fresh = new_remote_documents(&remote, &config, &state, true);
    assert_eq!(fresh.len(), 1);
    assert_eq!(fresh[0].uuid, "N");
    let fresh = new_remote_documents(&remote, &config, &state, false);
    assert_eq!(fresh.len(), 2);
}

#[test]
fn remote_version_columns() {
    let versions = vec![
        RemoteVersionEntry { uuid: "A".to_string(), version: 4 },
        RemoteVersionEntry { uuid: "B".to_string(), version: 9 },
    ];
    assert_eq!(lookup_remote_version(&versions, "A"), Some(4));
    assert_eq!(lookup_remote_version(&versions, "C"), None);
    assert_eq!(get_remote_version("B", &Some(versions)), "9");
    assert_eq!(get_remote_version("B", &None), "-");

    let mut state = LocalState::new();
    state.upsert_document(entry("A", "a.md", false));
    assert_eq!(get_local_version("A", &state), "1");
    assert_eq!(get_local_version("Z", &state), "-");
}

#[test]
fn structure_checks_flag_offenders() {
    let config = config_with(
        vec![
            descriptor("A", "docuram/team/docs/a.md"),
            descriptor("B", "elsewhere/b.md"),
        ],
        vec![descriptor("R", "docuram/other/r.md")],
    );

    let issues = verify_category_path_structure(false, &config);
    assert_eq!(issues.len(), 1);
    assert_eq!(issues[0].level, IssueLevel::Error);

    let issues = verify_category_path_structure(true, &config);
    assert_eq!(issues.len(), 2);
    assert!(issues[0].message.contains("elsewhere/b.md"));
    assert!(issues[1].message.contains("docuram/other/r.md"));

    let issues = verify_req_directory("team/docs", true, false, true);
    assert_eq!(issues.len(), 1);
    assert_eq!(issues[0].message, "Required file 'team/docs/req/README.md' is missing.");
    assert!(verify_req_directory("team/docs", false, false, false).is_empty());
}

#[test]
fn layout_check_flags_strays_and_missing_directories() {
    let entries = vec![
        DirEntryInfo { name: "organic".to_string(), is_dir: true },
        DirEntryInfo { name: "scratch".to_string(), is_dir: true },
        DirEntryInfo { name: "README.md".to_string(), is_dir: false },
        DirEntryInfo { name: "notes.txt".to_string(), is_dir: false },
    ];
    let issues = verify_directory_structure("team/docs", true, &entries);
    // Two unexpected entries, then three missing standard directories.
    assert_eq!(issues.len(), 5);
    assert_eq!(issues[0].level, IssueLevel::Error);
    assert!(issues[0].message.contains("scratch"));
    assert!(issues[1].message.contains("notes.txt"));
    assert_eq!(issues[2].message, "Required directory 'team/docs/dependencies' is missing.");
    assert_eq!(issues[3].message, "Required directory 'team/docs/impl' is missing.");
    assert_eq!(issues[4].message, "Required directory 'team/docs/req' is missing.");
    assert!(verify_directory_structure("team/docs", false, &entries).is_empty());
}

#[test]
fn dependency_and_existence_checks() {
    let mut required = descriptor("R", "docuram/other/r.md");
    required.is_required = true;
    required.category_path = "other".to_string();
    let config = config_with(vec![descriptor("A", "docuram/team/docs/a.md")], vec![required]);

    let dep_files = vec![
        "dependencies/other/r.md".to_string(),
        "dependencies/other/stray.md".to_string(),
    ];
    let issues = verify_dependencies_directory(&config, true, &dep_files);
    assert_eq!(issues.len(), 1);
    assert!(issues[0].message.contains("stray.md"));

    let issues = verify_dependencies_directory(&config, false, &Vec::new());
    assert_eq!(issues.len(), 1);
    assert_eq!(issues[0].level, IssueLevel::Warning);

    let existing = vec!["docuram/organic/a.md".to_string()];
    let issues = verify_documents_exist(&config, &existing);
    assert_eq!(issues.len(), 1);
    assert_eq!(issues[0].level, IssueLevel::Warning);
    assert!(issues[0].message.contains("dependencies/other/r.md"));

    let doc = descriptor("A", "docuram/team/docs/a.md");
    let ok_body = "body".to_string();
    let mut matching = doc.clone();
    matching.checksum = calculate_checksum(&ok_body);
    assert!(integrity_issue_for(&matching, "team/docs", &Some(ok_body)).is_none());
    let issue = integrity_issue_for(&doc, "team/docs", &Some("body".to_string())).unwrap();
    assert_eq!(issue.level, IssueLevel::Warning);
    assert!(integrity_issue_for(&doc, "team/docs", &None).is_none());
}

#[test]
fn api_conversions_and_helpers() {
    let tree = api::CategoryTree {
        id: 1,
        uuid: Some("u".to_string()),
        name: "root".to_string(),
        slug: None,
        path: "root".to_string(),
        description: None,
        position: 0,
        parent_id: None,
        subcategories: Some(vec![api::CategoryTree {
            id: 2,
            uuid: None,
            name: "child".to_string(),
            slug: None,
            path: "root/child".to_string(),
            description: None,
            position: 1,
            parent_id: Some(1),
            subcategories: None,
            document_count: 3,
            created_at: None,
            updated_at: None,
        }]),
        document_count: 0,
        created_at: None,
        updated_at: None,
    };
    let converted = api::convert_category_tree(&tree);
    assert_eq!(converted.path, "root");
    let subs = converted.subcategories.expect("children kept");
    assert_eq!(subs.len(), 1);
    assert_eq!(subs[0].name, "child");
    assert_eq!(subs[0].document_count, 3);

    let user = api::User { id: 1, account: "acct".to_string(), display_name: "".to_string() };
    assert_eq!(user.display_name_or_account(), "acct");
    let named = api::User { id: 1, account: "acct".to_string(), display_name: "Name".to_string() };
    assert_eq!(named.display_name_or_account(), "Name");

    let merged = merge_document_sets(
        vec![descriptor("A", "a.md")],
        vec![descriptor("B", "b.md")],
    );
    assert_eq!(merged.len(), 2);
    assert_eq!(merged[1].uuid, "B");

    let required = descriptor("A", "a.md");
    let working = required.as_working_document();
    assert!(!working.is_required);
    assert_eq!(working.uuid, "A");

    let cfg = logger::init(true);
    assert!(logger::is_verbose(&cfg));
    assert!(!logger::is_verbose(&logger::init(false)));
}
