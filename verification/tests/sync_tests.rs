use docuram_sync::checksum::{calculate_checksum, format_size, normalize_checksum, verify_checksum};
use docuram_sync::config::DocumentInfo;
use docuram_sync::plan::{
    classify_delete, is_push_modified, pending_deletions, plan_pull, record_remote_deletion,
    should_skip_category_cleanup, unique_categories_deepest_first, apply_pull, DeleteClass,
    PullDecision,
};
use docuram_sync::status::{classify_tracked, get_document_status, FileObservation, SyncStatus};
use docuram_sync::storage::{LocalDocumentInfo, LocalState};

fn doc(uuid: &str, path: &str, version: i64, checksum: &str) -> DocumentInfo {
    DocumentInfo {
        id: 1,
        uuid: uuid.to_string(),
        title: format!("doc {uuid}"),
        category_id: 9,
        category_name: "cat".to_string(),
        category_path: "team/docs".to_string(),
        category_uuid: "cat-uuid".to_string(),
        doc_type: "knowledge".to_string(),
        version,
        path: path.to_string(),
        checksum: checksum.to_string(),
        is_required: false,
    }
}

fn entry(uuid: &str, path: &str, checksum: &str, version: i64, pending: bool) -> LocalDocumentInfo {
    LocalDocumentInfo {
        uuid: uuid.to_string(),
        path: path.to_string(),
        checksum: checksum.to_string(),
        version,
        last_sync: "2024-01-01T00:00:00Z".to_string(),
        pending_deletion: pending,
    }
}

#[test]
fn checksum_has_fixed_form_and_is_deterministic() {
    let empty = calculate_checksum("");
    assert_eq!(
        empty,
        "sha256:e3b0c44298fc1c149afbf4c8996fb92427ae41e4649b934ca495991b7852b855"
    );
    let hello = calculate_checksum("hello");
    assert_eq!(
        hello,
        "sha256:2cf24dba5fb0a30e26e83b2ac5b9e29e1b161e5c1fa7425e73043362938b9824"
    );
    assert_eq!(calculate_checksum("hello"), hello);
    assert_ne!(calculate_checksum("hello"), calculate_checksum("hello2"));
}

#[test]
fn normalize_checksum_adds_tag_once() {
    assert_eq!(normalize_checksum("abc"), "sha256:abc");
    assert_eq!(normalize_checksum("sha256:abc"), "sha256:abc");
}

#[test]
fn verify_checksum_compares_content() {
    let sum = calculate_checksum("body");
    assert!(verify_checksum(&Some("body".to_string()), &sum));
    assert!(!verify_checksum(&Some("other".to_string()), &sum));
    assert!(!verify_checksum(&None, &sum));
}

#[test]
fn format_size_rounds_to_two_decimals() {
    assert_eq!(format_size(0), "0 B");
    assert_eq!(format_size(1023), "1023 B");
    assert_eq!(format_size(1024), "1.00 KB");
    assert_eq!(format_size(1536), "1.50 KB");
    assert_eq!(format_size(10 * 1024 * 1024), "10.00 MB");
    assert_eq!(format_size(3 * 1024 * 1024 * 1024), "3.00 GB");
    assert_eq!(format_size(2 * 1024 * 1024 * 1024 - 1), "2.00 GB");
}

// A tracked document whose on-disk checksum equals the baseline and whose
// remote version equals the recorded one is synced.
#[test]
fn scenario_synced() {
    let status = classify_tracked(
        false,
        &Some("sha256:111".to_string()),
        &Some("sha256:111".to_string()),
        3,
        &Some(3),
        false,
    );
    assert_eq!(status, SyncStatus::Synced);
}

// The same document with a newer remote version is remote-ahead, and after
// the pull is applied the manifest carries the new content's checksum and
// the new version.
#[test]
fn scenario_remote_ahead_then_pull() {
    let status = classify_tracked(
        false,
        &Some("sha256:111".to_string()),
        &Some("sha256:111".to_string()),
        3,
        &Some(4),
        false,
    );
    assert_eq!(status, SyncStatus::RemoteAhead);

    let d = doc("A", "docuram/team/docs/a.md", 3, "sha256:srv");
    let mut state = LocalState::new();
    state.upsert_document(entry("A", &d.path, "sha256:111", 3, false));
    let new_content = "fresh body";
    apply_pull(&mut state, &d, new_content, 4, "2024-02-02T00:00:00Z".to_string());
    let rec = state.get_document("A").expect("record kept");
    assert_eq!(rec.checksum, calculate_checksum(new_content));
    assert_eq!(rec.version, 4);
    assert!(!rec.pending_deletion);
}

// The same document, locally edited while the server moved ahead, is a
// conflict, and pull without a forced overwrite refuses to write the file.
#[test]
fn scenario_conflict_blocks_pull() {
    let status = classify_tracked(
        false,
        &Some("sha256:111".to_string()),
        &Some("sha256:222".to_string()),
        3,
        &Some(4),
        false,
    );
    assert_eq!(status, SyncStatus::Conflict);

    let d = doc("A", "docuram/team/docs/a.md", 3, "sha256:srv");
    let mut state = LocalState::new();
    let edited = "locally edited".to_string();
    state.upsert_document(entry("A", &d.path, "sha256:111", 3, false));
    let decision = plan_pull(&d, &state, &Some(edited.clone()), &Some(4), false);
    assert_eq!(decision, PullDecision::Conflict);
    let forced = plan_pull(&d, &state, &Some(edited), &Some(4), true);
    assert_eq!(forced, PullDecision::Update);
}

// Pulling twice with no remote change in between skips every document the
// second time: no file writes, no manifest changes.
#[test]
fn scenario_pull_is_idempotent() {
    let d = doc("A", "docuram/team/docs/a.md", 3, "sha256:srv");
    let mut state = LocalState::new();
    let body = "downloaded body";
    apply_pull(&mut state, &d, body, 4, "now".to_string());
    let before = state.get_document("A").unwrap().clone();
    let decision = plan_pull(&d, &state, &Some(body.to_string()), &Some(4), false);
    assert_eq!(decision, PullDecision::Skip);
    let after = state.get_document("A").unwrap();
    assert_eq!(after.checksum, before.checksum);
    assert_eq!(after.version, before.version);
}

// A document marked pending deletion leaves the manifest when the remote
// delete succeeds, and stays marked when it fails.
#[test]
fn scenario_pending_deletion_push() {
    let mut state = LocalState::new();
    state.upsert_document(entry("A", "docuram/a.md", "sha256:1", 3, true));

    let mut failed = LocalState { documents: state.documents.clone() };
    record_remote_deletion(&mut failed, "A", false);
    let kept = failed.get_document("A").expect("record kept after failure");
    assert!(kept.pending_deletion);

    record_remote_deletion(&mut state, "A", true);
    assert!(state.get_document("A").is_none());
}

#[test]
fn classification_covers_pending_missing_and_deleted() {
    let lc = Some("sha256:1".to_string());
    assert_eq!(
        classify_tracked(true, &lc, &None, 3, &Some(3), false),
        SyncStatus::PendingDeletion
    );
    assert_eq!(
        classify_tracked(false, &lc, &Some("sha256:1".to_string()), 3, &None, false),
        SyncStatus::DeletedOnServer
    );
    assert_eq!(
        classify_tracked(false, &lc, &None, 3, &Some(3), false),
        SyncStatus::MissingLocally
    );
    // Never synced, file present, remote at version 1: ahead of the
    // effective local version zero, but the missing baseline counts as a
    // local modification first.
    assert_eq!(
        classify_tracked(false, &None, &Some("sha256:9".to_string()), 1, &Some(1), false),
        SyncStatus::Conflict
    );
    assert_eq!(
        classify_tracked(false, &lc, &Some("sha256:2".to_string()), 3, &Some(3), false),
        SyncStatus::ModifiedLocally
    );
}

#[test]
fn status_words_follow_observation() {
    let mut state = LocalState::new();
    let body = "tracked body".to_string();
    state.upsert_document(entry(
        "A",
        "docuram/a.md",
        &calculate_checksum(&body),
        3,
        false,
    ));
    assert_eq!(
        get_document_status("A", &FileObservation::Found(body.clone()), &state),
        "Synced"
    );
    assert_eq!(
        get_document_status("A", &FileObservation::Found("edited".to_string()), &state),
        "Modified"
    );
    assert_eq!(get_document_status("A", &FileObservation::Absent, &state), "Missing");
    assert_eq!(get_document_status("A", &FileObservation::Unreadable, &state), "Error");
    assert_eq!(get_document_status("B", &FileObservation::Absent, &state), "Not downloaded");
    assert_eq!(
        get_document_status("B", &FileObservation::Found("x".to_string()), &state),
        "Not synced"
    );
    let mut pending = state;
    pending.mark_pending_deletion("A");
    assert_eq!(
        get_document_status("A", &FileObservation::Found(body), &pending),
        "Pending deletion"
    );
}

#[test]
fn push_modification_detection_uses_baseline_then_server_checksum() {
    let body = "pushed body";
    let d = doc("A", "docuram/a.md", 3, &calculate_checksum(body));
    let mut state = LocalState::new();
    // No baseline: compared against the descriptor's checksum.
    assert!(!is_push_modified(&d, &state, body));
    assert!(is_push_modified(&d, &state, "changed"));
    // With a baseline: compared against the recorded checksum.
    state.upsert_document(entry("A", &d.path, &calculate_checksum("old"), 3, false));
    assert!(is_push_modified(&d, &state, body));
    assert!(!is_push_modified(&d, &state, "old"));
}

#[test]
fn pending_deletions_and_delete_classes() {
    let mut state = LocalState::new();
    state.upsert_document(entry("A", "docuram/a.md", "sha256:1", 1, true));
    state.upsert_document(entry("B", "docuram/b.md", "sha256:2", 1, false));
    let pending = pending_deletions(&state);
    assert_eq!(pending.len(), 1);
    assert_eq!(pending[0].uuid, "A");

    assert_eq!(classify_delete(&state, "A", true), DeleteClass::Uploaded);
    assert_eq!(classify_delete(&state, "C", true), DeleteClass::LocalOnly);
    assert_eq!(classify_delete(&state, "C", false), DeleteClass::ConfigOnly);
}

#[test]
fn category_cleanup_order_and_skips() {
    assert!(should_skip_category_cleanup("team", "team"));
    assert!(should_skip_category_cleanup("team", "team/docs"));
    assert!(!should_skip_category_cleanup("team/docs/sub", "team/docs"));
    assert!(!should_skip_category_cleanup("teammate", "team/docs"));

    let cats = vec![
        "a".to_string(),
        "a/b/c".to_string(),
        "a/b".to_string(),
        "a/b/c".to_string(),
    ];
    let ordered = unique_categories_deepest_first(&cats);
    assert_eq!(ordered, vec!["a/b/c".to_string(), "a/b".to_string(), "a".to_string()]);
}

#[test]
fn storage_upsert_replaces_and_remove_forgets() {
    let mut state = LocalState::new();
    state.upsert_document(entry("A", "one.md", "sha256:1", 1, false));
    state.upsert_document(entry("B", "two.md", "sha256:2", 1, false));
    state.upsert_document(entry("A", "one.md", "sha256:9", 7, false));
    assert_eq!(state.documents.len(), 2);
    assert_eq!(state.get_document("A").unwrap().version, 7);
    let removed = state.remove_document("A").unwrap();
    assert_eq!(removed.checksum, "sha256:9");
    assert!(state.get_document("A").is_none());
    assert!(state.get_document("B").is_some());
    assert!(state.remove_document("A").is_none());
}

// Every combination of the classification inputs lands in exactly the
// state its defining condition names.
#[test]
fn classification_is_total_and_deterministic() {
    let checksums = ["sha256:same", "sha256:other"];
    for pending in [false, true] {
        for baseline in [None, Some("sha256:same".to_string())] {
            for file in [None, Some(checksums[0].to_string()), Some(checksums[1].to_string())] {
                for remote in [None, Some(2i64), Some(5i64)] {
                    for force in [false, true] {
                        let got = classify_tracked(pending, &baseline, &file, 3, &remote, false);
                        let got_forced = classify_tracked(pending, &baseline, &file, 3, &remote, force);
                        let modified = match (&baseline, &file) {
                            (_, None) => false,
                            (None, Some(_)) => true,
                            (Some(b), Some(f)) => b != f,
                        };
                        let effective = if baseline.is_some() { 3 } else { 0 };
                        let expected = if pending {
                            SyncStatus::PendingDeletion
                        } else if remote.is_none() {
                            SyncStatus::DeletedOnServer
                        } else if file.is_none() {
                            SyncStatus::MissingLocally
                        } else if modified && remote.unwrap() > effective {
                            SyncStatus::Conflict
                        } else if modified {
                            SyncStatus::ModifiedLocally
                        } else if remote.unwrap() > effective {
                            SyncStatus::RemoteAhead
                        } else {
                            SyncStatus::Synced
                        };
                        assert_eq!(got, expected);
                        // A forced run never reports an edit or a conflict.
                        if !pending && remote.is_some() && file.is_some() && force {
                            assert!(got_forced != SyncStatus::Conflict);
                            assert!(got_forced != SyncStatus::ModifiedLocally);
                        }
                    }
                }
            }
        }
    }
}
