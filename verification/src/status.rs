//! Status classification: the reconciler's state machine.  Every tracked
//! document is placed in exactly one synchronization state by comparing its
//! recorded sync baseline against the on-disk content and the remote
//! version snapshot.

use vstd::prelude::*;
use vstd::string::StringExecFns;
use crate::storage::LocalDocumentInfo;
use crate::storage::LocalState;
use crate::checksum;
use crate::text;

verus! {

/// The synchronization state of one document.
#[derive(PartialEq, Eq, Structural, Clone, Copy, Debug)]
pub enum SyncStatus {
    /// Local content matches the last synced state and the server has
    /// nothing newer.
    Synced,
    /// Local content differs from the last synced state; the server has
    /// nothing newer.
    ModifiedLocally,
    /// Local content matches the last synced state but the server has a
    /// newer version.
    RemoteAhead,
    /// The local file is absent.
    MissingLocally,
    /// Local content was edited and the server also has a newer version.
    Conflict,
    /// An on-disk document that carries no known uuid.
    NewLocal,
    /// A remote document whose uuid is not tracked in the manifest.
    NewRemote,
    /// The user asked for deletion; the remote side has not confirmed yet.
    PendingDeletion,
    /// A tracked uuid that the latest remote snapshot no longer lists.
    DeletedOnServer,
}

/// A document's version as one remote snapshot reports it.
pub struct RemoteVersionEntry {
    pub uuid: String,
    pub version: i64,
}

impl Clone for RemoteVersionEntry {
    fn clone(&self) -> (r: Self)
        ensures
            r == *self,
    {
        RemoteVersionEntry { uuid: self.uuid.clone(), version: self.version }
    }
}

/// No two snapshot entries share a uuid.
pub open spec fn snapshot_wf(s: Seq<RemoteVersionEntry>) -> bool {
    forall|i: int, j: int| 0 <= i < j < s.len() ==> s[i].uuid@ != s[j].uuid@
}

pub open spec fn snapshot_has(s: Seq<RemoteVersionEntry>, u: Seq<char>) -> bool {
    exists|i: int| 0 <= i < s.len() && s[i].uuid@ == u
}

pub open spec fn snapshot_version(s: Seq<RemoteVersionEntry>, u: Seq<char>) -> int {
    s[choose|i: int| 0 <= i < s.len() && s[i].uuid@ == u].version as int
}

/// Find a uuid's version in a remote snapshot.
pub fn lookup_remote_version(versions: &Vec<RemoteVersionEntry>, uuid: &str) -> (r: Option<i64>)
    requires
        snapshot_wf(versions@),
    ensures
        match r {
            Some(v) => snapshot_has(versions@, uuid@) && v as int == snapshot_version(
                versions@,
                uuid@,
            ),
            None => !snapshot_has(versions@, uuid@),
        },
{
    let n = versions.len();
    let mut i: usize = 0;
    while i < n
        invariant
            i <= n,
            n == versions@.len(),
            snapshot_wf(versions@),
            forall|j: int| 0 <= j < i ==> versions@[j].uuid@ != uuid@,
        decreases n - i,
    {
        if text::str_eq(versions[i].uuid.as_str(), uuid) {
            proof {
                assert(snapshot_has(versions@, uuid@));
                let j = choose|j: int|
                    0 <= j < versions@.len() && versions@[j].uuid@ == uuid@;
                if j != i as int {
                    assert(versions@[j].uuid@ != versions@[i as int].uuid@);
                }
            }
            return Some(versions[i].version);
        }
        i += 1;
    }
    None
}

/// The view of an optional string.
pub open spec fn opt_view(o: Option<String>) -> Option<Seq<char>> {
    match o {
        Some(s) => Some(s@),
        None => None,
    }
}

/// Local content counts as modified when there is no sync baseline to
/// trust, or when the current file checksum differs from the baseline.
pub open spec fn is_modified_spec(local_checksum: Option<Seq<char>>, file_checksum: Seq<char>) -> bool {
    match local_checksum {
        None => true,
        Some(lc) => file_checksum != lc,
    }
}

/// The version the local copy is at: the descriptor's version once a sync
/// baseline exists, zero when the document was never synced.
pub open spec fn effective_local_version_spec(
    local_checksum: Option<Seq<char>>,
    doc_version: int,
) -> int {
    if local_checksum is Some {
        doc_version
    } else {
        0
    }
}

/// Classification of one tracked document.
///
/// Evaluated in order: a pending deletion wins; a uuid missing from the
/// remote snapshot means deleted on the server; an absent local file is
/// missing locally; then local edits make the document modified (a conflict
/// when the server is also ahead, unless a forced overwrite suppresses
/// conflict detection); otherwise the version comparison decides between
/// remote-ahead and synced.
pub open spec fn classify_spec(
    pending_deletion: bool,
    local_checksum: Option<Seq<char>>,
    file_checksum: Option<Seq<char>>,
    doc_version: int,
    remote_version: Option<int>,
    force: bool,
) -> SyncStatus {
    if pending_deletion {
        SyncStatus::PendingDeletion
    } else if remote_version is None {
        SyncStatus::DeletedOnServer
    } else if file_checksum is None {
        SyncStatus::MissingLocally
    } else {
        let modified = is_modified_spec(local_checksum, file_checksum->Some_0);
        let remote_ahead = remote_version->Some_0 > effective_local_version_spec(
            local_checksum,
            doc_version,
        );
        if modified && !force {
            if remote_ahead {
                SyncStatus::Conflict
            } else {
                SyncStatus::ModifiedLocally
            }
        } else if remote_ahead {
            SyncStatus::RemoteAhead
        } else {
            SyncStatus::Synced
        }
    }
}

/// Classify one tracked document from its sync baseline, the checksum of
/// the on-disk content (`None` when the file is absent), and the version
/// the remote snapshot reports (`None` when the uuid is gone remotely).
pub fn classify_tracked(
    pending_deletion: bool,
    local_checksum: &Option<String>,
    file_checksum: &Option<String>,
    doc_version: i64,
    remote_version: &Option<i64>,
    force: bool,
) -> (r: SyncStatus)
    ensures
        r == classify_spec(
            pending_deletion,
            opt_view(*local_checksum),
            opt_view(*file_checksum),
            doc_version as int,
            match remote_version {
                Some(v) => Some(*v as int),
                None => None,
            },
            force,
        ),
{
    if pending_deletion {
        return SyncStatus::PendingDeletion;
    }
    let rv = match remote_version {
        Some(v) => *v,
        None => {
            return SyncStatus::DeletedOnServer;
        },
    };
    let fc = match file_checksum {
        Some(c) => c,
        None => {
            return SyncStatus::MissingLocally;
        },
    };
    let modified = match local_checksum {
        None => true,
        Some(lc) => !text::str_eq(fc.as_str(), lc.as_str()),
    };
    let effective_local: i64 = if local_checksum.is_some() {
        doc_version
    } else {
        0
    };
    let remote_ahead = rv > effective_local;
    if modified && !force {
        if remote_ahead {
            SyncStatus::Conflict
        } else {
            SyncStatus::ModifiedLocally
        }
    } else if remote_ahead {
        SyncStatus::RemoteAhead
    } else {
        SyncStatus::Synced
    }
}

/// Classification coverage: every combination of pending flag, baseline,
/// file checksum, versions and force flag lands in exactly one of the
/// defined states, and the defining condition of each state characterizes
/// it exactly.
pub proof fn lemma_classification_coverage(
    pending_deletion: bool,
    local_checksum: Option<Seq<char>>,
    file_checksum: Option<Seq<char>>,
    doc_version: int,
    remote_version: Option<int>,
    force: bool,
)
    ensures
        ({
            let r = classify_spec(
                pending_deletion,
                local_checksum,
                file_checksum,
                doc_version,
                remote_version,
                force,
            );
            let present = !pending_deletion && remote_version is Some && file_checksum is Some;
            let modified = file_checksum is Some && is_modified_spec(
                local_checksum,
                file_checksum->Some_0,
            );
            let remote_ahead = remote_version is Some && remote_version->Some_0
                > effective_local_version_spec(local_checksum, doc_version);
            &&& (r == SyncStatus::PendingDeletion <==> pending_deletion)
            &&& (r == SyncStatus::DeletedOnServer <==> !pending_deletion && remote_version
                is None)
            &&& (r == SyncStatus::MissingLocally <==> !pending_deletion && remote_version
                is Some && file_checksum is None)
            &&& (r == SyncStatus::Conflict <==> present && modified && !force && remote_ahead)
            &&& (r == SyncStatus::ModifiedLocally <==> present && modified && !force
                && !remote_ahead)
            &&& (r == SyncStatus::RemoteAhead <==> present && !(modified && !force)
                && remote_ahead)
            &&& (r == SyncStatus::Synced <==> present && !(modified && !force) && !remote_ahead)
        }),
{
}

/// Conflict precedence: a document that is both locally modified and behind
/// the server classifies as a conflict, never as a plain local edit and
/// never as merely remote-ahead.
pub proof fn lemma_conflict_precedence(
    local_checksum: Option<Seq<char>>,
    file_checksum: Seq<char>,
    doc_version: int,
    remote_version: int,
)
    requires
        is_modified_spec(local_checksum, file_checksum),
        remote_version > effective_local_version_spec(local_checksum, doc_version),
    ensures
        classify_spec(
            false,
            local_checksum,
            Some(file_checksum),
            doc_version,
            Some(remote_version),
            false,
        ) == SyncStatus::Conflict,
{
}

/// An observation of one local file, handed in by the caller that touched
/// the filesystem.
pub enum FileObservation {
    /// No file at the derived path.
    Absent,
    /// A file is present but its content could not be read.
    Unreadable,
    /// The file's full content.
    Found(String),
}

/// The status word that the document list shows for one tracked document.
pub open spec fn document_status_spec(
    entry: Option<LocalDocumentInfo>,
    obs: FileObservation,
) -> Seq<char> {
    match entry {
        Some(d) => {
            if d.pending_deletion {
                "Pending deletion"@
            } else {
                match obs {
                    FileObservation::Absent => "Missing"@,
                    FileObservation::Unreadable => "Error"@,
                    FileObservation::Found(content) => {
                        if checksum::checksum_of(content@) == d.checksum@ {
                            "Synced"@
                        } else {
                            "Modified"@
                        }
                    },
                }
            }
        },
        None => match obs {
            FileObservation::Absent => "Not downloaded"@,
            _ => "Not synced"@,
        },
    }
}

/// The display status of one tracked document, given what the caller
/// observed at the document's local path.
pub fn get_document_status(uuid: &str, observed: &FileObservation, local_state: &LocalState) -> (r:
    String)
    ensures
        r@ == document_status_spec(local_state.spec_get(uuid@), *observed),
{
    match local_state.get_document(uuid) {
        Some(d) => {
            if d.pending_deletion {
                String::from_str("Pending deletion")
            } else {
                match observed {
                    FileObservation::Absent => String::from_str("Missing"),
                    FileObservation::Unreadable => String::from_str("Error"),
                    FileObservation::Found(content) => {
                        let current = checksum::calculate_checksum(content.as_str());
                        if text::str_eq(current.as_str(), d.checksum.as_str()) {
                            String::from_str("Synced")
                        } else {
                            String::from_str("Modified")
                        }
                    },
                }
            }
        },
        None => match observed {
            FileObservation::Absent => String::from_str("Not downloaded"),
            _ => String::from_str("Not synced"),
        },
    }
}

/// The local version column for one document: its recorded version, or a
/// dash when the document has no record.
pub fn get_local_version(uuid: &str, local_state: &LocalState) -> (r: String)
    ensures
        r@ == match local_state.spec_get(uuid@) {
            Some(d) => text::int_str_spec(d.version as int),
            None => "-"@,
        },
{
    match local_state.get_document(uuid) {
        Some(d) => text::i64_to_dec(d.version),
        None => String::from_str("-"),
    }
}

/// The remote version column for one document: the snapshot's version, or
/// a dash when the snapshot failed or does not list the uuid.
pub fn get_remote_version(uuid: &str, remote_versions: &Option<Vec<RemoteVersionEntry>>) -> (r:
    String)
    requires
        match remote_versions {
            Some(vs) => snapshot_wf(vs@),
            None => true,
        },
    ensures
        r@ == match remote_versions {
            Some(vs) => if snapshot_has(vs@, uuid@) {
                text::int_str_spec(snapshot_version(vs@, uuid@))
            } else {
                "-"@
            },
            None => "-"@,
        },
{
    match remote_versions {
        Some(vs) => match lookup_remote_version(vs, uuid) {
            Some(v) => text::i64_to_dec(v),
            None => String::from_str("-"),
        },
        None => String::from_str("-"),
    }
}

} // verus!
