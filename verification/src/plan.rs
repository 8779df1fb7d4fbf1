//! Sync planning and state updates: what pull and push decide per
//! document, and how a confirmed transfer or deletion changes the local
//! state.  The network and filesystem work around these decisions stays in
//! the application shell; every decision and every state change is
//! verified here.

use vstd::prelude::*;
use crate::checksum;
use crate::config::DocumentInfo;
use crate::status::opt_view;
use crate::storage::LocalDocumentInfo;
use crate::storage::LocalState;
use crate::text;

verus! {

/// What pull does with one tracked document.
#[derive(PartialEq, Eq, Structural, Clone, Copy, Debug)]
pub enum PullDecision {
    /// Local edits exist and no forced overwrite was requested: leave the
    /// file alone and surface the conflict.
    Conflict,
    /// The local copy is already up to date: write nothing.
    Skip,
    /// Download the document and overwrite the local file.
    Update,
}

/// The pull decision for one tracked document.
///
/// An absent file is always downloaded.  A present file whose checksum
/// differs from the sync baseline (or that has no baseline) is locally
/// modified: without a forced overwrite that is a conflict.  Otherwise the
/// document is updated exactly when the remote version is newer than the
/// recorded one; a snapshot that does not list the uuid falls back to the
/// descriptor's version.
pub open spec fn plan_pull_spec(
    doc_version: int,
    local: Option<LocalDocumentInfo>,
    file_content: Option<Seq<char>>,
    remote_version: Option<int>,
    force: bool,
) -> PullDecision {
    match file_content {
        None => PullDecision::Update,
        Some(content) => {
            let current = checksum::checksum_of(content);
            let modified = match local {
                None => true,
                Some(info) => current != info.checksum@,
            };
            if modified && !force {
                PullDecision::Conflict
            } else {
                let local_version = match local {
                    Some(info) => info.version as int,
                    None => 0,
                };
                let rv = match remote_version {
                    Some(v) => v,
                    None => doc_version,
                };
                if rv > local_version {
                    PullDecision::Update
                } else {
                    PullDecision::Skip
                }
            }
        },
    }
}

/// Decide what pull does with one tracked document, given the on-disk
/// content (`None` when the file is absent) and the remote snapshot's
/// version for its uuid (`None` when the snapshot does not list it).
pub fn plan_pull(
    doc: &DocumentInfo,
    local_state: &LocalState,
    file_content: &Option<String>,
    remote_version: &Option<i64>,
    force: bool,
) -> (r: PullDecision)
    ensures
        r == plan_pull_spec(
            doc.version as int,
            local_state.spec_get(doc.uuid@),
            opt_view(*file_content),
            match remote_version {
                Some(v) => Some(*v as int),
                None => None,
            },
            force,
        ),
{
    let content = match file_content {
        Some(c) => c,
        None => {
            return PullDecision::Update;
        },
    };
    let current = checksum::calculate_checksum(content.as_str());
    let local = local_state.get_document(doc.uuid.as_str());
    let modified = match local {
        None => true,
        Some(info) => !text::str_eq(current.as_str(), info.checksum.as_str()),
    };
    if modified && !force {
        PullDecision::Conflict
    } else {
        let local_version: i64 = match local {
            Some(info) => info.version,
            None => 0,
        };
        let rv: i64 = match remote_version {
            Some(v) => *v,
            None => doc.version,
        };
        if rv > local_version {
            PullDecision::Update
        } else {
            PullDecision::Skip
        }
    }
}

/// Record a successful sync of one document: the state maps its uuid to
/// the given path, checksum and server-assigned version, with the pending
/// deletion flag cleared.  Every other record is untouched.
pub fn record_synced(
    local_state: &mut LocalState,
    uuid: &str,
    path: &str,
    content_checksum: &str,
    version: i64,
    now: String,
)
    requires
        old(local_state).wf(),
    ensures
        final(local_state).wf(),
        final(local_state).spec_get(uuid@) is Some,
        ({
            let d = final(local_state).spec_get(uuid@)->Some_0;
            &&& d.uuid@ == uuid@
            &&& d.path@ == path@
            &&& d.checksum@ == content_checksum@
            &&& d.version == version
            &&& d.last_sync@ == now@
            &&& d.pending_deletion == false
        }),
        forall|u: Seq<char>|
            u != uuid@ ==> final(local_state).spec_get(u) == old(local_state).spec_get(u),
{
    let info = LocalDocumentInfo {
        uuid: text::concat_str(uuid, ""),
        path: text::concat_str(path, ""),
        checksum: text::concat_str(content_checksum, ""),
        version,
        last_sync: now,
        pending_deletion: false,
    };
    proof {
        reveal_strlit("");
        assert(info.uuid@ =~= uuid@);
        assert(info.path@ =~= path@);
        assert(info.checksum@ =~= content_checksum@);
    }
    local_state.upsert_document(info);
}

/// Record a completed download: the written content's checksum becomes the
/// new baseline and the server's version the recorded one.
pub fn apply_pull(
    local_state: &mut LocalState,
    doc: &DocumentInfo,
    content: &str,
    version: i64,
    now: String,
)
    requires
        old(local_state).wf(),
    ensures
        final(local_state).wf(),
        final(local_state).spec_get(doc.uuid@) is Some,
        ({
            let d = final(local_state).spec_get(doc.uuid@)->Some_0;
            &&& d.uuid@ == doc.uuid@
            &&& d.path@ == doc.path@
            &&& d.checksum@ == checksum::checksum_of(content@)
            &&& d.version == version
            &&& d.last_sync@ == now@
            &&& d.pending_deletion == false
        }),
        forall|u: Seq<char>|
            u != doc.uuid@ ==> final(local_state).spec_get(u) == old(local_state).spec_get(u),
{
    let content_checksum = checksum::calculate_checksum(content);
    record_synced(
        local_state,
        doc.uuid.as_str(),
        doc.path.as_str(),
        content_checksum.as_str(),
        version,
        now,
    );
}

/// Pull is idempotent: once a pull recorded a content checksum and the
/// remote version, a second pull that sees the same on-disk content and
/// the same remote version decides to skip the document, so it writes no
/// file and changes no record.
pub proof fn lemma_pull_idempotent(
    doc_version: int,
    entry: LocalDocumentInfo,
    content: Seq<char>,
    remote_version: int,
)
    requires
        entry.checksum@ == checksum::checksum_of(content),
        entry.version as int == remote_version,
    ensures
        plan_pull_spec(doc_version, Some(entry), Some(content), Some(remote_version), false)
            == PullDecision::Skip,
{
}

/// Whether a tracked working document must be uploaded: its current
/// content differs from the sync baseline, or, when it was never synced,
/// from the server-declared checksum in its descriptor.
pub open spec fn push_modified_spec(
    doc_checksum: Seq<char>,
    local: Option<LocalDocumentInfo>,
    content: Seq<char>,
) -> bool {
    let current = checksum::checksum_of(content);
    match local {
        Some(info) => current != info.checksum@,
        None => current != doc_checksum,
    }
}

pub fn is_push_modified(doc: &DocumentInfo, local_state: &LocalState, content: &str) -> (r: bool)
    ensures
        r == push_modified_spec(doc.checksum@, local_state.spec_get(doc.uuid@), content@),
{
    let current = checksum::calculate_checksum(content);
    match local_state.get_document(doc.uuid.as_str()) {
        Some(info) => !text::str_eq(current.as_str(), info.checksum.as_str()),
        None => !text::str_eq(current.as_str(), doc.checksum.as_str()),
    }
}

/// The records marked for deletion, in store order.
pub fn pending_deletions(local_state: &LocalState) -> (r: Vec<LocalDocumentInfo>)
    ensures
        r@ == local_state.documents@.filter(|d: LocalDocumentInfo| d.pending_deletion),
{
    let ghost pred = |d: LocalDocumentInfo| d.pending_deletion;
    proof {
        reveal(Seq::filter);
    }
    let mut out: Vec<LocalDocumentInfo> = Vec::new();
    let n = local_state.documents.len();
    let mut i: usize = 0;
    while i < n
        invariant
            i <= n,
            n == local_state.documents@.len(),
            pred == (|d: LocalDocumentInfo| d.pending_deletion),
            out@ == local_state.documents@.subrange(0, i as int).filter(pred),
        decreases n - i,
    {
        let ghost pre = local_state.documents@.subrange(0, i as int);
        let ghost post = local_state.documents@.subrange(0, i + 1);
        proof {
            assert(post.drop_last() =~= pre);
            assert(post.last() == local_state.documents@[i as int]);
            assert(pred(post.last()) == local_state.documents@[i as int].pending_deletion);
        }
        if local_state.documents[i].pending_deletion {
            out.push(local_state.documents[i].clone());
        }
        proof {
            reveal(Seq::filter);
            assert(post.filter(pred) == if pred(post.last()) {
                pre.filter(pred).push(post.last())
            } else {
                pre.filter(pred)
            });
        }
        i += 1;
    }
    proof {
        assert(local_state.documents@.subrange(0, n as int) =~= local_state.documents@);
    }
    out
}

/// Record the outcome of one remote delete during push.  A confirmed
/// deletion removes the record entirely; a failed one leaves the whole
/// state unchanged, so the document stays pending for the next push.
pub fn record_remote_deletion(local_state: &mut LocalState, uuid: &str, deleted: bool)
    requires
        old(local_state).wf(),
    ensures
        final(local_state).wf(),
        deleted ==> final(local_state).spec_get(uuid@) is None,
        deleted ==> forall|u: Seq<char>|
            u != uuid@ ==> final(local_state).spec_get(u) == old(local_state).spec_get(u),
        !deleted ==> *final(local_state) == *old(local_state),
{
    if deleted {
        let _removed = local_state.remove_document(uuid);
    }
}

/// How a document selected for deletion is handled.
#[derive(PartialEq, Eq, Structural, Clone, Copy, Debug)]
pub enum DeleteClass {
    /// Known to the sync state: delete the file and mark the record
    /// pending deletion for the next push.
    Uploaded,
    /// On disk but never synced: delete the file only.
    LocalOnly,
    /// In the manifest but neither synced nor on disk: drop it from the
    /// manifest only.
    ConfigOnly,
}

pub open spec fn classify_delete_spec(in_state: bool, file_exists: bool) -> DeleteClass {
    if in_state {
        DeleteClass::Uploaded
    } else if file_exists {
        DeleteClass::LocalOnly
    } else {
        DeleteClass::ConfigOnly
    }
}

/// Classify one document selected for deletion by whether its uuid has a
/// sync record and whether its file exists.
pub fn classify_delete(local_state: &LocalState, uuid: &str, file_exists: bool) -> (r: DeleteClass)
    ensures
        r == classify_delete_spec(local_state.spec_get(uuid@) is Some, file_exists),
{
    let in_state = local_state.get_document(uuid).is_some();
    if in_state {
        DeleteClass::Uploaded
    } else if file_exists {
        DeleteClass::LocalOnly
    } else {
        DeleteClass::ConfigOnly
    }
}

/// Category cleanup after deletions never touches the working category or
/// any of its ancestors.
pub open spec fn skip_category_cleanup_spec(category: Seq<char>, working: Seq<char>) -> bool {
    category == working || text::has_prefix(working, category + "/"@)
}

pub fn should_skip_category_cleanup(category_path: &str, working_category_path: &str) -> (r: bool)
    ensures
        r == skip_category_cleanup_spec(category_path@, working_category_path@),
{
    if text::str_eq(category_path, working_category_path) {
        return true;
    }
    proof {
        reveal_strlit("/");
    }
    let prefix = text::concat_str(category_path, "/");
    text::starts_with(working_category_path, prefix.as_str())
}

/// The number of separators in a category path: its depth.
pub open spec fn slash_count_spec(s: Seq<char>) -> int
    decreases s.len(),
{
    if s.len() == 0 {
        0
    } else if s.last() == '/' {
        slash_count_spec(s.drop_last()) + 1
    } else {
        slash_count_spec(s.drop_last())
    }
}

pub fn slash_count(s: &str) -> (r: usize)
    ensures
        r as int == slash_count_spec(s@),
{
    let slen = vstd::string::StrSliceExecFns::unicode_len(s);
    let mut count: usize = 0;
    let mut i: usize = 0;
    while i < slen
        invariant
            i <= slen,
            slen == s@.len(),
            count <= i,
            count as int == slash_count_spec(s@.subrange(0, i as int)),
        decreases slen - i,
    {
        let ghost pre = s@.subrange(0, i as int);
        let ghost post = s@.subrange(0, i + 1);
        proof {
            assert(post.drop_last() =~= pre);
            assert(post.last() == s@[i as int]);
        }
        if vstd::string::StrSliceExecFns::get_char(s, i) == '/' {
            count += 1;
        }
        i += 1;
    }
    proof {
        assert(s@.subrange(0, slen as int) =~= s@);
    }
    count
}

/// Whether a sequence of category paths contains the given one.
pub open spec fn contains_path(s: Seq<String>, p: Seq<char>) -> bool {
    exists|i: int| 0 <= i < s.len() && s[i]@ == p
}

fn vec_contains_str(v: &Vec<String>, s: &str) -> (r: bool)
    ensures
        r == contains_path(v@, s@),
{
    let n = v.len();
    let mut i: usize = 0;
    while i < n
        invariant
            i <= n,
            n == v@.len(),
            forall|j: int| 0 <= j < i ==> v@[j]@ != s@,
        decreases n - i,
    {
        if text::str_eq(v[i].as_str(), s) {
            return true;
        }
        i += 1;
    }
    false
}

/// The distinct category paths of the input, ordered deepest first, so
/// that a child category is always cleaned up before its parent.
pub fn unique_categories_deepest_first(categories: &Vec<String>) -> (r: Vec<String>)
    ensures
        forall|i: int, j: int| 0 <= i < j < r@.len() ==> r@[i]@ != r@[j]@,
        forall|p: Seq<char>| contains_path(r@, p) <==> contains_path(categories@, p),
        forall|i: int, j: int|
            0 <= i < j < r@.len() ==> slash_count_spec(r@[i]@) >= slash_count_spec(r@[j]@),
{
    let mut uniq: Vec<String> = Vec::new();
    let n = categories.len();
    let mut i: usize = 0;
    while i < n
        invariant
            i <= n,
            n == categories@.len(),
            forall|p: int, q: int| 0 <= p < q < uniq@.len() ==> uniq@[p]@ != uniq@[q]@,
            forall|p: Seq<char>|
                contains_path(uniq@, p) <==> contains_path(categories@.subrange(0, i as int), p),
        decreases n - i,
    {
        let present = vec_contains_str(&uniq, categories[i].as_str());
        let ghost before = uniq@;
        if !present {
            uniq.push(categories[i].clone());
        }
        proof {
            let pre = categories@.subrange(0, i as int);
            let post = categories@.subrange(0, i + 1);
            assert forall|p: Seq<char>| contains_path(uniq@, p) implies contains_path(
                post,
                p,
            ) by {
                let k = choose|k: int| 0 <= k < uniq@.len() && uniq@[k]@ == p;
                if k < before.len() {
                    assert(contains_path(before, p));
                    let m = choose|m: int| 0 <= m < pre.len() && pre[m]@ == p;
                    assert(post[m]@ == p);
                } else {
                    assert(uniq@[k]@ == categories@[i as int]@);
                    assert(post[i as int]@ == p);
                }
            }
            assert forall|p: Seq<char>| contains_path(post, p) implies contains_path(
                uniq@,
                p,
            ) by {
                let m = choose|m: int| 0 <= m < post.len() && post[m]@ == p;
                if m < i as int {
                    assert(pre[m]@ == p);
                    assert(contains_path(before, p));
                    let k = choose|k: int| 0 <= k < before.len() && before[k]@ == p;
                    assert(uniq@[k]@ == p);
                } else {
                    assert(p == categories@[i as int]@);
                    if present {
                        let k = choose|k: int|
                            0 <= k < before.len() && before[k]@ == categories@[i as int]@;
                        assert(uniq@[k]@ == p);
                    } else {
                        assert(uniq@[uniq@.len() - 1]@ == p);
                    }
                }
            }
        }
        i += 1;
    }
    proof {
        assert(categories@.subrange(0, n as int) =~= categories@);
    }
    // Insertion sort by depth, deepest first; equal depths keep their
    // relative order.
    let mut sorted: Vec<String> = Vec::new();
    let mut k: usize = 0;
    while k < uniq.len()
        invariant
            k <= uniq@.len(),
            forall|p: int, q: int| 0 <= p < q < uniq@.len() ==> uniq@[p]@ != uniq@[q]@,
            forall|p: int, q: int|
                0 <= p < q < sorted@.len() ==> slash_count_spec(sorted@[p]@) >= slash_count_spec(
                    sorted@[q]@,
                ),
            forall|p: int, q: int| 0 <= p < q < sorted@.len() ==> sorted@[p]@ != sorted@[q]@,
            forall|p: Seq<char>|
                contains_path(sorted@, p) <==> contains_path(uniq@.subrange(0, k as int), p),
        decreases uniq@.len() - k,
    {
        let item = uniq[k].clone();
        let depth = slash_count(item.as_str());
        let mut pos: usize = 0;
        loop
            invariant
                pos <= sorted@.len(),
                depth as int == slash_count_spec(item@),
                forall|p: int|
                    0 <= p < pos ==> slash_count_spec(sorted@[p]@) >= slash_count_spec(item@),
            ensures
                pos <= sorted@.len(),
                forall|p: int|
                    0 <= p < pos ==> slash_count_spec(sorted@[p]@) >= slash_count_spec(item@),
                pos < sorted@.len() ==> slash_count_spec(sorted@[pos as int]@) < slash_count_spec(
                    item@,
                ),
            decreases sorted@.len() - pos,
        {
            if pos >= sorted.len() {
                break ;
            }
            let d = slash_count(sorted[pos].as_str());
            if d < depth {
                break ;
            }
            pos += 1;
        }
        let ghost before = sorted@;
        let ghost posg = pos as int;
        proof {
            if posg < before.len() {
                assert(slash_count_spec(before[posg]@) < slash_count_spec(item@));
            }
        }
        sorted.insert(pos, item);
        proof {
            let pre = uniq@.subrange(0, k as int);
            let post = uniq@.subrange(0, k + 1);
            assert(post.drop_last() =~= pre);
            assert(post.last() == uniq@[k as int]);
            // Sortedness after the insertion.
            assert forall|p: int, q: int|
                0 <= p < q < sorted@.len() implies slash_count_spec(sorted@[p]@)
                >= slash_count_spec(sorted@[q]@) by {
                let p0 = if p < posg {
                    p
                } else {
                    p - 1
                };
                let q0 = if q < posg {
                    q
                } else {
                    q - 1
                };
                if p == posg && q > posg {
                    assert(sorted@[q] == before[q - 1]);
                    if q - 1 == posg {
                    } else {
                        assert(slash_count_spec(before[posg]@) >= slash_count_spec(
                            before[q - 1]@,
                        ));
                    }
                } else if p < posg && q == posg {
                    assert(sorted@[p] == before[p]);
                } else if p < posg && q > posg {
                    assert(sorted@[p] == before[p]);
                    assert(sorted@[q] == before[q - 1]);
                    if q - 1 == p {
                    } else {
                        assert(slash_count_spec(before[p]@) >= slash_count_spec(before[q - 1]@));
                    }
                } else {
                    assert(sorted@[p] == before[p0]);
                    assert(sorted@[q] == before[q0]);
                }
            }
            // The inserted element was not yet present.
            assert(!contains_path(pre, uniq@[k as int]@));
            assert(!contains_path(before, uniq@[k as int]@));
            // Distinctness after the insertion.
            assert forall|p: int, q: int|
                0 <= p < q < sorted@.len() implies sorted@[p]@ != sorted@[q]@ by {
                let p0 = if p < posg {
                    p
                } else {
                    p - 1
                };
                let q0 = if q < posg {
                    q
                } else {
                    q - 1
                };
                if p == posg {
                    assert(sorted@[q] == before[q - 1]);
                    assert(!contains_path(before, sorted@[p]@));
                } else if q == posg {
                    assert(sorted@[p] == before[p]);
                    assert(!contains_path(before, sorted@[q]@));
                } else {
                    assert(sorted@[p] == before[p0]);
                    assert(sorted@[q] == before[q0]);
                }
            }
            // Containment both ways after the insertion.
            assert forall|p: Seq<char>| contains_path(sorted@, p) implies contains_path(
                post,
                p,
            ) by {
                let m = choose|m: int| 0 <= m < sorted@.len() && sorted@[m]@ == p;
                if m == posg {
                    assert(post[post.len() - 1]@ == p);
                } else {
                    let m0 = if m < posg {
                        m
                    } else {
                        m - 1
                    };
                    assert(before[m0]@ == p);
                    assert(contains_path(before, p));
                    assert(contains_path(pre, p));
                    let w = choose|w: int| 0 <= w < pre.len() && pre[w]@ == p;
                    assert(post[w]@ == p);
                }
            }
            assert forall|p: Seq<char>| contains_path(post, p) implies contains_path(
                sorted@,
                p,
            ) by {
                let m = choose|m: int| 0 <= m < post.len() && post[m]@ == p;
                if m == post.len() - 1 {
                    assert(sorted@[posg]@ == p);
                } else {
                    assert(pre[m]@ == p);
                    assert(contains_path(before, p));
                    let w = choose|w: int| 0 <= w < before.len() && before[w]@ == p;
                    let w1 = if w < posg {
                        w
                    } else {
                        w + 1
                    };
                    assert(sorted@[w1]@ == p);
                }
            }
        }
        k += 1;
    }
    proof {
        assert(uniq@.subrange(0, uniq@.len() as int) =~= uniq@);
        assert forall|p: Seq<char>| contains_path(sorted@, p) implies contains_path(
            categories@,
            p,
        ) by {}
    }
    sorted
}

} // verus!
