//! Matching documents across the three systems of record: the manifest,
//! the local sync state, and what a filesystem scan found.  Decides which
//! files count as new, which tracked documents a path names, and which
//! documents live under a directory.

use vstd::prelude::*;
use vstd::string::StrSliceExecFns;
use vstd::string::StringExecFns;
use crate::config::DocumentInfo;
use crate::config::DocuramConfig;
use crate::frontmatter;
use crate::frontmatter::FrontMatter;
use crate::storage::LocalDocumentInfo;
use crate::storage::LocalState;
use crate::storage::lookup_seq;
use crate::storage::seq_has_uuid;
use crate::text;

verus! {

/// Some document in the list carries the given server path.
pub open spec fn known_by_path(docs: Seq<DocumentInfo>, p: Seq<char>) -> bool {
    exists|i: int| 0 <= i < docs.len() && (#[trigger] docs[i]).path@ == p
}

/// Some document in the list carries the given uuid.
pub open spec fn known_by_uuid(docs: Seq<DocumentInfo>, u: Seq<char>) -> bool {
    exists|i: int| 0 <= i < docs.len() && (#[trigger] docs[i]).uuid@ == u
}

/// Some sync record carries the given file path.
pub open spec fn state_has_path(entries: Seq<LocalDocumentInfo>, p: Seq<char>) -> bool {
    exists|i: int| 0 <= i < entries.len() && (#[trigger] entries[i]).path@ == p
}

fn docs_have_path(docs: &Vec<DocumentInfo>, p: &str) -> (r: bool)
    ensures
        r == known_by_path(docs@, p@),
{
    let n = docs.len();
    let mut i: usize = 0;
    while i < n
        invariant
            i <= n,
            n == docs@.len(),
            forall|j: int| 0 <= j < i ==> (#[trigger] docs@[j]).path@ != p@,
        decreases n - i,
    {
        if text::str_eq(docs[i].path.as_str(), p) {
            return true;
        }
        i += 1;
    }
    false
}

fn docs_have_uuid(docs: &Vec<DocumentInfo>, u: &str) -> (r: bool)
    ensures
        r == known_by_uuid(docs@, u@),
{
    let n = docs.len();
    let mut i: usize = 0;
    while i < n
        invariant
            i <= n,
            n == docs@.len(),
            forall|j: int| 0 <= j < i ==> (#[trigger] docs@[j]).uuid@ != u@,
        decreases n - i,
    {
        if text::str_eq(docs[i].uuid.as_str(), u) {
            return true;
        }
        i += 1;
    }
    false
}

fn state_path_present(local_state: &LocalState, p: &str) -> (r: bool)
    ensures
        r == state_has_path(local_state.documents@, p@),
{
    let n = local_state.documents.len();
    let mut i: usize = 0;
    while i < n
        invariant
            i <= n,
            n == local_state.documents@.len(),
            forall|j: int| 0 <= j < i ==> (#[trigger] local_state.documents@[j]).path@ != p@,
        decreases n - i,
    {
        if text::str_eq(local_state.documents[i].path.as_str(), p) {
            return true;
        }
        i += 1;
    }
    false
}

/// A scanned file is a new document exactly when neither its path nor the
/// uuid in its front matter is known to the manifest or the sync state.
pub open spec fn is_new_document_spec(
    docs: Seq<DocumentInfo>,
    entries: Seq<LocalDocumentInfo>,
    file_path: Seq<char>,
    fm_uuid: Option<Seq<char>>,
) -> bool {
    &&& !known_by_path(docs, file_path)
    &&& !state_has_path(entries, file_path)
    &&& match fm_uuid {
        Some(u) => !known_by_uuid(docs, u) && !seq_has_uuid(entries, u),
        None => true,
    }
}

/// Decide whether a scanned file counts as a new document against the
/// given document list and the sync state.
pub fn is_new_document(
    docs: &Vec<DocumentInfo>,
    local_state: &LocalState,
    file_path: &str,
    fm_uuid: &Option<String>,
) -> (r: bool)
    ensures
        r == is_new_document_spec(
            docs@,
            local_state.documents@,
            file_path@,
            match fm_uuid {
                Some(u) => Some(u@),
                None => None,
            },
        ),
{
    if docs_have_path(docs, file_path) {
        return false;
    }
    if state_path_present(local_state, file_path) {
        return false;
    }
    match fm_uuid {
        Some(u) => {
            if docs_have_uuid(docs, u.as_str()) {
                return false;
            }
            if local_state.get_document(u.as_str()).is_some() {
                proof {
                    crate::storage::lemma_lookup_some_iff_has(local_state.documents@, u@);
                }
                return false;
            }
            proof {
                crate::storage::lemma_lookup_some_iff_has(local_state.documents@, u@);
            }
            true
        },
        None => true,
    }
}

/// A document selected for deletion, with what the deletion needs to know
/// about it.
pub struct DocumentToDelete {
    pub uuid: String,
    pub title: String,
    pub path: String,
    pub category_uuid: String,
    pub category_path: String,
}

impl Clone for DocumentToDelete {
    fn clone(&self) -> (r: Self)
        ensures
            r == *self,
    {
        DocumentToDelete {
            uuid: self.uuid.clone(),
            title: self.title.clone(),
            path: self.path.clone(),
            category_uuid: self.category_uuid.clone(),
            category_path: self.category_path.clone(),
        }
    }
}

/// The first document in the list with the given server path.
pub open spec fn find_doc_by_path(docs: Seq<DocumentInfo>, p: Seq<char>) -> Option<DocumentInfo>
    decreases docs.len(),
{
    if docs.len() == 0 {
        None
    } else if docs.first().path@ == p {
        Some(docs.first())
    } else {
        find_doc_by_path(docs.drop_first(), p)
    }
}

/// The first document in the list with the given uuid.
pub open spec fn find_doc_by_uuid(docs: Seq<DocumentInfo>, u: Seq<char>) -> Option<DocumentInfo>
    decreases docs.len(),
{
    if docs.len() == 0 {
        None
    } else if docs.first().uuid@ == u {
        Some(docs.first())
    } else {
        find_doc_by_uuid(docs.drop_first(), u)
    }
}

/// The first sync record with the given file path.
pub open spec fn find_state_by_path(entries: Seq<LocalDocumentInfo>, p: Seq<char>) -> Option<
    LocalDocumentInfo,
>
    decreases entries.len(),
{
    if entries.len() == 0 {
        None
    } else if entries.first().path@ == p {
        Some(entries.first())
    } else {
        find_state_by_path(entries.drop_first(), p)
    }
}

proof fn lemma_find_doc_by_path_found(docs: Seq<DocumentInfo>, p: Seq<char>, i: int)
    requires
        0 <= i < docs.len(),
        docs[i].path@ == p,
        forall|j: int| 0 <= j < i ==> (#[trigger] docs[j]).path@ != p,
    ensures
        find_doc_by_path(docs, p) == Some(docs[i]),
    decreases i,
{
    if i > 0 {
        lemma_find_doc_by_path_found(docs.drop_first(), p, i - 1);
    }
}

proof fn lemma_find_doc_by_path_none(docs: Seq<DocumentInfo>, p: Seq<char>)
    requires
        forall|j: int| 0 <= j < docs.len() ==> (#[trigger] docs[j]).path@ != p,
    ensures
        find_doc_by_path(docs, p) is None,
    decreases docs.len(),
{
    if docs.len() > 0 {
        lemma_find_doc_by_path_none(docs.drop_first(), p);
    }
}

proof fn lemma_find_doc_by_uuid_found(docs: Seq<DocumentInfo>, u: Seq<char>, i: int)
    requires
        0 <= i < docs.len(),
        docs[i].uuid@ == u,
        forall|j: int| 0 <= j < i ==> (#[trigger] docs[j]).uuid@ != u,
    ensures
        find_doc_by_uuid(docs, u) == Some(docs[i]),
    decreases i,
{
    if i > 0 {
        lemma_find_doc_by_uuid_found(docs.drop_first(), u, i - 1);
    }
}

proof fn lemma_find_doc_by_uuid_none(docs: Seq<DocumentInfo>, u: Seq<char>)
    requires
        forall|j: int| 0 <= j < docs.len() ==> (#[trigger] docs[j]).uuid@ != u,
    ensures
        find_doc_by_uuid(docs, u) is None,
    decreases docs.len(),
{
    if docs.len() > 0 {
        lemma_find_doc_by_uuid_none(docs.drop_first(), u);
    }
}

proof fn lemma_find_state_by_path_found(entries: Seq<LocalDocumentInfo>, p: Seq<char>, i: int)
    requires
        0 <= i < entries.len(),
        entries[i].path@ == p,
        forall|j: int| 0 <= j < i ==> (#[trigger] entries[j]).path@ != p,
    ensures
        find_state_by_path(entries, p) == Some(entries[i]),
    decreases i,
{
    if i > 0 {
        lemma_find_state_by_path_found(entries.drop_first(), p, i - 1);
    }
}

proof fn lemma_find_state_by_path_none(entries: Seq<LocalDocumentInfo>, p: Seq<char>)
    requires
        forall|j: int| 0 <= j < entries.len() ==> (#[trigger] entries[j]).path@ != p,
    ensures
        find_state_by_path(entries, p) is None,
    decreases entries.len(),
{
    if entries.len() > 0 {
        lemma_find_state_by_path_none(entries.drop_first(), p);
    }
}

/// The title a path names when nothing better is known: the filename's
/// stem, or a placeholder for a path without one.
pub open spec fn title_or_unknown_spec(p: Seq<char>) -> Seq<char> {
    if text::last_segment_spec(p).len() == 0 {
        "Unknown"@
    } else {
        frontmatter::title_of_path_spec(p)
    }
}

fn title_or_unknown(p: &str) -> (r: String)
    ensures
        r@ == title_or_unknown_spec(p@),
{
    let seg = text::last_segment(p);
    if seg.as_str().is_empty() {
        String::from_str("Unknown")
    } else {
        frontmatter::extract_title(p)
    }
}

fn exec_find_doc_by_path<'a>(docs: &'a Vec<DocumentInfo>, p: &str) -> (r: Option<
    &'a DocumentInfo,
>)
    ensures
        match r {
            Some(d) => find_doc_by_path(docs@, p@) == Some(*d),
            None => find_doc_by_path(docs@, p@) is None,
        },
{
    let n = docs.len();
    let mut i: usize = 0;
    while i < n
        invariant
            i <= n,
            n == docs@.len(),
            forall|j: int| 0 <= j < i ==> (#[trigger] docs@[j]).path@ != p@,
        decreases n - i,
    {
        if text::str_eq(docs[i].path.as_str(), p) {
            proof {
                lemma_find_doc_by_path_found(docs@, p@, i as int);
            }
            return Some(&docs[i]);
        }
        i += 1;
    }
    proof {
        lemma_find_doc_by_path_none(docs@, p@);
    }
    None
}

fn exec_find_doc_by_uuid<'a>(docs: &'a Vec<DocumentInfo>, u: &str) -> (r: Option<
    &'a DocumentInfo,
>)
    ensures
        match r {
            Some(d) => find_doc_by_uuid(docs@, u@) == Some(*d),
            None => find_doc_by_uuid(docs@, u@) is None,
        },
{
    let n = docs.len();
    let mut i: usize = 0;
    while i < n
        invariant
            i <= n,
            n == docs@.len(),
            forall|j: int| 0 <= j < i ==> (#[trigger] docs@[j]).uuid@ != u@,
        decreases n - i,
    {
        if text::str_eq(docs[i].uuid.as_str(), u) {
            proof {
                lemma_find_doc_by_uuid_found(docs@, u@, i as int);
            }
            return Some(&docs[i]);
        }
        i += 1;
    }
    proof {
        lemma_find_doc_by_uuid_none(docs@, u@);
    }
    None
}

/// The deletion record that matches a file path: first a manifest
/// document with that server path; then a sync record with that path,
/// enriched from the manifest by uuid where possible and otherwise
/// carrying the filename as title and empty category fields.  A path
/// known to neither names nothing.
pub fn find_document_by_path(
    config: &DocuramConfig,
    local_state: &LocalState,
    file_path: &str,
) -> (r: Option<DocumentToDelete>)
    ensures
        ({
            let combined = config.documents@ + config.requires@;
            match find_doc_by_path(combined, file_path@) {
                Some(d) => r matches Some(t) && t.uuid@ == d.uuid@ && t.title@ == d.title@
                    && t.path@ == d.path@ && t.category_uuid@ == d.category_uuid@
                    && t.category_path@ == d.category_path@,
                None => match find_state_by_path(local_state.documents@, file_path@) {
                    Some(info) => r matches Some(t) && t.uuid@ == info.uuid@ && t.path@
                        == info.path@ && match find_doc_by_uuid(combined, info.uuid@) {
                        Some(d) => t.title@ == d.title@ && t.category_uuid@ == d.category_uuid@
                            && t.category_path@ == d.category_path@,
                        None => t.title@ == title_or_unknown_spec(file_path@)
                            && t.category_uuid@ == Seq::<char>::empty() && t.category_path@
                            == Seq::<char>::empty(),
                    },
                    None => r is None,
                },
            }
        }),
{
    let combined = config.all_documents();
    if let Some(d) = exec_find_doc_by_path(&combined, file_path) {
        return Some(
            DocumentToDelete {
                uuid: d.uuid.clone(),
                title: d.title.clone(),
                path: d.path.clone(),
                category_uuid: d.category_uuid.clone(),
                category_path: d.category_path.clone(),
            },
        );
    }
    let n = local_state.documents.len();
    let mut i: usize = 0;
    while i < n
        invariant
            i <= n,
            n == local_state.documents@.len(),
            combined@ == config.documents@ + config.requires@,
            find_doc_by_path(combined@, file_path@) is None,
            forall|j: int|
                0 <= j < i ==> (#[trigger] local_state.documents@[j]).path@ != file_path@,
        decreases n - i,
    {
        if text::str_eq(local_state.documents[i].path.as_str(), file_path) {
            proof {
                lemma_find_state_by_path_found(local_state.documents@, file_path@, i as int);
            }
            let info = &local_state.documents[i];
            match exec_find_doc_by_uuid(&combined, info.uuid.as_str()) {
                Some(d) => {
                    return Some(
                        DocumentToDelete {
                            uuid: info.uuid.clone(),
                            title: d.title.clone(),
                            path: info.path.clone(),
                            category_uuid: d.category_uuid.clone(),
                            category_path: d.category_path.clone(),
                        },
                    );
                },
                None => {
                    proof {
                        reveal_strlit("");
                        assert(""@ =~= Seq::<char>::empty());
                    }
                    return Some(
                        DocumentToDelete {
                            uuid: info.uuid.clone(),
                            title: title_or_unknown(file_path),
                            path: info.path.clone(),
                            category_uuid: String::from_str(""),
                            category_path: String::from_str(""),
                        },
                    );
                },
            }
        }
        i += 1;
    }
    proof {
        lemma_find_state_by_path_none(local_state.documents@, file_path@);
    }
    None
}

/// The deletion record for a new document read from its own front matter:
/// only one that already carries a uuid can be deleted remotely.
pub fn document_from_front_matter(fm: &FrontMatter, relative_path: &str) -> (r: Option<
    DocumentToDelete,
>)
    ensures
        match fm.uuid {
            Some(u) => r matches Some(t) && t.uuid@ == u@ && t.title@ == fm.title@ && t.path@
                == relative_path@ && t.category_uuid@ == Seq::<char>::empty()
                && t.category_path@ == fm.category@,
            None => r is None,
        },
{
    match &fm.uuid {
        Some(u) => {
            proof {
                reveal_strlit("");
                assert(""@ =~= Seq::<char>::empty());
            }
            Some(
                DocumentToDelete {
                    uuid: u.clone(),
                    title: fm.title.clone(),
                    path: String::from_str(relative_path),
                    category_uuid: String::from_str(""),
                    category_path: fm.category.clone(),
                },
            )
        },
        None => None,
    }
}

/// A path lies under a directory: it is the directory itself or sits
/// below it behind a separator.
pub open spec fn under_dir_spec(p: Seq<char>, dir: Seq<char>) -> bool {
    p == dir || text::has_prefix(p, dir + "/"@)
}

/// The manifest documents whose server paths lie under a directory.
pub fn documents_under_directory(config: &DocuramConfig, dir: &str) -> (r: Vec<DocumentInfo>)
    ensures
        r@ == (config.documents@ + config.requires@).filter(
            (|d: DocumentInfo| under_dir_spec(d.path@, dir@)),
        ),
{
    proof {
        reveal(Seq::filter);
        reveal_strlit("/");
    }
    let ghost pred = |d: DocumentInfo| under_dir_spec(d.path@, dir@);
    let dir_prefix = text::concat_str(dir, "/");
    proof {
        assert(dir_prefix@ =~= dir@ + "/"@);
    }
    let combined = config.all_documents();
    let ghost cv = combined@;
    let mut out: Vec<DocumentInfo> = Vec::new();
    let n = combined.len();
    let mut i: usize = 0;
    while i < n
        invariant
            i <= n,
            n == cv.len(),
            cv == combined@,
            dir_prefix@ == dir@ + "/"@,
            pred == (|d: DocumentInfo| under_dir_spec(d.path@, dir@)),
            out@ == cv.subrange(0, i as int).filter(pred),
        decreases n - i,
    {
        let ghost pre = cv.subrange(0, i as int);
        let ghost post = cv.subrange(0, i + 1);
        proof {
            reveal(Seq::filter);
            assert(post.drop_last() =~= pre);
            assert(post.last() == cv[i as int]);
            assert(post.filter(pred) == if pred(post.last()) {
                pre.filter(pred).push(post.last())
            } else {
                pre.filter(pred)
            });
        }
        let d = &combined[i];
        if text::str_eq(d.path.as_str(), dir) || text::starts_with(
            d.path.as_str(),
            dir_prefix.as_str(),
        ) {
            out.push(d.clone());
        }
        i += 1;
    }
    proof {
        assert(cv.subrange(0, n as int) =~= cv);
        assert(cv =~= config.documents@ + config.requires@);
    }
    out
}

/// The sync records whose paths lie under a directory while their uuids
/// are not in the manifest: synced documents that the manifest has since
/// forgotten.
pub fn state_documents_under_directory(
    config: &DocuramConfig,
    local_state: &LocalState,
    dir: &str,
) -> (r: Vec<LocalDocumentInfo>)
    ensures
        r@ == local_state.documents@.filter(
            (|e: LocalDocumentInfo| under_dir_spec(e.path@, dir@) && !known_by_uuid(
                config.documents@ + config.requires@,
                e.uuid@,
            )),
        ),
{
    proof {
        reveal(Seq::filter);
        reveal_strlit("/");
    }
    let ghost combined_v = config.documents@ + config.requires@;
    let ghost pred = |e: LocalDocumentInfo|
        under_dir_spec(e.path@, dir@) && !known_by_uuid(combined_v, e.uuid@);
    let dir_prefix = text::concat_str(dir, "/");
    proof {
        assert(dir_prefix@ =~= dir@ + "/"@);
    }
    let combined = config.all_documents();
    let mut out: Vec<LocalDocumentInfo> = Vec::new();
    let n = local_state.documents.len();
    let mut i: usize = 0;
    while i < n
        invariant
            i <= n,
            n == local_state.documents@.len(),
            combined@ == combined_v,
            combined_v == config.documents@ + config.requires@,
            dir_prefix@ == dir@ + "/"@,
            pred == (|e: LocalDocumentInfo|
                under_dir_spec(e.path@, dir@) && !known_by_uuid(combined_v, e.uuid@)),
            out@ == local_state.documents@.subrange(0, i as int).filter(pred),
        decreases n - i,
    {
        let ghost pre = local_state.documents@.subrange(0, i as int);
        let ghost post = local_state.documents@.subrange(0, i + 1);
        proof {
            reveal(Seq::filter);
            assert(post.drop_last() =~= pre);
            assert(post.last() == local_state.documents@[i as int]);
            assert(post.filter(pred) == if pred(post.last()) {
                pre.filter(pred).push(post.last())
            } else {
                pre.filter(pred)
            });
        }
        let e = &local_state.documents[i];
        let under = text::str_eq(e.path.as_str(), dir) || text::starts_with(
            e.path.as_str(),
            dir_prefix.as_str(),
        );
        if under && !docs_have_uuid(&combined, e.uuid.as_str()) {
            out.push(e.clone());
        }
        i += 1;
    }
    proof {
        assert(local_state.documents@.subrange(0, n as int) =~= local_state.documents@);
    }
    out
}

/// The remote descriptors whose uuids the manifest does not track: new on
/// the server.  When asked, a descriptor whose sync record is already
/// marked pending deletion is left out, so that a deletion in flight is
/// not re-offered as new.
pub fn new_remote_documents(
    remote_docs: &Vec<DocumentInfo>,
    config: &DocuramConfig,
    local_state: &LocalState,
    skip_pending: bool,
) -> (r: Vec<DocumentInfo>)
    ensures
        r@ == remote_docs@.filter(
            (|d: DocumentInfo| !known_by_uuid(config.documents@ + config.requires@, d.uuid@) && (
            !skip_pending || !(match lookup_seq(local_state.documents@, d.uuid@) {
                Some(e) => e.pending_deletion,
                None => false,
            }))),
        ),
{
    proof {
        reveal(Seq::filter);
    }
    let ghost combined_v = config.documents@ + config.requires@;
    let ghost pred = |d: DocumentInfo|
        !known_by_uuid(combined_v, d.uuid@) && (!skip_pending || !(match lookup_seq(
            local_state.documents@,
            d.uuid@,
        ) {
            Some(e) => e.pending_deletion,
            None => false,
        }));
    let combined = config.all_documents();
    let mut out: Vec<DocumentInfo> = Vec::new();
    let n = remote_docs.len();
    let mut i: usize = 0;
    while i < n
        invariant
            i <= n,
            n == remote_docs@.len(),
            combined@ == combined_v,
            combined_v == config.documents@ + config.requires@,
            pred == (|d: DocumentInfo|
                !known_by_uuid(combined_v, d.uuid@) && (!skip_pending || !(match lookup_seq(
                    local_state.documents@,
                    d.uuid@,
                ) {
                    Some(e) => e.pending_deletion,
                    None => false,
                }))),
            out@ == remote_docs@.subrange(0, i as int).filter(pred),
        decreases n - i,
    {
        let ghost pre = remote_docs@.subrange(0, i as int);
        let ghost post = remote_docs@.subrange(0, i + 1);
        proof {
            reveal(Seq::filter);
            assert(post.drop_last() =~= pre);
            assert(post.last() == remote_docs@[i as int]);
            assert(post.filter(pred) == if pred(post.last()) {
                pre.filter(pred).push(post.last())
            } else {
                pre.filter(pred)
            });
        }
        let d = &remote_docs[i];
        let known = docs_have_uuid(&combined, d.uuid.as_str());
        let pending = if skip_pending {
            match local_state.get_document(d.uuid.as_str()) {
                Some(e) => e.pending_deletion,
                None => false,
            }
        } else {
            false
        };
        if !known && !pending {
            out.push(d.clone());
        }
        i += 1;
    }
    proof {
        assert(remote_docs@.subrange(0, n as int) =~= remote_docs@);
    }
    out
}

/// The sync records that the manifest no longer tracks at all: pushed
/// documents whose manifest entry is gone.
pub fn state_only_documents(config: &DocuramConfig, local_state: &LocalState) -> (r: Vec<
    LocalDocumentInfo,
>)
    ensures
        r@ == local_state.documents@.filter(
            (|e: LocalDocumentInfo| !known_by_uuid(config.documents@ + config.requires@, e.uuid@)),
        ),
{
    proof {
        reveal(Seq::filter);
    }
    let ghost combined_v = config.documents@ + config.requires@;
    let ghost pred = |e: LocalDocumentInfo| !known_by_uuid(combined_v, e.uuid@);
    let combined = config.all_documents();
    let mut out: Vec<LocalDocumentInfo> = Vec::new();
    let n = local_state.documents.len();
    let mut i: usize = 0;
    while i < n
        invariant
            i <= n,
            n == local_state.documents@.len(),
            combined@ == combined_v,
            combined_v == config.documents@ + config.requires@,
            pred == (|e: LocalDocumentInfo| !known_by_uuid(combined_v, e.uuid@)),
            out@ == local_state.documents@.subrange(0, i as int).filter(pred),
        decreases n - i,
    {
        let ghost pre = local_state.documents@.subrange(0, i as int);
        let ghost post = local_state.documents@.subrange(0, i + 1);
        proof {
            reveal(Seq::filter);
            assert(post.drop_last() =~= pre);
            assert(post.last() == local_state.documents@[i as int]);
            assert(post.filter(pred) == if pred(post.last()) {
                pre.filter(pred).push(post.last())
            } else {
                pre.filter(pred)
            });
        }
        let e = &local_state.documents[i];
        if !docs_have_uuid(&combined, e.uuid.as_str()) {
            out.push(e.clone());
        }
        i += 1;
    }
    proof {
        assert(local_state.documents@.subrange(0, n as int) =~= local_state.documents@);
    }
    out
}

/// The tracked documents named by a uuid selection; an empty selection
/// names them all.
pub fn select_documents_by_uuid(docs: &Vec<DocumentInfo>, uuids: &Vec<String>) -> (r: Vec<
    DocumentInfo,
>)
    ensures
        uuids@.len() == 0 ==> r@ == docs@,
        uuids@.len() > 0 ==> r@ == docs@.filter(
            (|d: DocumentInfo|
                exists|i: int| 0 <= i < uuids@.len() && (#[trigger] uuids@[i])@ == d.uuid@),
        ),
{
    if uuids.len() == 0 {
        return crate::config::clone_documents(docs);
    }
    proof {
        reveal(Seq::filter);
    }
    let ghost pred = |d: DocumentInfo|
        exists|i: int| 0 <= i < uuids@.len() && (#[trigger] uuids@[i])@ == d.uuid@;
    let mut out: Vec<DocumentInfo> = Vec::new();
    let n = docs.len();
    let mut i: usize = 0;
    while i < n
        invariant
            i <= n,
            n == docs@.len(),
            pred == (|d: DocumentInfo|
                exists|k: int| 0 <= k < uuids@.len() && (#[trigger] uuids@[k])@ == d.uuid@),
            out@ == docs@.subrange(0, i as int).filter(pred),
        decreases n - i,
    {
        let ghost pre = docs@.subrange(0, i as int);
        let ghost post = docs@.subrange(0, i + 1);
        proof {
            reveal(Seq::filter);
            assert(post.drop_last() =~= pre);
            assert(post.last() == docs@[i as int]);
            assert(post.filter(pred) == if pred(post.last()) {
                pre.filter(pred).push(post.last())
            } else {
                pre.filter(pred)
            });
        }
        let d = &docs[i];
        let mut selected: bool = false;
        let mut k: usize = 0;
        while k < uuids.len() && !selected
            invariant
                k <= uuids@.len(),
                d.uuid@ == docs@[i as int].uuid@,
                selected ==> exists|m: int|
                    0 <= m < uuids@.len() && (#[trigger] uuids@[m])@ == d.uuid@,
                !selected ==> forall|m: int| 0 <= m < k ==> (#[trigger] uuids@[m])@ != d.uuid@,
            decreases uuids@.len() - k + (if selected {
                0int
            } else {
                1int
            }),
        {
            if text::str_eq(uuids[k].as_str(), d.uuid.as_str()) {
                selected = true;
            } else {
                k += 1;
            }
        }
        if selected {
            out.push(d.clone());
        }
        i += 1;
    }
    proof {
        assert(docs@.subrange(0, n as int) =~= docs@);
    }
    out
}

} // verus!
