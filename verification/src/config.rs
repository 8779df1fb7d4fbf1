//! The project manifest: project metadata, the working category, the
//! tracked documents (working set and read-only dependencies), and the
//! saved credentials of the command-line client.  Parsing and writing the
//! backing files is the application shell's task; the data and its
//! operations are verified here.

use vstd::prelude::*;
use vstd::string::StrSliceExecFns;
use vstd::string::StringExecFns;
use crate::auth::AuthConfig;
use crate::paths;
use crate::text;

verus! {

/// A saved credential keyed by server URL.
pub struct AuthEntry {
    pub server: String,
    pub auth: AuthConfig,
}

impl Clone for AuthEntry {
    fn clone(&self) -> (r: Self)
        ensures
            r == *self,
    {
        AuthEntry { server: self.server.clone(), auth: self.auth.clone() }
    }
}

/// The first credential for the given server, if any.
pub open spec fn lookup_auth(s: Seq<AuthEntry>, server: Seq<char>) -> Option<AuthEntry>
    decreases s.len(),
{
    if s.len() == 0 {
        None
    } else if s.first().server@ == server {
        Some(s.first())
    } else {
        lookup_auth(s.drop_first(), server)
    }
}

proof fn lemma_auth_found(s: Seq<AuthEntry>, server: Seq<char>, i: int)
    requires
        0 <= i < s.len(),
        s[i].server@ == server,
        forall|j: int| 0 <= j < i ==> s[j].server@ != server,
    ensures
        lookup_auth(s, server) == Some(s[i]),
    decreases i,
{
    if i > 0 {
        lemma_auth_found(s.drop_first(), server, i - 1);
    }
}

proof fn lemma_auth_none(s: Seq<AuthEntry>, server: Seq<char>)
    requires
        forall|j: int| 0 <= j < s.len() ==> s[j].server@ != server,
    ensures
        lookup_auth(s, server) is None,
    decreases s.len(),
{
    if s.len() > 0 {
        lemma_auth_none(s.drop_first(), server);
    }
}

proof fn lemma_auth_update(s: Seq<AuthEntry>, entry: AuthEntry, i: int)
    requires
        0 <= i < s.len(),
        s[i].server@ == entry.server@,
        forall|j: int| 0 <= j < i ==> s[j].server@ != entry.server@,
    ensures
        lookup_auth(s.update(i, entry), entry.server@) == Some(entry),
        forall|u: Seq<char>|
            u != entry.server@ ==> lookup_auth(s.update(i, entry), u) == lookup_auth(s, u),
    decreases i,
{
    let t = s.update(i, entry);
    if i == 0 {
        assert(t.first() == entry);
        assert(lookup_auth(t, entry.server@) == Some(entry));
        assert forall|u: Seq<char>| u != entry.server@ implies lookup_auth(t, u) == lookup_auth(
            s,
            u,
        ) by {
            assert(t.drop_first() =~= s.drop_first());
            assert(lookup_auth(t, u) == lookup_auth(t.drop_first(), u));
            assert(lookup_auth(s, u) == lookup_auth(s.drop_first(), u));
        }
    } else {
        lemma_auth_update(s.drop_first(), entry, i - 1);
        assert(t.first() == s.first());
        assert(t.drop_first() =~= s.drop_first().update(i - 1, entry));
        assert(lookup_auth(t, entry.server@) == lookup_auth(t.drop_first(), entry.server@));
        assert forall|u: Seq<char>| u != entry.server@ implies lookup_auth(t, u) == lookup_auth(
            s,
            u,
        ) by {
            if t.first().server@ == u {
                assert(lookup_auth(t, u) == Some(t.first()));
                assert(lookup_auth(s, u) == Some(s.first()));
            } else {
                assert(lookup_auth(t, u) == lookup_auth(t.drop_first(), u));
                assert(lookup_auth(s, u) == lookup_auth(s.drop_first(), u));
            }
        }
    }
}

proof fn lemma_auth_push(s: Seq<AuthEntry>, entry: AuthEntry)
    requires
        forall|j: int| 0 <= j < s.len() ==> s[j].server@ != entry.server@,
    ensures
        lookup_auth(s.push(entry), entry.server@) == Some(entry),
        forall|u: Seq<char>|
            u != entry.server@ ==> lookup_auth(s.push(entry), u) == lookup_auth(s, u),
    decreases s.len(),
{
    let t = s.push(entry);
    if s.len() == 0 {
        assert(t.first() == entry);
        assert(lookup_auth(t, entry.server@) == Some(entry));
        assert forall|u: Seq<char>| u != entry.server@ implies lookup_auth(t, u) == lookup_auth(
            s,
            u,
        ) by {
            let e = t.drop_first();
            assert(e.len() == 0);
            assert(lookup_auth(t, u) == lookup_auth(e, u));
            assert(lookup_auth(e, u) is None);
            assert(lookup_auth(s, u) is None);
        }
    } else {
        lemma_auth_push(s.drop_first(), entry);
        assert(t.first() == s.first());
        assert(t.drop_first() =~= s.drop_first().push(entry));
        assert(lookup_auth(t, entry.server@) == lookup_auth(t.drop_first(), entry.server@));
        assert forall|u: Seq<char>| u != entry.server@ implies lookup_auth(t, u) == lookup_auth(
            s,
            u,
        ) by {
            if t.first().server@ == u {
                assert(lookup_auth(t, u) == Some(t.first()));
                assert(lookup_auth(s, u) == Some(s.first()));
            } else {
                assert(lookup_auth(t, u) == lookup_auth(t.drop_first(), u));
                assert(lookup_auth(s, u) == lookup_auth(s.drop_first(), u));
            }
        }
    }
}

proof fn lemma_auth_remove(s: Seq<AuthEntry>, server: Seq<char>, i: int)
    requires
        0 <= i < s.len(),
        s[i].server@ == server,
        forall|j: int| 0 <= j < i ==> s[j].server@ != server,
        forall|p: int, q: int| 0 <= p < q < s.len() ==> s[p].server@ != s[q].server@,
    ensures
        lookup_auth(s.remove(i), server) is None,
        forall|v: Seq<char>| v != server ==> lookup_auth(s.remove(i), v) == lookup_auth(s, v),
    decreases i,
{
    let t = s.remove(i);
    if i == 0 {
        assert(t =~= s.drop_first());
        assert forall|j: int| 0 <= j < t.len() implies t[j].server@ != server by {
            assert(s[j + 1].server@ != s[0].server@);
        }
        lemma_auth_none(t, server);
        assert forall|v: Seq<char>| v != server implies lookup_auth(t, v) == lookup_auth(s, v) by {
            assert(s.first().server@ != v);
            assert(lookup_auth(s, v) == lookup_auth(s.drop_first(), v));
        }
    } else {
        assert(forall|p: int, q: int|
            0 <= p < q < s.drop_first().len() ==> s.drop_first()[p].server@ != s.drop_first()[
                q
            ].server@);
        lemma_auth_remove(s.drop_first(), server, i - 1);
        assert(t.first() == s.first());
        assert(t.drop_first() =~= s.drop_first().remove(i - 1));
        assert(lookup_auth(t, server) == lookup_auth(t.drop_first(), server));
        assert forall|v: Seq<char>| v != server implies lookup_auth(t, v) == lookup_auth(s, v) by {
            if t.first().server@ == v {
                assert(lookup_auth(t, v) == Some(t.first()));
                assert(lookup_auth(s, v) == Some(s.first()));
            } else {
                assert(lookup_auth(t, v) == lookup_auth(t.drop_first(), v));
                assert(lookup_auth(s, v) == lookup_auth(s.drop_first(), v));
            }
        }
    }
}

/// Global client configuration: the saved credentials, at most one per
/// server.
pub struct CliConfig {
    pub auth: Vec<AuthEntry>,
}

impl CliConfig {
    /// No two credentials share a server.
    pub open spec fn wf(self) -> bool {
        forall|i: int, j: int|
            0 <= i < j < self.auth@.len() ==> self.auth@[i].server@ != self.auth@[j].server@
    }

    /// The credential for a server, if any.
    pub open spec fn spec_auth(self, server: Seq<char>) -> Option<AuthEntry> {
        lookup_auth(self.auth@, server)
    }

    /// An empty configuration.
    pub fn new() -> (r: Self)
        ensures
            r.wf(),
            r.auth@.len() == 0,
    {
        CliConfig { auth: Vec::new() }
    }

    /// Get the credential saved for a server.
    pub fn get_auth(&self, server_url: &str) -> (r: Option<&AuthConfig>)
        ensures
            match r {
                Some(a) => self.spec_auth(server_url@) is Some && *a == self.spec_auth(
                    server_url@,
                )->Some_0.auth,
                None => self.spec_auth(server_url@) is None,
            },
    {
        let n = self.auth.len();
        let mut i: usize = 0;
        while i < n
            invariant
                i <= n,
                n == self.auth@.len(),
                forall|j: int| 0 <= j < i ==> self.auth@[j].server@ != server_url@,
            decreases n - i,
        {
            if text::str_eq(self.auth[i].server.as_str(), server_url) {
                proof {
                    lemma_auth_found(self.auth@, server_url@, i as int);
                }
                return Some(&self.auth[i].auth);
            }
            i += 1;
        }
        proof {
            lemma_auth_none(self.auth@, server_url@);
        }
        None
    }

    /// Save a credential for a server, replacing any existing one.
    pub fn set_auth(&mut self, server_url: String, auth: AuthConfig)
        requires
            old(self).wf(),
        ensures
            final(self).wf(),
            final(self).spec_auth(server_url@) is Some,
            final(self).spec_auth(server_url@)->Some_0.auth == auth,
            forall|u: Seq<char>|
                u != server_url@ ==> final(self).spec_auth(u) == old(self).spec_auth(u),
    {
        let entry = AuthEntry { server: server_url, auth };
        let n = self.auth.len();
        let mut i: usize = 0;
        while i < n
            invariant
                i <= n,
                n == self.auth@.len(),
                self.auth@ == old(self).auth@,
                old(self).wf(),
                entry.server@ == server_url@,
                entry.auth == auth,
                forall|j: int| 0 <= j < i ==> self.auth@[j].server@ != entry.server@,
            decreases n - i,
        {
            if text::str_eq(self.auth[i].server.as_str(), entry.server.as_str()) {
                proof {
                    lemma_auth_update(self.auth@, entry, i as int);
                }
                let ghost s = self.auth@;
                let ghost ii = i as int;
                self.auth.set(i, entry);
                proof {
                    assert forall|p: int, q: int|
                        0 <= p < q < self.auth@.len() implies self.auth@[p].server@
                        != self.auth@[q].server@ by {
                        assert(s[p].server@ != s[q].server@);
                        assert(self.auth@[p].server@ == s[p].server@);
                        assert(self.auth@[q].server@ == s[q].server@);
                    }
                }
                return ;
            }
            i += 1;
        }
        proof {
            lemma_auth_push(self.auth@, entry);
        }
        let ghost s = self.auth@;
        self.auth.push(entry);
        proof {
            assert forall|p: int, q: int|
                0 <= p < q < self.auth@.len() implies self.auth@[p].server@ != self.auth@[
                    q
                ].server@ by {
                if q < s.len() {
                    assert(s[p].server@ != s[q].server@);
                } else {
                    assert(s[p].server@ != self.auth@[q].server@);
                }
            }
        }
    }

    /// Remove the credential for a server, returning it when it existed.
    pub fn remove_auth(&mut self, server_url: &str) -> (r: Option<AuthConfig>)
        requires
            old(self).wf(),
        ensures
            final(self).wf(),
            match r {
                Some(a) => old(self).spec_auth(server_url@) is Some && a == old(self).spec_auth(
                    server_url@,
                )->Some_0.auth,
                None => old(self).spec_auth(server_url@) is None,
            },
            final(self).spec_auth(server_url@) is None,
            forall|u: Seq<char>|
                u != server_url@ ==> final(self).spec_auth(u) == old(self).spec_auth(u),
    {
        let n = self.auth.len();
        let mut i: usize = 0;
        while i < n
            invariant
                i <= n,
                n == self.auth@.len(),
                self.auth@ == old(self).auth@,
                old(self).wf(),
                forall|j: int| 0 <= j < i ==> self.auth@[j].server@ != server_url@,
            decreases n - i,
        {
            if text::str_eq(self.auth[i].server.as_str(), server_url) {
                proof {
                    lemma_auth_found(self.auth@, server_url@, i as int);
                    lemma_auth_remove(self.auth@, server_url@, i as int);
                }
                let ghost s = self.auth@;
                let ghost ii = i as int;
                let removed = self.auth.remove(i);
                proof {
                    assert forall|p: int, q: int|
                        0 <= p < q < self.auth@.len() implies self.auth@[p].server@
                        != self.auth@[q].server@ by {
                        let p0 = if p < ii {
                            p
                        } else {
                            p + 1
                        };
                        let q0 = if q < ii {
                            q
                        } else {
                            q + 1
                        };
                        assert(self.auth@[p] == s[p0]);
                        assert(self.auth@[q] == s[q0]);
                        assert(s[p0].server@ != s[q0].server@);
                    }
                }
                return Some(removed.auth);
            }
            i += 1;
        }
        proof {
            lemma_auth_none(self.auth@, server_url@);
        }
        None
    }
}

/// Project metadata as the server reports it.
pub struct ProjectInfo {
    pub id: i64,
    pub name: String,
    pub description: Option<String>,
    pub url: String,
    pub created_at: String,
}

/// The working category this project is rooted at.
pub struct DocuramInfo {
    pub version: String,
    pub category_id: i64,
    pub category_name: String,
    pub category_uuid: Option<String>,
    pub category_slug: Option<String>,
    pub category_path: String,
    pub task_id: Option<i64>,
    pub task_name: Option<String>,
}

/// One tracked document: the remote descriptor the manifest carries.
pub struct DocumentInfo {
    pub id: i64,
    pub uuid: String,
    pub title: String,
    pub category_id: i64,
    pub category_name: String,
    pub category_path: String,
    pub category_uuid: String,
    pub doc_type: String,
    pub version: i64,
    pub path: String,
    pub checksum: String,
    pub is_required: bool,
}

impl Clone for DocumentInfo {
    fn clone(&self) -> (r: Self)
        ensures
            r == *self,
    {
        DocumentInfo {
            id: self.id,
            uuid: self.uuid.clone(),
            title: self.title.clone(),
            category_id: self.category_id,
            category_name: self.category_name.clone(),
            category_path: self.category_path.clone(),
            category_uuid: self.category_uuid.clone(),
            doc_type: self.doc_type.clone(),
            version: self.version,
            path: self.path.clone(),
            checksum: self.checksum.clone(),
            is_required: self.is_required,
        }
    }
}

impl DocumentInfo {
    /// The category's page on the server, under the project URL.
    pub fn category_remote_url(&self, project_url: &str) -> (r: String)
        ensures
            r@ == project_url@ + "/wiki/"@ + self.category_uuid@,
    {
        proof {
            reveal_strlit("/wiki/");
        }
        text::concat3(project_url, "/wiki/", self.category_uuid.as_str())
    }

    /// The document's page on the server, under the project URL.
    pub fn remote_url(&self, project_url: &str) -> (r: String)
        ensures
            r@ == project_url@ + "/wiki/documents/"@ + self.uuid@,
    {
        proof {
            reveal_strlit("/wiki/documents/");
        }
        text::concat3(project_url, "/wiki/documents/", self.uuid.as_str())
    }

    /// This descriptor as a member of the working set: the same document,
    /// no longer marked as a read-only dependency.
    pub fn as_working_document(&self) -> (r: DocumentInfo)
        ensures
            r == (DocumentInfo { is_required: false, ..*self }),
    {
        DocumentInfo { is_required: false, ..self.clone() }
    }

    /// The canonical local path of this document for the given working
    /// category.
    pub fn local_path(&self, working_category_path: &str) -> (r: String)
        ensures
            r@ == paths::local_path_spec(
                self.path@,
                self.category_path@,
                self.doc_type@,
                self.is_required,
                working_category_path@,
            ),
    {
        paths::derive_local_path(
            self.path.as_str(),
            self.category_path.as_str(),
            self.doc_type.as_str(),
            self.is_required,
            working_category_path,
        )
    }
}

/// A category this project depends on.
pub struct CategoryDependency {
    pub category_id: i64,
    pub category_name: String,
    pub category_path: String,
    pub dependency_type: String,
    pub document_count: i64,
}

/// A node of the category tree: a rose tree whose paths extend the parent's
/// path.
pub struct CategoryTree {
    pub id: i64,
    pub name: String,
    pub slug: Option<String>,
    pub path: String,
    pub description: Option<String>,
    pub position: i64,
    pub parent_id: Option<i64>,
    pub subcategories: Option<Vec<CategoryTree>>,
    pub document_count: i64,
    pub created_at: Option<String>,
    pub updated_at: Option<String>,
}

/// Where and how this client was installed, for upgrades.
pub struct InstallMetadata {
    pub base_url: String,
    pub download_url: String,
    pub install_dir: String,
    pub install_path: String,
    pub tt_path: Option<String>,
    pub os: String,
    pub arch: String,
    pub installed_at: String,
}

/// The persisted project manifest.
pub struct DocuramConfig {
    pub project: ProjectInfo,
    pub docuram: DocuramInfo,
    /// The working set: editable, pushable documents.
    pub documents: Vec<DocumentInfo>,
    /// Read-only dependency documents, never pushed.
    pub requires: Vec<DocumentInfo>,
    pub dependencies: Vec<CategoryDependency>,
    pub category_tree: Option<CategoryTree>,
}

impl DocuramConfig {
    /// Where the manifest lives on disk, relative to the project root.
    pub fn config_path() -> (r: String)
        ensures
            r@ == "docuram/docuram.json"@,
    {
        String::from_str("docuram/docuram.json")
    }

    /// The server this project belongs to.
    pub fn server_url(&self) -> (r: &str)
        ensures
            r@ == self.project.url@,
    {
        self.project.url.as_str()
    }

    /// All tracked documents: the working set followed by the dependencies.
    pub fn all_documents(&self) -> (r: Vec<DocumentInfo>)
        ensures
            r@ == self.documents@ + self.requires@,
    {
        let mut out: Vec<DocumentInfo> = Vec::new();
        let mut i: usize = 0;
        while i < self.documents.len()
            invariant
                i <= self.documents@.len(),
                out@ == self.documents@.subrange(0, i as int),
            decreases self.documents@.len() - i,
        {
            out.push(self.documents[i].clone());
            proof {
                assert(out@ =~= self.documents@.subrange(0, i + 1));
            }
            i += 1;
        }
        proof {
            assert(self.documents@.subrange(0, self.documents@.len() as int) =~= self.documents@);
        }
        let mut j: usize = 0;
        while j < self.requires.len()
            invariant
                j <= self.requires@.len(),
                out@ == self.documents@ + self.requires@.subrange(0, j as int),
            decreases self.requires@.len() - j,
        {
            out.push(self.requires[j].clone());
            proof {
                assert(out@ =~= self.documents@ + self.requires@.subrange(0, j + 1));
            }
            j += 1;
        }
        proof {
            assert(self.documents@ + self.requires@.subrange(0, self.requires@.len() as int)
                =~= self.documents@ + self.requires@);
        }
        out
    }
}

/// A copy of a document list.
pub fn clone_documents(docs: &Vec<DocumentInfo>) -> (r: Vec<DocumentInfo>)
    ensures
        r@ == docs@,
{
    let mut out: Vec<DocumentInfo> = Vec::new();
    let mut i: usize = 0;
    while i < docs.len()
        invariant
            i <= docs@.len(),
            out@ == docs@.subrange(0, i as int),
        decreases docs@.len() - i,
    {
        out.push(docs[i].clone());
        proof {
            assert(out@ =~= docs@.subrange(0, i + 1));
        }
        i += 1;
    }
    proof {
        assert(docs@.subrange(0, docs@.len() as int) =~= docs@);
    }
    out
}

/// Merge the legacy two-part manifest document listing (required and
/// optional) into the single working set of the current format.
pub fn merge_document_sets(required: Vec<DocumentInfo>, optional: Vec<DocumentInfo>) -> (r: Vec<
    DocumentInfo,
>)
    ensures
        r@ == required@ + optional@,
{
    let ghost orig = required@;
    let mut out = required;
    let mut i: usize = 0;
    while i < optional.len()
        invariant
            i <= optional@.len(),
            out@ == orig + optional@.subrange(0, i as int),
        decreases optional@.len() - i,
    {
        out.push(optional[i].clone());
        proof {
            assert(out@ =~= orig + optional@.subrange(0, i + 1));
        }
        i += 1;
    }
    proof {
        assert(orig + optional@.subrange(0, optional@.len() as int) =~= orig + optional@);
    }
    out
}

} // verus!
