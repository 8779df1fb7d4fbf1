//! Local sync state: one record per tracked document, keyed by its uuid.
//! The store is the local system of record between invocations; loading and
//! saving the backing file is the application shell's task, the record
//! operations here are verified.

use vstd::prelude::*;
use vstd::string::StringExecFns;
use crate::text;

verus! {

/// Local sync facts for one tracked document.
pub struct LocalDocumentInfo {
    pub uuid: String,
    pub path: String,
    pub checksum: String,
    pub version: i64,
    pub last_sync: String,
    /// True when the user asked for deletion and the remote side has not
    /// confirmed it yet.
    pub pending_deletion: bool,
}

impl Clone for LocalDocumentInfo {
    fn clone(&self) -> (r: Self)
        ensures
            r == *self,
    {
        LocalDocumentInfo {
            uuid: self.uuid.clone(),
            path: self.path.clone(),
            checksum: self.checksum.clone(),
            version: self.version,
            last_sync: self.last_sync.clone(),
            pending_deletion: self.pending_deletion,
        }
    }
}

/// The first record with the given uuid, if any.
pub open spec fn lookup_seq(s: Seq<LocalDocumentInfo>, u: Seq<char>) -> Option<LocalDocumentInfo>
    decreases s.len(),
{
    if s.len() == 0 {
        None
    } else if s.first().uuid@ == u {
        Some(s.first())
    } else {
        lookup_seq(s.drop_first(), u)
    }
}

/// A record that a lookup returns carries the uuid that was looked up.
pub proof fn lemma_lookup_uuid(s: Seq<LocalDocumentInfo>, u: Seq<char>)
    requires
        lookup_seq(s, u) is Some,
    ensures
        lookup_seq(s, u)->Some_0.uuid@ == u,
    decreases s.len(),
{
    if s.len() > 0 && s.first().uuid@ != u {
        lemma_lookup_uuid(s.drop_first(), u);
    }
}

pub proof fn lemma_lookup_found(s: Seq<LocalDocumentInfo>, u: Seq<char>, i: int)
    requires
        0 <= i < s.len(),
        s[i].uuid@ == u,
        forall|j: int| 0 <= j < i ==> s[j].uuid@ != u,
    ensures
        lookup_seq(s, u) == Some(s[i]),
    decreases i,
{
    if i == 0 {
    } else {
        assert(s.first().uuid@ != u);
        lemma_lookup_found(s.drop_first(), u, i - 1);
    }
}

pub proof fn lemma_lookup_none(s: Seq<LocalDocumentInfo>, u: Seq<char>)
    requires
        forall|j: int| 0 <= j < s.len() ==> s[j].uuid@ != u,
    ensures
        lookup_seq(s, u) is None,
    decreases s.len(),
{
    if s.len() > 0 {
        lemma_lookup_none(s.drop_first(), u);
    }
}

/// Whether some record with the given uuid is present.
pub open spec fn seq_has_uuid(s: Seq<LocalDocumentInfo>, u: Seq<char>) -> bool {
    exists|i: int| 0 <= i < s.len() && s[i].uuid@ == u
}

pub proof fn lemma_lookup_some_iff_has(s: Seq<LocalDocumentInfo>, u: Seq<char>)
    ensures
        lookup_seq(s, u) is Some <==> seq_has_uuid(s, u),
    decreases s.len(),
{
    if s.len() > 0 {
        lemma_lookup_some_iff_has(s.drop_first(), u);
        if s.first().uuid@ == u {
            assert(s[0].uuid@ == u);
        } else if seq_has_uuid(s.drop_first(), u) {
            let i = choose|i: int| 0 <= i < s.drop_first().len() && s.drop_first()[i].uuid@ == u;
            assert(s[i + 1].uuid@ == u);
        } else if seq_has_uuid(s, u) {
            let i = choose|i: int| 0 <= i < s.len() && s[i].uuid@ == u;
            assert(i > 0);
            assert(s.drop_first()[i - 1].uuid@ == u);
        }
    }
}

/// Local state tracking file changes: at most one record per uuid.
pub struct LocalState {
    pub documents: Vec<LocalDocumentInfo>,
}

impl LocalState {
    /// No two records share a uuid.
    pub open spec fn wf(self) -> bool {
        forall|i: int, j: int|
            0 <= i < j < self.documents@.len() ==> self.documents@[i].uuid@ != self.documents@[
                j
            ].uuid@
    }

    /// The record for a uuid, if any.
    pub open spec fn spec_get(self, u: Seq<char>) -> Option<LocalDocumentInfo> {
        lookup_seq(self.documents@, u)
    }

    /// An empty state.
    pub fn new() -> (r: Self)
        ensures
            r.wf(),
            r.documents@.len() == 0,
    {
        LocalState { documents: Vec::new() }
    }

    /// Where the state lives on disk, relative to the project root.
    pub fn state_path() -> (r: String)
        ensures
            r@ == ".docuram/state.json"@,
    {
        String::from_str(".docuram/state.json")
    }

    /// Get the record for a document.
    pub fn get_document(&self, uuid: &str) -> (r: Option<&LocalDocumentInfo>)
        ensures
            match r {
                Some(d) => self.spec_get(uuid@) == Some(*d),
                None => self.spec_get(uuid@) is None,
            },
    {
        let n = self.documents.len();
        let mut i: usize = 0;
        while i < n
            invariant
                i <= n,
                n == self.documents@.len(),
                forall|j: int| 0 <= j < i ==> self.documents@[j].uuid@ != uuid@,
            decreases n - i,
        {
            if text::str_eq(self.documents[i].uuid.as_str(), uuid) {
                proof {
                    lemma_lookup_found(self.documents@, uuid@, i as int);
                }
                return Some(&self.documents[i]);
            }
            i += 1;
        }
        proof {
            lemma_lookup_none(self.documents@, uuid@);
        }
        None
    }

    /// Update the record with the same uuid, or append a new one.
    pub fn upsert_document(&mut self, info: LocalDocumentInfo)
        requires
            old(self).wf(),
        ensures
            final(self).wf(),
            final(self).spec_get(info.uuid@) == Some(info),
            forall|u: Seq<char>|
                u != info.uuid@ ==> final(self).spec_get(u) == old(self).spec_get(u),
    {
        let n = self.documents.len();
        let mut i: usize = 0;
        while i < n
            invariant
                i <= n,
                n == self.documents@.len(),
                self.documents@ == old(self).documents@,
                old(self).wf(),
                forall|j: int| 0 <= j < i ==> self.documents@[j].uuid@ != info.uuid@,
            decreases n - i,
        {
            if text::str_eq(self.documents[i].uuid.as_str(), info.uuid.as_str()) {
                proof {
                    lemma_upsert_update(self.documents@, info, i as int);
                }
                let ghost s = self.documents@;
                let ghost ii = i as int;
                self.documents.set(i, info);
                proof {
                    assert(self.documents@ == s.update(ii, info));
                    assert forall|p: int, q: int|
                        0 <= p < q < self.documents@.len() implies self.documents@[p].uuid@
                        != self.documents@[q].uuid@ by {
                        assert(s[p].uuid@ != s[q].uuid@);
                        assert(self.documents@[p].uuid@ == s[p].uuid@);
                        assert(self.documents@[q].uuid@ == s[q].uuid@);
                    }
                }
                return ;
            }
            i += 1;
        }
        proof {
            lemma_upsert_push(self.documents@, info);
        }
        let ghost s = self.documents@;
        self.documents.push(info);
        proof {
            assert forall|p: int, q: int|
                0 <= p < q < self.documents@.len() implies self.documents@[p].uuid@
                != self.documents@[q].uuid@ by {
                if q < s.len() {
                    assert(s[p].uuid@ != s[q].uuid@);
                } else {
                    assert(self.documents@[q] == info);
                    assert(s[p].uuid@ != info.uuid@);
                }
            }
        }
    }

    /// Remove the record for a document, returning it when it was present.
    pub fn remove_document(&mut self, uuid: &str) -> (r: Option<LocalDocumentInfo>)
        requires
            old(self).wf(),
        ensures
            final(self).wf(),
            r == old(self).spec_get(uuid@),
            final(self).spec_get(uuid@) is None,
            forall|u: Seq<char>| u != uuid@ ==> final(self).spec_get(u) == old(self).spec_get(u),
    {
        let n = self.documents.len();
        let mut i: usize = 0;
        while i < n
            invariant
                i <= n,
                n == self.documents@.len(),
                self.documents@ == old(self).documents@,
                old(self).wf(),
                forall|j: int| 0 <= j < i ==> self.documents@[j].uuid@ != uuid@,
            decreases n - i,
        {
            if text::str_eq(self.documents[i].uuid.as_str(), uuid) {
                proof {
                    lemma_lookup_found(self.documents@, uuid@, i as int);
                    lemma_remove_lookup(self.documents@, uuid@, i as int);
                }
                let ghost s = self.documents@;
                let ghost ii = i as int;
                let removed = self.documents.remove(i);
                proof {
                    assert(self.documents@ == s.remove(ii));
                    assert forall|p: int, q: int|
                        0 <= p < q < self.documents@.len() implies self.documents@[p].uuid@
                        != self.documents@[q].uuid@ by {
                        let p0 = if p < ii {
                            p
                        } else {
                            p + 1
                        };
                        let q0 = if q < ii {
                            q
                        } else {
                            q + 1
                        };
                        assert(self.documents@[p] == s[p0]);
                        assert(self.documents@[q] == s[q0]);
                        assert(s[p0].uuid@ != s[q0].uuid@);
                    }
                }
                return Some(removed);
            }
            i += 1;
        }
        proof {
            lemma_lookup_none(self.documents@, uuid@);
        }
        None
    }

    /// Mark the record for a document as pending deletion, leaving every
    /// other field and record unchanged.  Returns whether a record was found.
    pub fn mark_pending_deletion(&mut self, uuid: &str) -> (r: bool)
        requires
            old(self).wf(),
        ensures
            final(self).wf(),
            r == (old(self).spec_get(uuid@) is Some),
            r ==> final(self).spec_get(uuid@) == Some(
                LocalDocumentInfo {
                    pending_deletion: true,
                    ..old(self).spec_get(uuid@)->Some_0
                },
            ),
            !r ==> final(self).spec_get(uuid@) is None,
            forall|u: Seq<char>| u != uuid@ ==> final(self).spec_get(u) == old(self).spec_get(u),
    {
        let found = self.get_document(uuid);
        match found {
            Some(d) => {
                proof {
                    lemma_lookup_uuid(self.documents@, uuid@);
                }
                let updated = LocalDocumentInfo { pending_deletion: true, ..d.clone() };
                self.upsert_document(updated);
                true
            },
            None => false,
        }
    }
}

proof fn lemma_upsert_update(s: Seq<LocalDocumentInfo>, info: LocalDocumentInfo, i: int)
    requires
        0 <= i < s.len(),
        s[i].uuid@ == info.uuid@,
        forall|j: int| 0 <= j < i ==> s[j].uuid@ != info.uuid@,
    ensures
        lookup_seq(s.update(i, info), info.uuid@) == Some(info),
        forall|u: Seq<char>|
            u != info.uuid@ ==> lookup_seq(s.update(i, info), u) == lookup_seq(s, u),
    decreases i,
{
    let t = s.update(i, info);
    if i == 0 {
        assert(t.first() == info);
        assert(lookup_seq(t, info.uuid@) == Some(info));
        assert forall|u: Seq<char>| u != info.uuid@ implies lookup_seq(t, u) == lookup_seq(
            s,
            u,
        ) by {
            assert(t.drop_first() =~= s.drop_first());
            assert(lookup_seq(t, u) == lookup_seq(t.drop_first(), u));
            assert(lookup_seq(s, u) == lookup_seq(s.drop_first(), u));
        }
    } else {
        lemma_upsert_update(s.drop_first(), info, i - 1);
        assert(t.first() == s.first());
        assert(t.first().uuid@ != info.uuid@);
        assert(t.drop_first() =~= s.drop_first().update(i - 1, info));
        assert(lookup_seq(t, info.uuid@) == lookup_seq(t.drop_first(), info.uuid@));
        assert forall|u: Seq<char>| u != info.uuid@ implies lookup_seq(t, u) == lookup_seq(
            s,
            u,
        ) by {
            if t.first().uuid@ == u {
                assert(lookup_seq(t, u) == Some(t.first()));
                assert(lookup_seq(s, u) == Some(s.first()));
            } else {
                assert(lookup_seq(t, u) == lookup_seq(t.drop_first(), u));
                assert(lookup_seq(s, u) == lookup_seq(s.drop_first(), u));
            }
        }
    }
}

proof fn lemma_upsert_push(s: Seq<LocalDocumentInfo>, info: LocalDocumentInfo)
    requires
        forall|j: int| 0 <= j < s.len() ==> s[j].uuid@ != info.uuid@,
    ensures
        lookup_seq(s.push(info), info.uuid@) == Some(info),
        forall|u: Seq<char>| u != info.uuid@ ==> lookup_seq(s.push(info), u) == lookup_seq(s, u),
    decreases s.len(),
{
    let t = s.push(info);
    if s.len() == 0 {
        assert(t.first() == info);
        assert(lookup_seq(t, info.uuid@) == Some(info));
        assert forall|u: Seq<char>| u != info.uuid@ implies lookup_seq(t, u) == lookup_seq(
            s,
            u,
        ) by {
            let e = t.drop_first();
            assert(e.len() == 0);
            assert(lookup_seq(t, u) == lookup_seq(e, u));
            assert(lookup_seq(e, u) is None);
            assert(lookup_seq(s, u) is None);
        }
    } else {
        lemma_upsert_push(s.drop_first(), info);
        assert(t.first() == s.first());
        assert(t.first().uuid@ != info.uuid@);
        assert(t.drop_first() =~= s.drop_first().push(info));
        assert(lookup_seq(t, info.uuid@) == lookup_seq(t.drop_first(), info.uuid@));
        assert forall|u: Seq<char>| u != info.uuid@ implies lookup_seq(t, u) == lookup_seq(
            s,
            u,
        ) by {
            if t.first().uuid@ == u {
                assert(lookup_seq(t, u) == Some(t.first()));
                assert(lookup_seq(s, u) == Some(s.first()));
            } else {
                assert(lookup_seq(t, u) == lookup_seq(t.drop_first(), u));
                assert(lookup_seq(s, u) == lookup_seq(s.drop_first(), u));
            }
        }
    }
}

proof fn lemma_remove_lookup(s: Seq<LocalDocumentInfo>, u: Seq<char>, i: int)
    requires
        0 <= i < s.len(),
        s[i].uuid@ == u,
        forall|j: int| 0 <= j < i ==> s[j].uuid@ != u,
        forall|p: int, q: int| 0 <= p < q < s.len() ==> s[p].uuid@ != s[q].uuid@,
    ensures
        lookup_seq(s.remove(i), u) is None,
        forall|v: Seq<char>| v != u ==> lookup_seq(s.remove(i), v) == lookup_seq(s, v),
    decreases i,
{
    let t = s.remove(i);
    if i == 0 {
        assert(t =~= s.drop_first());
        assert forall|j: int| 0 <= j < t.len() implies t[j].uuid@ != u by {
            assert(s[j + 1].uuid@ != s[0].uuid@);
        }
        lemma_lookup_none(t, u);
        assert forall|v: Seq<char>| v != u implies lookup_seq(t, v) == lookup_seq(s, v) by {
            assert(s.first().uuid@ != v);
            assert(lookup_seq(s, v) == lookup_seq(s.drop_first(), v));
        }
    } else {
        assert(forall|p: int, q: int|
            0 <= p < q < s.drop_first().len() ==> s.drop_first()[p].uuid@ != s.drop_first()[
                q
            ].uuid@);
        lemma_remove_lookup(s.drop_first(), u, i - 1);
        assert(t.first() == s.first());
        assert(t.first().uuid@ != u);
        assert(t.drop_first() =~= s.drop_first().remove(i - 1));
        assert(lookup_seq(t, u) == lookup_seq(t.drop_first(), u));
        assert forall|v: Seq<char>| v != u implies lookup_seq(t, v) == lookup_seq(s, v) by {
            if t.first().uuid@ == v {
                assert(lookup_seq(t, v) == Some(t.first()));
                assert(lookup_seq(s, v) == Some(s.first()));
            } else {
                assert(lookup_seq(t, v) == lookup_seq(t.drop_first(), v));
                assert(lookup_seq(s, v) == lookup_seq(s.drop_first(), v));
            }
        }
    }
}

} // verus!
