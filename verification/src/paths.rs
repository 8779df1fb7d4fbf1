//! The path deriver: the canonical local filesystem path of every remote
//! document, as a pure function of its descriptor and the working
//! category.  Callers treat two documents deriving the same path as a
//! fatal integrity error; the collision check lives here too.

use vstd::prelude::*;
use vstd::string::StrSliceExecFns;
use vstd::string::StringExecFns;
use crate::text;

verus! {

/// The subdirectory a working-category document lands in, chosen by its
/// document type.
pub open spec fn doctype_subdir_spec(t: Seq<char>) -> Seq<char> {
    if t == "knowledge"@ || t == "requirement"@ || t == "bug"@ {
        "organic"@
    } else if t == "implementation"@ || t == "design"@ || t == "test"@ {
        "impl"@
    } else if t == "framework"@ || t == "standard"@ || t == "spec"@ || t == "api"@ || t
        == "troubleshooting"@ {
        "manual"@
    } else {
        "organic"@
    }
}

pub fn doctype_subdir(t: &str) -> (r: String)
    ensures
        r@ == doctype_subdir_spec(t@),
{
    if text::str_eq(t, "knowledge") || text::str_eq(t, "requirement") || text::str_eq(t, "bug") {
        String::from_str("organic")
    } else if text::str_eq(t, "implementation") || text::str_eq(t, "design") || text::str_eq(
        t,
        "test",
    ) {
        String::from_str("impl")
    } else if text::str_eq(t, "framework") || text::str_eq(t, "standard") || text::str_eq(
        t,
        "spec",
    ) || text::str_eq(t, "api") || text::str_eq(t, "troubleshooting") {
        String::from_str("manual")
    } else {
        String::from_str("organic")
    }
}

/// A document belongs to the working category exactly when its category
/// path is the working path itself or a descendant of it.  The separator
/// guards against a sibling category that merely shares a prefix.
pub open spec fn working_doc_spec(category_path: Seq<char>, working: Seq<char>) -> bool {
    category_path == working || text::has_prefix(category_path, working + "/"@)
}

pub fn is_working_category_doc(category_path: &str, working: &str) -> (r: bool)
    ensures
        r == working_doc_spec(category_path@, working@),
{
    if text::str_eq(category_path, working) {
        return true;
    }
    proof {
        reveal_strlit("/");
    }
    let prefix = text::concat_str(working, "/");
    text::starts_with(category_path, prefix.as_str())
}

/// The path of a document relative to its category: the server path with
/// the document-root prefix and the category-path prefix stripped.  A
/// malformed server path that does not carry its category degrades to the
/// final path segment alone.
pub open spec fn relative_path_spec(path: Seq<char>, category_path: Seq<char>) -> Seq<char> {
    let p = text::strip_prefix_spec(path, "docuram/"@);
    if text::has_prefix(p, category_path) {
        text::strip_prefix_spec(p.subrange(category_path.len() as int, p.len() as int), "/"@)
    } else {
        text::last_segment_spec(p)
    }
}

pub fn relative_path(path: &str, category_path: &str) -> (r: String)
    ensures
        r@ == relative_path_spec(path@, category_path@),
{
    proof {
        reveal_strlit("docuram/");
        reveal_strlit("/");
    }
    let p = text::strip_prefix_or_self(path, "docuram/");
    if text::starts_with(p.as_str(), category_path) {
        let clen = category_path.unicode_len();
        let plen = p.as_str().unicode_len();
        let after = p.as_str().substring_char(clen, plen);
        text::strip_prefix_or_self(after, "/")
    } else {
        text::last_segment(p.as_str())
    }
}

/// The canonical local path of a document.
///
/// A required document from outside the working category is an external
/// dependency and lives under `dependencies/` with its own category
/// structure.  A document of the working category's own subtree keeps the
/// subtree below the document root.  Anything else is filed under the
/// document root by its document type.
pub open spec fn local_path_spec(
    path: Seq<char>,
    category_path: Seq<char>,
    doc_type: Seq<char>,
    is_required: bool,
    working: Seq<char>,
) -> Seq<char> {
    let rel = relative_path_spec(path, category_path);
    if is_required && !working_doc_spec(category_path, working) {
        "dependencies/"@ + category_path + "/"@ + rel
    } else if working_doc_spec(category_path, working) && category_path != working {
        "docuram/"@ + category_path.subrange(working.len() as int + 1, category_path.len() as int)
            + "/"@ + rel
    } else {
        "docuram/"@ + doctype_subdir_spec(doc_type) + "/"@ + rel
    }
}

pub fn derive_local_path(
    path: &str,
    category_path: &str,
    doc_type: &str,
    is_required: bool,
    working: &str,
) -> (r: String)
    ensures
        r@ == local_path_spec(path@, category_path@, doc_type@, is_required, working@),
{
    proof {
        reveal_strlit("dependencies/");
        reveal_strlit("docuram/");
        reveal_strlit("/");
    }
    let rel = relative_path(path, category_path);
    let working_doc = is_working_category_doc(category_path, working);
    if is_required && !working_doc {
        let head = text::concat3("dependencies/", category_path, "/");
        text::concat_str(head.as_str(), rel.as_str())
    } else if working_doc && !text::str_eq(category_path, working) {
        let wlen = working.unicode_len();
        let clen = category_path.unicode_len();
        proof {
            assert(text::has_prefix(category_path@, working@ + "/"@));
            assert((working@ + "/"@).len() == working@.len() + 1);
        }
        let subtree = category_path.substring_char(wlen + 1, clen);
        let head = text::concat3("docuram/", subtree, "/");
        text::concat_str(head.as_str(), rel.as_str())
    } else {
        let subdir = doctype_subdir(doc_type);
        let head = text::concat3("docuram/", subdir.as_str(), "/");
        text::concat_str(head.as_str(), rel.as_str())
    }
}

/// The derived local path ends in the same filename as the document's
/// relative path: every branch of the derivation prefixes the relative
/// path with directories.
pub proof fn lemma_local_path_filename(
    path: Seq<char>,
    category_path: Seq<char>,
    doc_type: Seq<char>,
    is_required: bool,
    working: Seq<char>,
)
    requires
        relative_path_spec(path, category_path).len() > 0,
    ensures
        text::last_segment_spec(
            local_path_spec(path, category_path, doc_type, is_required, working),
        ) == text::last_segment_spec(relative_path_spec(path, category_path)),
{
    reveal_strlit("/");
    reveal_strlit("dependencies/");
    reveal_strlit("docuram/");
    let rel = relative_path_spec(path, category_path);
    let r = local_path_spec(path, category_path, doc_type, is_required, working);
    if is_required && !working_doc_spec(category_path, working) {
        let head = "dependencies/"@ + category_path + "/"@;
        assert(head.last() == '/');
        assert(r =~= head + rel);
        text::lemma_last_segment_concat(head, rel);
    } else if working_doc_spec(category_path, working) && category_path != working {
        let head = "docuram/"@ + category_path.subrange(
            working.len() as int + 1,
            category_path.len() as int,
        ) + "/"@;
        assert(head.last() == '/');
        assert(r =~= head + rel);
        text::lemma_last_segment_concat(head, rel);
    } else {
        let head = "docuram/"@ + doctype_subdir_spec(doc_type) + "/"@;
        assert(head.last() == '/');
        assert(r =~= head + rel);
        text::lemma_last_segment_concat(head, rel);
    }
}

/// Path separation: two documents whose relative paths end in different
/// filenames never derive the same local path, whatever their other
/// fields.  Documents that carry the same filename in the same place must
/// instead be caught by the collision check before anything is written.
pub proof fn lemma_distinct_filenames_distinct_paths(
    path1: Seq<char>,
    category_path1: Seq<char>,
    doc_type1: Seq<char>,
    is_required1: bool,
    path2: Seq<char>,
    category_path2: Seq<char>,
    doc_type2: Seq<char>,
    is_required2: bool,
    working: Seq<char>,
)
    requires
        relative_path_spec(path1, category_path1).len() > 0,
        relative_path_spec(path2, category_path2).len() > 0,
        text::last_segment_spec(relative_path_spec(path1, category_path1))
            != text::last_segment_spec(relative_path_spec(path2, category_path2)),
    ensures
        local_path_spec(path1, category_path1, doc_type1, is_required1, working)
            != local_path_spec(path2, category_path2, doc_type2, is_required2, working),
{
    lemma_local_path_filename(path1, category_path1, doc_type1, is_required1, working);
    lemma_local_path_filename(path2, category_path2, doc_type2, is_required2, working);
}

/// Find two documents that would collide on the same local path, if any:
/// the caller treats a collision as a fatal integrity error rather than
/// silently overwriting one document with the other.
pub fn find_path_collision(docs: &Vec<crate::config::DocumentInfo>, working: &str) -> (r: Option<
    (usize, usize),
>)
    ensures
        match r {
            Some(pair) => pair.0 < pair.1 < docs@.len() && local_path_spec(
                docs@[pair.0 as int].path@,
                docs@[pair.0 as int].category_path@,
                docs@[pair.0 as int].doc_type@,
                docs@[pair.0 as int].is_required,
                working@,
            ) == local_path_spec(
                docs@[pair.1 as int].path@,
                docs@[pair.1 as int].category_path@,
                docs@[pair.1 as int].doc_type@,
                docs@[pair.1 as int].is_required,
                working@,
            ),
            None => forall|i: int, j: int|
                0 <= i < j < docs@.len() ==> local_path_spec(
                    docs@[i].path@,
                    docs@[i].category_path@,
                    docs@[i].doc_type@,
                    docs@[i].is_required,
                    working@,
                ) != local_path_spec(
                    docs@[j].path@,
                    docs@[j].category_path@,
                    docs@[j].doc_type@,
                    docs@[j].is_required,
                    working@,
                ),
        },
{
    let ghost lp = |d: crate::config::DocumentInfo|
        local_path_spec(d.path@, d.category_path@, d.doc_type@, d.is_required, working@);
    let n = docs.len();
    let mut derived: Vec<String> = Vec::new();
    let mut i: usize = 0;
    while i < n
        invariant
            i <= n,
            n == docs@.len(),
            derived@.len() == i,
            lp == (|d: crate::config::DocumentInfo|
                local_path_spec(d.path@, d.category_path@, d.doc_type@, d.is_required, working@)),
            forall|k: int| 0 <= k < i ==> derived@[k]@ == lp(docs@[k]),
        decreases n - i,
    {
        let d = &docs[i];
        let p = derive_local_path(
            d.path.as_str(),
            d.category_path.as_str(),
            d.doc_type.as_str(),
            d.is_required,
            working,
        );
        derived.push(p);
        i += 1;
    }
    let mut a: usize = 0;
    while a < n
        invariant
            a <= n,
            n == docs@.len(),
            derived@.len() == n,
            lp == (|d: crate::config::DocumentInfo|
                local_path_spec(d.path@, d.category_path@, d.doc_type@, d.is_required, working@)),
            forall|k: int| 0 <= k < n ==> derived@[k]@ == lp(docs@[k]),
            forall|i2: int, j2: int| 0 <= i2 < j2 < n && i2 < a ==> lp(docs@[i2]) != lp(docs@[j2]),
        decreases n - a,
    {
        let mut b: usize = a + 1;
        while b < n
            invariant
                a < n,
                a + 1 <= b <= n,
                n == docs@.len(),
                derived@.len() == n,
                lp == (|d: crate::config::DocumentInfo|
                    local_path_spec(
                        d.path@,
                        d.category_path@,
                        d.doc_type@,
                        d.is_required,
                        working@,
                    )),
                forall|k: int| 0 <= k < n ==> derived@[k]@ == lp(docs@[k]),
                forall|j2: int| a < j2 < b && j2 < n ==> lp(docs@[a as int]) != lp(docs@[j2]),
            decreases n - b,
        {
            if text::str_eq(derived[a].as_str(), derived[b].as_str()) {
                return Some((a, b));
            }
            b += 1;
        }
        a += 1;
    }
    None
}

} // verus!
