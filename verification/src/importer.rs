//! Importing existing markdown into the project: deciding between an
//! in-place conversion and a remote-targeted import, and deriving the
//! category and target paths of imported files.  The filesystem walk and
//! the file writes stay in the application shell.

use vstd::prelude::*;
use vstd::string::StrSliceExecFns;
use vstd::string::StringExecFns;
use crate::text;

verus! {

/// How an import runs.
pub enum ImportMode {
    /// Convert the named files and directories where they are.
    InPlace(Vec<String>),
    /// Copy documents from a source into a target category.
    Remote { source: String, target_category: String },
}

/// A rejected combination of import arguments.
#[derive(PartialEq, Eq, Structural, Clone, Copy, Debug)]
pub enum ImportArgsError {
    /// Positional paths cannot be combined with a source option.
    PathsWithFrom,
    /// A target category requires a source.
    ToRequiresFrom,
    /// Nothing to import was named.
    NoInput,
}

fn clone_strings(v: &Vec<String>) -> (r: Vec<String>)
    ensures
        r@ == v@,
{
    let mut out: Vec<String> = Vec::new();
    let mut i: usize = 0;
    while i < v.len()
        invariant
            i <= v@.len(),
            out@ == v@.subrange(0, i as int),
        decreases v@.len() - i,
    {
        out.push(v[i].clone());
        proof {
            assert(out@ =~= v@.subrange(0, i + 1));
        }
        i += 1;
    }
    proof {
        assert(v@.subrange(0, v@.len() as int) =~= v@);
    }
    out
}

/// Decide the import mode from the command's arguments.
///
/// Positional paths alone convert in place; a source with a target
/// category imports remotely; a source alone converts the source in
/// place.  Paths beside a source, a target without a source, and no
/// input at all are rejected.
pub fn determine_import_mode(
    paths: &Vec<String>,
    from: &Option<String>,
    to: &Option<String>,
) -> (r: Result<ImportMode, ImportArgsError>)
    ensures
        ({
            let no_paths = paths@.len() == 0;
            match (no_paths, from, to) {
                (false, Option::None, Option::None) => r matches Ok(ImportMode::InPlace(v))
                    && v@ == paths@,
                (true, Option::Some(f), Option::Some(t)) => r matches Ok(
                    ImportMode::Remote { source, target_category },
                ) && source@ == f@ && target_category@ == t@,
                (true, Option::Some(f), Option::None) => r matches Ok(ImportMode::InPlace(v))
                    && v@.len() == 1 && v@[0]@ == f@,
                (false, Option::Some(_), _) => r == Err::<ImportMode, _>(
                    ImportArgsError::PathsWithFrom,
                ),
                (_, Option::None, Option::Some(_)) => r == Err::<ImportMode, _>(
                    ImportArgsError::ToRequiresFrom,
                ),
                (true, Option::None, Option::None) => r == Err::<ImportMode, _>(
                    ImportArgsError::NoInput,
                ),
            }
        }),
{
    let no_paths = paths.len() == 0;
    match (no_paths, from, to) {
        (false, Option::None, Option::None) => Ok(ImportMode::InPlace(clone_strings(paths))),
        (true, Option::Some(f), Option::Some(t)) => Ok(
            ImportMode::Remote { source: f.clone(), target_category: t.clone() },
        ),
        (true, Option::Some(f), Option::None) => {
            let mut v: Vec<String> = Vec::new();
            v.push(f.clone());
            Ok(ImportMode::InPlace(v))
        },
        (false, Option::Some(_), _) => Err(ImportArgsError::PathsWithFrom),
        (_, Option::None, Option::Some(_)) => Err(ImportArgsError::ToRequiresFrom),
        (true, Option::None, Option::None) => Err(ImportArgsError::NoInput),
    }
}

/// A category argument, cleaned: surrounding whitespace removed, one
/// leading document-directory marker stripped, trailing separators
/// dropped.
pub open spec fn normalize_category_path_spec(p: Seq<char>) -> Seq<char> {
    let t = text::trim_spec(p);
    let stripped = if text::has_prefix(t, "./docs/"@) {
        t.subrange(7, t.len() as int)
    } else if text::has_prefix(t, "docs/"@) {
        t.subrange(5, t.len() as int)
    } else if text::has_prefix(t, "./"@) {
        t.subrange(2, t.len() as int)
    } else {
        t
    };
    text::trim_end_slashes_spec(stripped)
}

pub fn normalize_category_path(path: &str) -> (r: String)
    ensures
        r@ == normalize_category_path_spec(path@),
{
    proof {
        reveal_strlit("./docs/");
        reveal_strlit("docs/");
        reveal_strlit("./");
    }
    let trimmed = text::trim_spaces(path);
    let tlen = trimmed.as_str().unicode_len();
    let stripped: String = if text::starts_with(trimmed.as_str(), "./docs/") {
        let s = trimmed.as_str().substring_char(7, tlen);
        String::from_str(s)
    } else if text::starts_with(trimmed.as_str(), "docs/") {
        let s = trimmed.as_str().substring_char(5, tlen);
        String::from_str(s)
    } else if text::starts_with(trimmed.as_str(), "./") {
        let s = trimmed.as_str().substring_char(2, tlen);
        String::from_str(s)
    } else {
        trimmed
    };
    text::trim_end_slashes(stripped.as_str())
}

/// A rejected target category path.
#[derive(PartialEq, Eq, Structural, Clone, Copy, Debug)]
pub enum CategoryPathError {
    /// The path is empty.
    Empty,
    /// The path holds consecutive separators.
    ConsecutiveSlashes,
}

/// Two separators in a row somewhere in the path.
pub open spec fn has_double_slash(s: Seq<char>) -> bool {
    exists|i: int| 0 <= i < s.len() - 1 && #[trigger] s[i] == '/' && s[i + 1] == '/'
}

/// Check a normalized target category path.
pub fn validate_category_path(path: &str) -> (r: Result<(), CategoryPathError>)
    ensures
        r == Err::<(), _>(CategoryPathError::Empty) <==> path@.len() == 0,
        r == Err::<(), _>(CategoryPathError::ConsecutiveSlashes) <==> (path@.len() > 0
            && has_double_slash(path@)),
        r is Ok <==> (path@.len() > 0 && !has_double_slash(path@)),
{
    let n = path.unicode_len();
    if n == 0 {
        return Err(CategoryPathError::Empty);
    }
    let mut i: usize = 0;
    while i < n - 1
        invariant
            n >= 1,
            i <= n,
            n == path@.len(),
            forall|j: int| 0 <= j < i ==> !(#[trigger] path@[j] == '/' && path@[j + 1] == '/'),
        decreases n - i,
    {
        if path.get_char(i) == '/' && path.get_char(i + 1) == '/' {
            return Err(CategoryPathError::ConsecutiveSlashes);
        }
        i += 1;
    }
    Ok(())
}

/// The first path component equal to the document directory's name, at or
/// after position `i`.
pub open spec fn find_docs_part(parts: Seq<Seq<char>>, i: int) -> Option<int>
    decreases parts.len() - i,
{
    if i < 0 || i >= parts.len() {
        None
    } else if parts[i] == "docs"@ {
        Some(i)
    } else {
        find_docs_part(parts, i + 1)
    }
}

proof fn lemma_find_docs_found(parts: Seq<Seq<char>>, start: int, i: int)
    requires
        0 <= start <= i < parts.len(),
        parts[i] == "docs"@,
        forall|j: int| start <= j < i ==> parts[j] != "docs"@,
    ensures
        find_docs_part(parts, start) == Some(i),
    decreases i - start,
{
    if start < i {
        lemma_find_docs_found(parts, start + 1, i);
    }
}

proof fn lemma_find_docs_none(parts: Seq<Seq<char>>, start: int)
    requires
        start >= 0,
        forall|j: int| start <= j < parts.len() ==> parts[j] != "docs"@,
    ensures
        find_docs_part(parts, start) is None,
    decreases parts.len() - start,
{
    if start < parts.len() {
        lemma_find_docs_none(parts, start + 1);
    }
}

/// The category an in-place converted file belongs to: the directories
/// between the first `docs` component of its path and the filename.
/// `None` when the path has no `docs` component.
pub open spec fn derive_category_spec(path: Seq<char>) -> Option<Seq<char>> {
    let parts = text::split_char_spec(path, '/');
    match find_docs_part(parts, 0) {
        None => None,
        Some(d) => if d + 1 >= parts.len() - 1 {
            Some(Seq::empty())
        } else {
            Some(text::join_char_spec(parts.subrange(d + 1, parts.len() - 1), '/'))
        },
    }
}

pub fn derive_category_from_path(file_path: &str) -> (r: Option<String>)
    ensures
        match r {
            Some(c) => derive_category_spec(file_path@) == Some(c@),
            None => derive_category_spec(file_path@) is None,
        },
{
    let parts = text::split_char(file_path, '/');
    let ghost pv = text::str_views(parts@);
    let n = parts.len();
    let mut d: usize = 0;
    let mut found: bool = false;
    while d < n && !found
        invariant
            d <= n,
            n == parts@.len(),
            pv == text::str_views(parts@),
            found ==> d < n && pv[d as int] == "docs"@,
            forall|j: int| 0 <= j < d ==> pv[j] != "docs"@,
        decreases n - d + (if found {
            0int
        } else {
            1int
        }),
    {
        if text::str_eq(parts[d].as_str(), "docs") {
            found = true;
        } else {
            d += 1;
        }
    }
    if !found {
        proof {
            lemma_find_docs_none(pv, 0);
        }
        return None;
    }
    proof {
        lemma_find_docs_found(pv, 0, d as int);
    }
    if n - d <= 2 {
        proof {
            reveal_strlit("");
            assert(""@ =~= Seq::<char>::empty());
        }
        Some(String::from_str(""))
    } else {
        let middle = text::slice_strings(&parts, d + 1, n - 1);
        Some(text::join_char(&middle, '/'))
    }
}

/// The full category of a file imported from a directory: the target
/// category, extended by the file's directories relative to the source
/// (with backslashes normalized), when there are any.
pub open spec fn full_category_spec(target: Seq<char>, relative_parent: Option<Seq<char>>) -> Seq<
    char,
> {
    match relative_parent {
        Some(p) => target + "/"@ + text::replace_char_spec(p, '\\', '/'),
        None => target,
    }
}

pub fn full_import_category(target_category: &str, relative_parent: Option<&str>) -> (r: String)
    ensures
        r@ == full_category_spec(
            target_category@,
            match relative_parent {
                Some(p) => Some(p@),
                None => None,
            },
        ),
{
    match relative_parent {
        Some(p) => {
            proof {
                reveal_strlit("/");
            }
            let normalized = text::replace_char(p, '\\', '/');
            text::concat3(target_category, "/", normalized.as_str())
        },
        None => String::from_str(target_category),
    }
}

/// Where an imported document lands: under the document directory, in its
/// full category, named by its sanitized title.
pub open spec fn import_target_spec(full_category: Seq<char>, title: Seq<char>) -> Seq<char> {
    "docs/"@ + full_category + "/"@ + text::sanitize_spec(title) + ".md"@
}

pub fn import_target_file(full_category: &str, title: &str) -> (r: String)
    ensures
        r@ == import_target_spec(full_category@, title@),
{
    proof {
        reveal_strlit("docs/");
        reveal_strlit("/");
        reveal_strlit(".md");
    }
    let safe = text::sanitize_filename(title);
    let head = text::concat3("docs/", full_category, "/");
    let tail = text::concat_str(safe.as_str(), ".md");
    let r = text::concat_str(head.as_str(), tail.as_str());
    proof {
        assert(r@ =~= import_target_spec(full_category@, title@));
    }
    r
}

} // verus!
