//! Project structure checks: that every document sits under the working
//! category, that the fixed directory layout is intact, and that on-disk
//! content still matches the manifest's checksums.  The callers walk the
//! filesystem and hand in what they observed; every judgement is made
//! here.

use vstd::prelude::*;
use vstd::string::StringExecFns;
use crate::checksum;
use crate::config::DocumentInfo;
use crate::config::DocuramConfig;
use crate::paths;
use crate::text;

verus! {

/// How serious a finding is.
#[derive(PartialEq, Eq, Structural, Clone, Copy, Debug)]
pub enum IssueLevel {
    Error,
    Warning,
}

/// One finding of a structure check.
pub struct ValidationIssue {
    pub level: IssueLevel,
    pub message: String,
}

impl Clone for ValidationIssue {
    fn clone(&self) -> (r: Self)
        ensures
            r == *self,
    {
        ValidationIssue { level: self.level, message: self.message.clone() }
    }
}

/// The derived local path of a document, as the checks compare it.
pub open spec fn lp_spec(d: DocumentInfo, working: Seq<char>) -> Seq<char> {
    paths::local_path_spec(d.path@, d.category_path@, d.doc_type@, d.is_required, working)
}

/// The message reported when the working category's directory is absent.
pub open spec fn missing_base_msg(cat: Seq<char>) -> Seq<char> {
    "Category path directory 'docuram/"@ + cat
        + "' does not exist. Expected based on docuram.category_path."@
}

/// The message reported for a document outside the working category.
pub open spec fn doc_outside_msg(path: Seq<char>, cat: Seq<char>) -> Seq<char> {
    "Document '"@ + path + "' is not under the expected category path 'docuram/"@ + cat + "/'"@
}

/// Check that the working category's directory exists and that every
/// tracked document's path sits under it.
pub fn verify_category_path_structure(base_exists: bool, config: &DocuramConfig) -> (r: Vec<
    ValidationIssue,
>)
    ensures
        ({
            let cat = config.docuram.category_path@;
            let combined = config.documents@ + config.requires@;
            let pred = (|d: DocumentInfo| !text::has_prefix(d.path@, "docuram/"@ + cat + "/"@));
            if !base_exists {
                r@.len() == 1 && r@[0].level == IssueLevel::Error && r@[0].message@
                    == missing_base_msg(cat)
            } else {
                let bad = combined.filter(pred);
                r@.len() == bad.len() && forall|k: int|
                    0 <= k < bad.len() ==> (#[trigger] r@[k]).level == IssueLevel::Error
                        && r@[k].message@ == doc_outside_msg(bad[k].path@, cat)
            }
        }),
{
    let cat = config.docuram.category_path.as_str();
    let ghost catv = config.docuram.category_path@;
    let mut out: Vec<ValidationIssue> = Vec::new();
    if !base_exists {
        proof {
            reveal_strlit("Category path directory 'docuram/");
            reveal_strlit("' does not exist. Expected based on docuram.category_path.");
        }
        let head = text::concat_str("Category path directory 'docuram/", cat);
        let message = text::concat_str(
            head.as_str(),
            "' does not exist. Expected based on docuram.category_path.",
        );
        proof {
            assert(message@ =~= missing_base_msg(catv));
        }
        out.push(ValidationIssue { level: IssueLevel::Error, message });
        return out;
    }
    proof {
        reveal_strlit("docuram/");
        reveal_strlit("/");
        reveal(Seq::filter);
    }
    let ghost pred = |d: DocumentInfo| !text::has_prefix(d.path@, "docuram/"@ + catv + "/"@);
    let prefix_head = text::concat3("docuram/", cat, "/");
    proof {
        assert(prefix_head@ =~= "docuram/"@ + catv + "/"@);
    }
    let combined = config.all_documents();
    let ghost cv = combined@;
    let n = combined.len();
    let mut i: usize = 0;
    while i < n
        invariant
            i <= n,
            n == cv.len(),
            cv == combined@,
            catv == config.docuram.category_path@,
            cat@ == catv,
            prefix_head@ == "docuram/"@ + catv + "/"@,
            pred == (|d: DocumentInfo| !text::has_prefix(d.path@, "docuram/"@ + catv + "/"@)),
            out@.len() == cv.subrange(0, i as int).filter(pred).len(),
            forall|k: int|
                0 <= k < out@.len() ==> (#[trigger] out@[k]).level == IssueLevel::Error
                    && out@[k].message@ == doc_outside_msg(
                    cv.subrange(0, i as int).filter(pred)[k].path@,
                    catv,
                ),
        decreases n - i,
    {
        let ghost pre = cv.subrange(0, i as int);
        let ghost post = cv.subrange(0, i + 1);
        proof {
            reveal(Seq::filter);
            assert(post.drop_last() =~= pre);
            assert(post.last() == cv[i as int]);
            assert(post.filter(pred) == if pred(post.last()) {
                pre.filter(pred).push(post.last())
            } else {
                pre.filter(pred)
            });
        }
        let d = &combined[i];
        if !text::starts_with(d.path.as_str(), prefix_head.as_str()) {
            proof {
                reveal_strlit("Document '");
                reveal_strlit("' is not under the expected category path 'docuram/");
                reveal_strlit("/'");
            }
            let head = text::concat_str("Document '", d.path.as_str());
            let mid = text::concat_str(
                head.as_str(),
                "' is not under the expected category path 'docuram/",
            );
            let tail = text::concat3(mid.as_str(), cat, "/'");
            proof {
                assert(tail@ =~= doc_outside_msg(cv[i as int].path@, catv));
            }
            out.push(ValidationIssue { level: IssueLevel::Error, message: tail });
        }
        i += 1;
    }
    proof {
        assert(cv.subrange(0, n as int) =~= cv);
        assert(cv =~= config.documents@ + config.requires@);
    }
    out
}

/// One entry of the working category's directory, as the caller listed it.
pub struct DirEntryInfo {
    pub name: String,
    pub is_dir: bool,
}

impl Clone for DirEntryInfo {
    fn clone(&self) -> (r: Self)
        ensures
            r == *self,
    {
        DirEntryInfo { name: self.name.clone(), is_dir: self.is_dir }
    }
}

/// The directories the working category may hold.
pub open spec fn allowed_dir(name: Seq<char>) -> bool {
    name == "dependencies"@ || name == "impl"@ || name == "organic"@ || name == "req"@
}

/// The files the working category may hold.
pub open spec fn allowed_file(name: Seq<char>) -> bool {
    name == "README.md"@
}

/// An entry the fixed layout does not allow.
pub open spec fn unexpected_entry(e: DirEntryInfo) -> bool {
    if e.is_dir {
        !allowed_dir(e.name@)
    } else {
        !allowed_file(e.name@)
    }
}

/// The message for a directory the layout does not allow.
pub open spec fn unexpected_dir_msg(name: Seq<char>, cat: Seq<char>) -> Seq<char> {
    "Unexpected directory '"@ + name + "' in "@ + cat
        + ". Only [\"dependencies\", \"impl\", \"organic\", \"req\"] are allowed."@
}

/// The message for a file the layout does not allow.
pub open spec fn unexpected_file_msg(name: Seq<char>, cat: Seq<char>) -> Seq<char> {
    "Unexpected file '"@ + name + "' in "@ + cat + ". Only [\"README.md\"] are allowed."@
}

/// The message for a required directory that is absent.
pub open spec fn missing_dir_msg(cat: Seq<char>, dir: Seq<char>) -> Seq<char> {
    "Required directory '"@ + cat + "/"@ + dir + "' is missing."@
}

/// Whether the listing holds a directory of the given name.
pub open spec fn listing_has_dir(entries: Seq<DirEntryInfo>, name: Seq<char>) -> bool {
    exists|i: int|
        0 <= i < entries.len() && (#[trigger] entries[i]).is_dir && entries[i].name@ == name
}

fn exec_listing_has_dir(entries: &Vec<DirEntryInfo>, name: &str) -> (r: bool)
    ensures
        r == listing_has_dir(entries@, name@),
{
    let n = entries.len();
    let mut i: usize = 0;
    while i < n
        invariant
            i <= n,
            n == entries@.len(),
            forall|j: int|
                0 <= j < i ==> !((#[trigger] entries@[j]).is_dir && entries@[j].name@ == name@),
        decreases n - i,
    {
        if entries[i].is_dir && text::str_eq(entries[i].name.as_str(), name) {
            return true;
        }
        i += 1;
    }
    false
}

/// Check the working category's fixed layout: every entry must be one of
/// the allowed directories or files, and each of the four standard
/// directories should exist.  An absent working-category directory was
/// already reported by the category path check.
pub fn verify_directory_structure(
    category_path: &str,
    base_exists: bool,
    entries: &Vec<DirEntryInfo>,
) -> (r: Vec<ValidationIssue>)
    ensures
        !base_exists ==> r@.len() == 0,
        base_exists ==> ({
            let bad = entries@.filter(|e: DirEntryInfo| unexpected_entry(e));
            let m1 = !listing_has_dir(entries@, "dependencies"@);
            let m2 = !listing_has_dir(entries@, "impl"@);
            let m3 = !listing_has_dir(entries@, "organic"@);
            let m4 = !listing_has_dir(entries@, "req"@);
            let i1 = bad.len() as int;
            let i2 = i1 + (if m1 { 1int } else { 0int });
            let i3 = i2 + (if m2 { 1int } else { 0int });
            let i4 = i3 + (if m3 { 1int } else { 0int });
            &&& r@.len() == i4 + (if m4 { 1int } else { 0int })
            &&& forall|k: int|
                0 <= k < bad.len() ==> (#[trigger] r@[k]).level == IssueLevel::Error
                    && r@[k].message@ == (if bad[k].is_dir {
                    unexpected_dir_msg(bad[k].name@, category_path@)
                } else {
                    unexpected_file_msg(bad[k].name@, category_path@)
                })
            &&& (m1 ==> r@[i1].level == IssueLevel::Warning && r@[i1].message@ == missing_dir_msg(
                category_path@,
                "dependencies"@,
            ))
            &&& (m2 ==> r@[i2].level == IssueLevel::Warning && r@[i2].message@ == missing_dir_msg(
                category_path@,
                "impl"@,
            ))
            &&& (m3 ==> r@[i3].level == IssueLevel::Warning && r@[i3].message@ == missing_dir_msg(
                category_path@,
                "organic"@,
            ))
            &&& (m4 ==> r@[i4].level == IssueLevel::Warning && r@[i4].message@ == missing_dir_msg(
                category_path@,
                "req"@,
            ))
        }),
{
    let mut out: Vec<ValidationIssue> = Vec::new();
    if !base_exists {
        return out;
    }
    proof {
        reveal(Seq::filter);
        reveal_strlit("Unexpected directory '");
        reveal_strlit("Unexpected file '");
        reveal_strlit("' in ");
        reveal_strlit(". Only [\"dependencies\", \"impl\", \"organic\", \"req\"] are allowed.");
        reveal_strlit(". Only [\"README.md\"] are allowed.");
        reveal_strlit("Required directory '");
        reveal_strlit("/");
        reveal_strlit("' is missing.");
        reveal_strlit("dependencies");
        reveal_strlit("impl");
        reveal_strlit("organic");
        reveal_strlit("req");
        reveal_strlit("README.md");
    }
    let ghost pred = |e: DirEntryInfo| unexpected_entry(e);
    let n = entries.len();
    let mut i: usize = 0;
    while i < n
        invariant
            i <= n,
            n == entries@.len(),
            pred == (|e: DirEntryInfo| unexpected_entry(e)),
            out@.len() == entries@.subrange(0, i as int).filter(pred).len(),
            forall|k: int|
                0 <= k < out@.len() ==> (#[trigger] out@[k]).level == IssueLevel::Error
                    && out@[k].message@ == ({
                    let bad = entries@.subrange(0, i as int).filter(pred);
                    if bad[k].is_dir {
                        unexpected_dir_msg(bad[k].name@, category_path@)
                    } else {
                        unexpected_file_msg(bad[k].name@, category_path@)
                    }
                }),
        decreases n - i,
    {
        let ghost pre = entries@.subrange(0, i as int);
        let ghost post = entries@.subrange(0, i + 1);
        proof {
            reveal(Seq::filter);
            assert(post.drop_last() =~= pre);
            assert(post.last() == entries@[i as int]);
            assert(post.filter(pred) == if pred(post.last()) {
                pre.filter(pred).push(post.last())
            } else {
                pre.filter(pred)
            });
        }
        let e = &entries[i];
        if e.is_dir {
            let ok = text::str_eq(e.name.as_str(), "dependencies") || text::str_eq(
                e.name.as_str(),
                "impl",
            ) || text::str_eq(e.name.as_str(), "organic") || text::str_eq(e.name.as_str(), "req");
            if !ok {
                let head = text::concat_str("Unexpected directory '", e.name.as_str());
                let mid = text::concat3(head.as_str(), "' in ", category_path);
                let message = text::concat_str(
                    mid.as_str(),
                    ". Only [\"dependencies\", \"impl\", \"organic\", \"req\"] are allowed.",
                );
                proof {
                    assert(message@ =~= unexpected_dir_msg(
                        entries@[i as int].name@,
                        category_path@,
                    ));
                }
                out.push(ValidationIssue { level: IssueLevel::Error, message });
            }
        } else {
            let ok = text::str_eq(e.name.as_str(), "README.md");
            if !ok {
                let head = text::concat_str("Unexpected file '", e.name.as_str());
                let mid = text::concat3(head.as_str(), "' in ", category_path);
                let message = text::concat_str(mid.as_str(), ". Only [\"README.md\"] are allowed.");
                proof {
                    assert(message@ =~= unexpected_file_msg(
                        entries@[i as int].name@,
                        category_path@,
                    ));
                }
                out.push(ValidationIssue { level: IssueLevel::Error, message });
            }
        }
        i += 1;
    }
    proof {
        assert(entries@.subrange(0, n as int) =~= entries@);
    }
    if !exec_listing_has_dir(entries, "dependencies") {
        let head = text::concat3("Required directory '", category_path, "/");
        let tail = text::concat_str("dependencies", "' is missing.");
        let message = text::concat_str(head.as_str(), tail.as_str());
        proof {
            assert(message@ =~= missing_dir_msg(category_path@, "dependencies"@));
        }
        out.push(ValidationIssue { level: IssueLevel::Warning, message });
    }
    if !exec_listing_has_dir(entries, "impl") {
        let head = text::concat3("Required directory '", category_path, "/");
        let tail = text::concat_str("impl", "' is missing.");
        let message = text::concat_str(head.as_str(), tail.as_str());
        proof {
            assert(message@ =~= missing_dir_msg(category_path@, "impl"@));
        }
        out.push(ValidationIssue { level: IssueLevel::Warning, message });
    }
    if !exec_listing_has_dir(entries, "organic") {
        let head = text::concat3("Required directory '", category_path, "/");
        let tail = text::concat_str("organic", "' is missing.");
        let message = text::concat_str(head.as_str(), tail.as_str());
        proof {
            assert(message@ =~= missing_dir_msg(category_path@, "organic"@));
        }
        out.push(ValidationIssue { level: IssueLevel::Warning, message });
    }
    if !exec_listing_has_dir(entries, "req") {
        let head = text::concat3("Required directory '", category_path, "/");
        let tail = text::concat_str("req", "' is missing.");
        let message = text::concat_str(head.as_str(), tail.as_str());
        proof {
            assert(message@ =~= missing_dir_msg(category_path@, "req"@));
        }
        out.push(ValidationIssue { level: IssueLevel::Warning, message });
    }
    out
}

/// The message for a required file missing from the `req` directory.
pub open spec fn missing_req_file_msg(cat: Seq<char>, filename: Seq<char>) -> Seq<char> {
    "Required file '"@ + cat + "/req/"@ + filename + "' is missing."@
}

/// Check that the `req` directory holds its two required files.  A
/// missing `req` directory is reported by the layout check instead.
pub fn verify_req_directory(
    category_path: &str,
    req_exists: bool,
    readme_exists: bool,
    updated_log_exists: bool,
) -> (r: Vec<ValidationIssue>)
    ensures
        !req_exists ==> r@.len() == 0,
        req_exists ==> {
            let first = if readme_exists {
                0int
            } else {
                1int
            };
            let second = if updated_log_exists {
                0int
            } else {
                1int
            };
            &&& r@.len() == first + second
            &&& (!readme_exists ==> r@[0].level == IssueLevel::Error && r@[0].message@
                == missing_req_file_msg(category_path@, "README.md"@))
            &&& (!updated_log_exists ==> r@[first].level == IssueLevel::Error
                && r@[first].message@ == missing_req_file_msg(
                category_path@,
                "UPDATED_LOG.md"@,
            ))
        },
{
    let mut out: Vec<ValidationIssue> = Vec::new();
    if !req_exists {
        return out;
    }
    proof {
        reveal_strlit("Required file '");
        reveal_strlit("/req/");
        reveal_strlit("README.md");
        reveal_strlit("UPDATED_LOG.md");
        reveal_strlit("' is missing.");
    }
    if !readme_exists {
        let head = text::concat3("Required file '", category_path, "/req/");
        let tail = text::concat_str("README.md", "' is missing.");
        let message = text::concat_str(head.as_str(), tail.as_str());
        proof {
            assert(message@ =~= missing_req_file_msg(category_path@, "README.md"@));
        }
        out.push(ValidationIssue { level: IssueLevel::Error, message });
    }
    if !updated_log_exists {
        let head = text::concat3("Required file '", category_path, "/req/");
        let tail = text::concat_str("UPDATED_LOG.md", "' is missing.");
        let message = text::concat_str(head.as_str(), tail.as_str());
        proof {
            assert(message@ =~= missing_req_file_msg(category_path@, "UPDATED_LOG.md"@));
        }
        out.push(ValidationIssue { level: IssueLevel::Error, message });
    }
    out
}

/// Whether some required document of the manifest derives the given local
/// path.
pub open spec fn is_required_path(
    required_docs: Seq<DocumentInfo>,
    working: Seq<char>,
    p: Seq<char>,
) -> bool {
    exists|i: int|
        0 <= i < required_docs.len() && lp_spec(#[trigger] required_docs[i], working) == p
}

/// The message for a stray file in the dependencies directory.
pub open spec fn stray_dependency_msg(path: Seq<char>) -> Seq<char> {
    "File '"@ + path
        + "' in dependencies/ is not a server-pulled dependency. Dependencies should only contain documents pulled from the server."@
}

/// The message when the dependencies directory is missing although the
/// manifest lists required documents.
pub open spec fn missing_dependencies_msg() -> Seq<char> {
    "dependencies/ directory is missing but there are required documents. Run 'teamturbo pull' to download."@
}

/// Check the dependencies directory: it may hold exactly the files that
/// the manifest's required documents derive.
pub fn verify_dependencies_directory(
    config: &DocuramConfig,
    dep_dir_exists: bool,
    dep_files: &Vec<String>,
) -> (r: Vec<ValidationIssue>)
    ensures
        ({
            let working = config.docuram.category_path@;
            let pred = (|f: String| !is_required_path(config.requires@, working, f@));
            if !dep_dir_exists {
                if config.requires@.len() > 0 {
                    r@.len() == 1 && r@[0].level == IssueLevel::Warning && r@[0].message@
                        == missing_dependencies_msg()
                } else {
                    r@.len() == 0
                }
            } else {
                let bad = dep_files@.filter(pred);
                r@.len() == bad.len() && forall|k: int|
                    0 <= k < bad.len() ==> (#[trigger] r@[k]).level == IssueLevel::Error
                        && r@[k].message@ == stray_dependency_msg(bad[k]@)
            }
        }),
{
    let ghost working = config.docuram.category_path@;
    let mut out: Vec<ValidationIssue> = Vec::new();
    if !dep_dir_exists {
        if config.requires.len() > 0 {
            proof {
                reveal_strlit(
                    "dependencies/ directory is missing but there are required documents. Run 'teamturbo pull' to download.",
                );
            }
            let message = String::from_str(
                "dependencies/ directory is missing but there are required documents. Run 'teamturbo pull' to download.",
            );
            out.push(ValidationIssue { level: IssueLevel::Warning, message });
        }
        return out;
    }
    proof {
        reveal(Seq::filter);
    }
    let ghost pred = |f: String| !is_required_path(config.requires@, working, f@);
    // Derive the local paths of all required documents once.
    let mut required_paths: Vec<String> = Vec::new();
    let mut t: usize = 0;
    while t < config.requires.len()
        invariant
            t <= config.requires@.len(),
            working == config.docuram.category_path@,
            required_paths@.len() == t,
            forall|k: int|
                0 <= k < t ==> (#[trigger] required_paths@[k])@ == lp_spec(
                    config.requires@[k],
                    working,
                ),
        decreases config.requires@.len() - t,
    {
        let d = &config.requires[t];
        let p = d.local_path(config.docuram.category_path.as_str());
        required_paths.push(p);
        t += 1;
    }
    let n = dep_files.len();
    let mut i: usize = 0;
    while i < n
        invariant
            i <= n,
            n == dep_files@.len(),
            working == config.docuram.category_path@,
            pred == (|f: String| !is_required_path(config.requires@, working, f@)),
            required_paths@.len() == config.requires@.len(),
            forall|k: int|
                0 <= k < required_paths@.len() ==> (#[trigger] required_paths@[k])@ == lp_spec(
                    config.requires@[k],
                    working,
                ),
            out@.len() == dep_files@.subrange(0, i as int).filter(pred).len(),
            forall|k: int|
                0 <= k < out@.len() ==> (#[trigger] out@[k]).level == IssueLevel::Error
                    && out@[k].message@ == stray_dependency_msg(
                    dep_files@.subrange(0, i as int).filter(pred)[k]@,
                ),
        decreases n - i,
    {
        let ghost pre = dep_files@.subrange(0, i as int);
        let ghost post = dep_files@.subrange(0, i + 1);
        proof {
            reveal(Seq::filter);
            assert(post.drop_last() =~= pre);
            assert(post.last() == dep_files@[i as int]);
            assert(post.filter(pred) == if pred(post.last()) {
                pre.filter(pred).push(post.last())
            } else {
                pre.filter(pred)
            });
        }
        // Is this file one of the required documents' paths?
        let f = &dep_files[i];
        let mut known: bool = false;
        let mut k: usize = 0;
        while k < required_paths.len() && !known
            invariant
                k <= required_paths@.len(),
                working == config.docuram.category_path@,
                required_paths@.len() == config.requires@.len(),
                forall|m: int|
                    0 <= m < required_paths@.len() ==> (#[trigger] required_paths@[m])@
                        == lp_spec(config.requires@[m], working),
                f@ == dep_files@[i as int]@,
                known ==> is_required_path(config.requires@, working, f@),
                !known ==> forall|m: int|
                    0 <= m < k ==> lp_spec(#[trigger] config.requires@[m], working) != f@,
            decreases required_paths@.len() - k + (if known {
                0int
            } else {
                1int
            }),
        {
            if text::str_eq(required_paths[k].as_str(), f.as_str()) {
                known = true;
            } else {
                k += 1;
            }
        }
        if !known {
            proof {
                reveal_strlit("File '");
                reveal_strlit(
                    "' in dependencies/ is not a server-pulled dependency. Dependencies should only contain documents pulled from the server.",
                );
            }
            let head = text::concat_str("File '", f.as_str());
            let message = text::concat_str(
                head.as_str(),
                "' in dependencies/ is not a server-pulled dependency. Dependencies should only contain documents pulled from the server.",
            );
            proof {
                assert(message@ =~= stray_dependency_msg(dep_files@[i as int]@));
            }
            out.push(ValidationIssue { level: IssueLevel::Error, message });
        }
        i += 1;
    }
    proof {
        assert(dep_files@.subrange(0, n as int) =~= dep_files@);
    }
    out
}

/// The message for a working document that is gone from disk.
pub open spec fn missing_working_msg(lp: Seq<char>) -> Seq<char> {
    "Working document '"@ + lp + "' referenced in config but not found on disk."@
}

/// The message for a dependency document that is gone from disk.
pub open spec fn missing_dependency_msg(lp: Seq<char>) -> Seq<char> {
    "Dependency document '"@ + lp
        + "' referenced in config but not found on disk. Run 'teamturbo pull' to download."@
}

/// Whether a sequence of paths contains the given one.
pub open spec fn path_listed(s: Seq<String>, p: Seq<char>) -> bool {
    exists|i: int| 0 <= i < s.len() && (#[trigger] s[i])@ == p
}

fn path_is_listed(existing: &Vec<String>, p: &str) -> (r: bool)
    ensures
        r == path_listed(existing@, p@),
{
    let n = existing.len();
    let mut i: usize = 0;
    while i < n
        invariant
            i <= n,
            n == existing@.len(),
            forall|j: int| 0 <= j < i ==> (#[trigger] existing@[j])@ != p@,
        decreases n - i,
    {
        if text::str_eq(existing[i].as_str(), p) {
            return true;
        }
        i += 1;
    }
    false
}

/// Check that every tracked document's derived file exists on disk: a
/// missing working document is an error, a missing dependency only a
/// warning.
pub fn verify_documents_exist(config: &DocuramConfig, existing_paths: &Vec<String>) -> (r: Vec<
    ValidationIssue,
>)
    ensures
        ({
            let working = config.docuram.category_path@;
            let pred = (|d: DocumentInfo| !path_listed(existing_paths@, lp_spec(d, working)));
            let bad_docs = config.documents@.filter(pred);
            let bad_reqs = config.requires@.filter(pred);
            &&& r@.len() == bad_docs.len() + bad_reqs.len()
            &&& forall|k: int|
                0 <= k < bad_docs.len() ==> (#[trigger] r@[k]).level == IssueLevel::Error
                    && r@[k].message@ == missing_working_msg(lp_spec(bad_docs[k], working))
            &&& forall|k: int|
                bad_docs.len() <= k < r@.len() ==> (#[trigger] r@[k]).level
                    == IssueLevel::Warning && r@[k].message@ == missing_dependency_msg(
                    lp_spec(bad_reqs[k - bad_docs.len()], working),
                )
        }),
{
    let ghost working = config.docuram.category_path@;
    let ghost pred = |d: DocumentInfo| !path_listed(existing_paths@, lp_spec(d, working));
    proof {
        reveal(Seq::filter);
        reveal_strlit("Working document '");
        reveal_strlit("' referenced in config but not found on disk.");
        reveal_strlit("Dependency document '");
        reveal_strlit(
            "' referenced in config but not found on disk. Run 'teamturbo pull' to download.",
        );
    }
    let mut out: Vec<ValidationIssue> = Vec::new();
    let n = config.documents.len();
    let mut i: usize = 0;
    while i < n
        invariant
            i <= n,
            n == config.documents@.len(),
            working == config.docuram.category_path@,
            pred == (|d: DocumentInfo| !path_listed(existing_paths@, lp_spec(d, working))),
            out@.len() == config.documents@.subrange(0, i as int).filter(pred).len(),
            forall|k: int|
                0 <= k < out@.len() ==> (#[trigger] out@[k]).level == IssueLevel::Error
                    && out@[k].message@ == missing_working_msg(
                    lp_spec(config.documents@.subrange(0, i as int).filter(pred)[k], working),
                ),
        decreases n - i,
    {
        let ghost pre = config.documents@.subrange(0, i as int);
        let ghost post = config.documents@.subrange(0, i + 1);
        proof {
            reveal(Seq::filter);
            assert(post.drop_last() =~= pre);
            assert(post.last() == config.documents@[i as int]);
            assert(post.filter(pred) == if pred(post.last()) {
                pre.filter(pred).push(post.last())
            } else {
                pre.filter(pred)
            });
        }
        let d = &config.documents[i];
        let lp = d.local_path(config.docuram.category_path.as_str());
        if !path_is_listed(existing_paths, lp.as_str()) {
            let head = text::concat_str("Working document '", lp.as_str());
            let message = text::concat_str(
                head.as_str(),
                "' referenced in config but not found on disk.",
            );
            proof {
                assert(message@ =~= missing_working_msg(
                    lp_spec(config.documents@[i as int], working),
                ));
            }
            out.push(ValidationIssue { level: IssueLevel::Error, message });
        }
        i += 1;
    }
    proof {
        assert(config.documents@.subrange(0, n as int) =~= config.documents@);
    }
    let ghost bad_docs_len = config.documents@.filter(pred).len();
    let m = config.requires.len();
    let mut j: usize = 0;
    while j < m
        invariant
            j <= m,
            m == config.requires@.len(),
            working == config.docuram.category_path@,
            pred == (|d: DocumentInfo| !path_listed(existing_paths@, lp_spec(d, working))),
            bad_docs_len == config.documents@.filter(pred).len(),
            out@.len() == bad_docs_len + config.requires@.subrange(0, j as int).filter(
                pred,
            ).len(),
            forall|k: int|
                0 <= k < bad_docs_len ==> (#[trigger] out@[k]).level == IssueLevel::Error
                    && out@[k].message@ == missing_working_msg(
                    lp_spec(config.documents@.filter(pred)[k], working),
                ),
            forall|k: int|
                bad_docs_len <= k < out@.len() ==> (#[trigger] out@[k]).level
                    == IssueLevel::Warning && out@[k].message@ == missing_dependency_msg(
                    lp_spec(
                        config.requires@.subrange(0, j as int).filter(pred)[k - bad_docs_len],
                        working,
                    ),
                ),
        decreases m - j,
    {
        let ghost pre = config.requires@.subrange(0, j as int);
        let ghost post = config.requires@.subrange(0, j + 1);
        proof {
            reveal(Seq::filter);
            assert(post.drop_last() =~= pre);
            assert(post.last() == config.requires@[j as int]);
            assert(post.filter(pred) == if pred(post.last()) {
                pre.filter(pred).push(post.last())
            } else {
                pre.filter(pred)
            });
        }
        let d = &config.requires[j];
        let lp = d.local_path(config.docuram.category_path.as_str());
        if !path_is_listed(existing_paths, lp.as_str()) {
            let head = text::concat_str("Dependency document '", lp.as_str());
            let message = text::concat_str(
                head.as_str(),
                "' referenced in config but not found on disk. Run 'teamturbo pull' to download.",
            );
            proof {
                assert(message@ =~= missing_dependency_msg(
                    lp_spec(config.requires@[j as int], working),
                ));
            }
            out.push(ValidationIssue { level: IssueLevel::Warning, message });
        }
        j += 1;
    }
    proof {
        assert(config.requires@.subrange(0, m as int) =~= config.requires@);
    }
    out
}

/// The message for a document whose on-disk content no longer matches the
/// manifest's checksum.
pub open spec fn checksum_mismatch_msg(lp: Seq<char>) -> Seq<char> {
    "Document '"@ + lp + "' has checksum mismatch. File may have been modified."@
}

/// Judge one document's integrity from its observed content: a mismatch
/// between the content's checksum and the manifest's is a warning, never
/// an error, since the document may simply have been edited.  An absent
/// file is not judged here.
pub fn integrity_issue_for(doc: &DocumentInfo, working: &str, content: &Option<String>) -> (r:
    Option<ValidationIssue>)
    ensures
        match r {
            Some(issue) => content matches Some(c) && checksum::checksum_of(c@) != doc.checksum@
                && issue.level == IssueLevel::Warning && issue.message@ == checksum_mismatch_msg(
                lp_spec(*doc, working@),
            ),
            None => match content {
                Some(c) => checksum::checksum_of(c@) == doc.checksum@,
                None => true,
            },
        },
{
    let c = match content {
        Some(c) => c,
        None => {
            return None;
        },
    };
    let actual = checksum::calculate_checksum(c.as_str());
    if text::str_eq(actual.as_str(), doc.checksum.as_str()) {
        return None;
    }
    proof {
        reveal_strlit("Document '");
        reveal_strlit("' has checksum mismatch. File may have been modified.");
    }
    let lp = doc.local_path(working);
    let head = text::concat_str("Document '", lp.as_str());
    let message = text::concat_str(
        head.as_str(),
        "' has checksum mismatch. File may have been modified.",
    );
    proof {
        assert(message@ =~= checksum_mismatch_msg(lp_spec(*doc, working@)));
    }
    Some(ValidationIssue { level: IssueLevel::Warning, message })
}

} // verus!
