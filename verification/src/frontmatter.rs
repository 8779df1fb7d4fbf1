//! Markdown front matter: the `---`-delimited metadata block at the top of
//! every document.  The YAML inside the block is (de)serialized by the
//! application shell; finding the block, assembling files around it, and
//! the default metadata of a fresh document are verified here.

use vstd::prelude::*;
use vstd::string::StrSliceExecFns;
use vstd::string::StringExecFns;
use crate::config::DocumentInfo;
use crate::text;

verus! {

/// The metadata record a document's front matter carries.
pub struct FrontMatter {
    pub schema: String,
    pub category: String,
    pub title: String,
    pub slug: Option<String>,
    pub description: Option<String>,
    pub doc_type: Option<String>,
    pub priority: Option<i64>,
    pub is_required: Option<bool>,
    pub uuid: Option<String>,
    pub category_uuid: Option<String>,
    pub version: Option<i64>,
}

fn clone_opt_string(o: &Option<String>) -> (r: Option<String>)
    ensures
        r == *o,
{
    match o {
        Some(s) => Some(s.clone()),
        None => None,
    }
}

impl Clone for FrontMatter {
    fn clone(&self) -> (r: Self)
        ensures
            r == *self,
    {
        FrontMatter {
            schema: self.schema.clone(),
            category: self.category.clone(),
            title: self.title.clone(),
            slug: clone_opt_string(&self.slug),
            description: clone_opt_string(&self.description),
            doc_type: clone_opt_string(&self.doc_type),
            priority: self.priority,
            is_required: self.is_required,
            uuid: clone_opt_string(&self.uuid),
            category_uuid: clone_opt_string(&self.category_uuid),
            version: self.version,
        }
    }
}

/// The persisted shape: the metadata sits under a single root key.
pub struct FrontMatterWrapper {
    pub docuram: FrontMatter,
}

/// A document found on disk: its metadata, its body, and where it lives.
pub struct DocumentWithMeta {
    pub front_matter: FrontMatter,
    pub content: String,
    pub file_path: String,
}

impl Clone for DocumentWithMeta {
    fn clone(&self) -> (r: Self)
        ensures
            r == *self,
    {
        DocumentWithMeta {
            front_matter: self.front_matter.clone(),
            content: self.content.clone(),
            file_path: self.file_path.clone(),
        }
    }
}

/// The lines of a text: split at newlines, each line's trailing carriage
/// return removed, and no empty final line when the text ends with a
/// newline.
pub open spec fn lines_spec(s: Seq<char>) -> Seq<Seq<char>> {
    let p = text::split_char_spec(s, '\n');
    let q = Seq::new(
        p.len(),
        |i: int|
            if i < p.len() - 1 && p[i].len() > 0 && p[i].last() == '\r' {
                p[i].drop_last()
            } else {
                p[i]
            },
    );
    if q.len() > 0 && q.last().len() == 0 {
        q.drop_last()
    } else {
        q
    }
}

/// Split a text into its lines.
pub fn split_lines(s: &str) -> (r: Vec<String>)
    ensures
        text::str_views(r@) == lines_spec(s@),
{
    let mut parts = text::split_char(s, '\n');
    proof {
        text::lemma_split_char_len(s@, '\n');
    }
    let ghost p = text::split_char_spec(s@, '\n');
    let ghost q = Seq::new(
        p.len(),
        |i: int|
            if i < p.len() - 1 && p[i].len() > 0 && p[i].last() == '\r' {
                p[i].drop_last()
            } else {
                p[i]
            },
    );
    let n = parts.len();
    let mut i: usize = 0;
    while i < n - 1
        invariant
            n >= 1,
            i <= n - 1,
            n == parts@.len(),
            p.len() == n,
            q.len() == n,
            forall|j: int|
                0 <= j < n ==> q[j] == (if j < p.len() - 1 && p[j].len() > 0 && p[j].last()
                    == '\r' {
                    p[j].drop_last()
                } else {
                    p[j]
                }),
            forall|j: int| 0 <= j < i ==> parts@[j]@ == q[j],
            forall|j: int| i <= j < n ==> parts@[j]@ == p[j],
        decreases n - 1 - i,
    {
        let line = &parts[i];
        let llen = line.as_str().unicode_len();
        if llen > 0 && line.as_str().get_char(llen - 1) == '\r' {
            let stripped = line.as_str().substring_char(0, llen - 1);
            let owned = String::from_str(stripped);
            proof {
                assert(owned@ =~= p[i as int].drop_last());
            }
            parts.set(i, owned);
        }
        i += 1;
    }
    proof {
        assert(q[n - 1] == p[n - 1]);
        assert(forall|j: int| 0 <= j < n ==> parts@[j]@ == q[j]);
    }
    let last_empty = parts[n - 1].as_str().is_empty();
    if last_empty {
        let _ = parts.pop();
        proof {
            assert(q.last().len() == 0);
            assert(text::str_views(parts@) =~~= q.drop_last());
            assert(lines_spec(s@) == q.drop_last());
        }
    } else {
        proof {
            assert(q.last().len() != 0);
            assert(text::str_views(parts@) =~~= q);
            assert(lines_spec(s@) == q);
        }
    }
    parts
}

/// A front matter delimiter line: three dashes, surrounding whitespace
/// allowed.
pub open spec fn is_delim(line: Seq<char>) -> bool {
    text::trim_spec(line) == "---"@
}

fn is_delim_line(line: &str) -> (r: bool)
    ensures
        r == is_delim(line@),
{
    let trimmed = text::trim_spaces(line);
    text::str_eq(trimmed.as_str(), "---")
}

/// The first delimiter line at or after position `i`.
pub open spec fn find_delim(lines: Seq<Seq<char>>, i: int) -> Option<int>
    decreases lines.len() - i,
{
    if i < 0 || i >= lines.len() {
        None
    } else if is_delim(lines[i]) {
        Some(i)
    } else {
        find_delim(lines, i + 1)
    }
}

proof fn lemma_find_delim_found(lines: Seq<Seq<char>>, start: int, i: int)
    requires
        0 <= start <= i < lines.len(),
        is_delim(lines[i]),
        forall|j: int| start <= j < i ==> !is_delim(lines[j]),
    ensures
        find_delim(lines, start) == Some(i),
    decreases i - start,
{
    if start < i {
        lemma_find_delim_found(lines, start + 1, i);
    }
}

proof fn lemma_find_delim_none(lines: Seq<Seq<char>>, start: int)
    requires
        start >= 0,
        forall|j: int| start <= j < lines.len() ==> !is_delim(lines[j]),
    ensures
        find_delim(lines, start) is None,
    decreases lines.len() - start,
{
    if start < lines.len() {
        lemma_find_delim_none(lines, start + 1);
    }
}


/// Where a document's front matter block splits: the YAML text between the
/// opening and closing delimiter lines, and the trimmed body after the
/// closing one.  `None` when the text does not open with a delimiter line
/// or never closes it.
pub open spec fn front_matter_split_spec(s: Seq<char>) -> Option<(Seq<char>, Seq<char>)> {
    let lines = lines_spec(s);
    if lines.len() == 0 || !is_delim(lines[0]) {
        None
    } else {
        match find_delim(lines, 1) {
            None => None,
            Some(e) => Some(
                (
                    text::join_char_spec(lines.subrange(1, e), '\n'),
                    text::trim_spec(
                        text::join_char_spec(lines.subrange(e + 1, lines.len() as int), '\n'),
                    ),
                ),
            ),
        }
    }
}

/// Split a document into its front matter YAML and its body.
pub fn split_front_matter(content: &str) -> (r: Option<(String, String)>)
    ensures
        match r {
            Some(pair) => front_matter_split_spec(content@) == Some((pair.0@, pair.1@)),
            None => front_matter_split_spec(content@) is None,
        },
{
    let lines = split_lines(content);
    let ghost lv = text::str_views(lines@);
    let n = lines.len();
    if n == 0 {
        return None;
    }
    if !is_delim_line(lines[0].as_str()) {
        return None;
    }
    let mut e: usize = 1;
    let mut found: bool = false;
    while e < n && !found
        invariant
            1 <= e <= n,
            n == lines@.len(),
            lv == text::str_views(lines@),
            found ==> e < n && is_delim(lv[e as int]),
            forall|j: int| 1 <= j < e ==> !is_delim(lv[j]),
        decreases n - e + (if found {
            0int
        } else {
            1int
        }),
    {
        if is_delim_line(lines[e].as_str()) {
            found = true;
        } else {
            e += 1;
        }
    }
    if !found {
        proof {
            lemma_find_delim_none(lv, 1);
        }
        return None;
    }
    proof {
        lemma_find_delim_found(lv, 1, e as int);
    }
    let yaml_lines = text::slice_strings(&lines, 1, e);
    let yaml = text::join_char(&yaml_lines, '\n');
    let rest_lines = text::slice_strings(&lines, e + 1, n);
    let joined = text::join_char(&rest_lines, '\n');
    let body = text::trim_spaces(joined.as_str());
    Some((yaml, body))
}

/// The schema tags that mark a document as one of this system's.
pub fn is_docuram_schema(schema: &str) -> (r: bool)
    ensures
        r == (schema@ == "DOCURAM DOCUMENT"@ || schema@ == "TEAMTURBO DOCURAM DOCUMENT"@),
{
    text::str_eq(schema, "DOCURAM DOCUMENT") || text::str_eq(schema, "TEAMTURBO DOCURAM DOCUMENT")
}

/// The metadata a document found without front matter gets: the filename
/// as its title, the default document type, and nothing else set.
pub fn default_front_matter(filename_stem: &str) -> (r: FrontMatter)
    ensures
        r.schema@ == "TEAMTURBO DOCURAM DOCUMENT"@,
        r.category@ == Seq::<char>::empty(),
        r.title@ == filename_stem@,
        r.slug is None,
        r.description is None,
        r.doc_type matches Some(t) && t@ == "knowledge"@,
        r.priority is None,
        r.is_required is None,
        r.uuid is None,
        r.category_uuid is None,
        r.version is None,
{
    proof {
        reveal_strlit("");
    }
    FrontMatter {
        schema: String::from_str("TEAMTURBO DOCURAM DOCUMENT"),
        category: String::from_str(""),
        title: String::from_str(filename_stem),
        slug: None,
        description: None,
        doc_type: Some(String::from_str("knowledge")),
        priority: None,
        is_required: None,
        uuid: None,
        category_uuid: None,
        version: None,
    }
}

/// A complete document file: the serialized front matter between delimiter
/// lines, a blank line, and the body.
pub fn compose_with_front_matter(yaml: &str, content: &str) -> (r: String)
    ensures
        r@ == "---\n"@ + yaml@ + "---\n\n"@ + content@,
{
    proof {
        reveal_strlit("---\n");
        reveal_strlit("---\n\n");
    }
    let mut out = String::from_str("---\n");
    out.append(yaml);
    out.append("---\n\n");
    out.append(content);
    out
}

/// Whether a document already opens with this system's metadata block.
pub open spec fn has_metadata_spec(content: Seq<char>) -> bool {
    text::has_prefix(content, "---\ndocuram:"@) || text::has_prefix(content, "---\r\ndocuram:"@)
}

fn has_metadata(content: &str) -> (r: bool)
    ensures
        r == has_metadata_spec(content@),
{
    proof {
        reveal_strlit("---\ndocuram:");
        reveal_strlit("---\r\ndocuram:");
    }
    text::starts_with(content, "---\ndocuram:") || text::starts_with(content, "---\r\ndocuram:")
}

/// The metadata block written above a pulled document's content.
pub open spec fn metadata_block_spec(doc: DocumentInfo, version: int) -> Seq<char> {
    "---\ndocuram:\n  schema: \"TEAMTURBO DOCURAM DOCUMENT\"\n  uuid: \""@ + doc.uuid@
        + "\"\n  title: \""@ + text::escape_quotes_spec(doc.title@) + "\"\n  category: \""@
        + text::escape_quotes_spec(doc.category_path@) + "\"\n  category_uuid: \""@
        + doc.category_uuid@ + "\"\n  doc_type: \""@ + doc.doc_type@ + "\"\n  version: "@
        + text::int_str_spec(version) + "\n---\n\n"@
}

/// Prefix a downloaded document with its metadata block; content that
/// already carries one is left unchanged.
pub fn add_docuram_metadata(content: &str, doc_info: &DocumentInfo, version: i64) -> (r: String)
    ensures
        r@ == if has_metadata_spec(content@) {
            content@
        } else {
            metadata_block_spec(*doc_info, version as int) + content@
        },
{
    if has_metadata(content) {
        return String::from_str(content);
    }
    proof {
        reveal_strlit("---\ndocuram:\n  schema: \"TEAMTURBO DOCURAM DOCUMENT\"\n  uuid: \"");
        reveal_strlit("\"\n  title: \"");
        reveal_strlit("\"\n  category: \"");
        reveal_strlit("\"\n  category_uuid: \"");
        reveal_strlit("\"\n  doc_type: \"");
        reveal_strlit("\"\n  version: ");
        reveal_strlit("\n---\n\n");
    }
    let mut out = String::from_str(
        "---\ndocuram:\n  schema: \"TEAMTURBO DOCURAM DOCUMENT\"\n  uuid: \"",
    );
    out.append(doc_info.uuid.as_str());
    out.append("\"\n  title: \"");
    let title_escaped = text::escape_quotes(doc_info.title.as_str());
    out.append(title_escaped.as_str());
    out.append("\"\n  category: \"");
    let category_escaped = text::escape_quotes(doc_info.category_path.as_str());
    out.append(category_escaped.as_str());
    out.append("\"\n  category_uuid: \"");
    out.append(doc_info.category_uuid.as_str());
    out.append("\"\n  doc_type: \"");
    out.append(doc_info.doc_type.as_str());
    out.append("\"\n  version: ");
    let version_str = text::i64_to_dec(version);
    out.append(version_str.as_str());
    out.append("\n---\n\n");
    out.append(content);
    proof {
        assert(out@ =~= metadata_block_spec(*doc_info, version as int) + content@);
    }
    out
}

/// What stripping the metadata block leaves: the body after the block's
/// closing delimiter, leading whitespace removed.  Content that carries no
/// block, or whose block never closes before the end, is unchanged.
pub open spec fn without_metadata_spec(content: Seq<char>) -> Seq<char> {
    if !has_metadata_spec(content) {
        content
    } else {
        let lines = lines_spec(content);
        match find_delim(lines, 0) {
            None => content,
            Some(s0) => match find_delim(lines, s0 + 1) {
                None => content,
                Some(e) => if e + 1 < lines.len() {
                    text::trim_front_spec(
                        text::join_char_spec(lines.subrange(e + 1, lines.len() as int), '\n'),
                    )
                } else {
                    content
                },
            },
        }
    }
}

/// Strip this system's metadata block from a document before uploading.
pub fn remove_docuram_metadata(content: &str) -> (r: String)
    ensures
        r@ == without_metadata_spec(content@),
{
    if !has_metadata(content) {
        return String::from_str(content);
    }
    let lines = split_lines(content);
    let ghost lv = text::str_views(lines@);
    let n = lines.len();
    // Find the opening delimiter line.
    let mut s0: usize = 0;
    let mut found0: bool = false;
    while s0 < n && !found0
        invariant
            s0 <= n,
            n == lines@.len(),
            lv == text::str_views(lines@),
            found0 ==> s0 < n && is_delim(lv[s0 as int]),
            forall|j: int| 0 <= j < s0 ==> !is_delim(lv[j]),
        decreases n - s0 + (if found0 {
            0int
        } else {
            1int
        }),
    {
        if is_delim_line(lines[s0].as_str()) {
            found0 = true;
        } else {
            s0 += 1;
        }
    }
    if !found0 {
        proof {
            lemma_find_delim_none(lv, 0);
        }
        return String::from_str(content);
    }
    proof {
        lemma_find_delim_found(lv, 0, s0 as int);
    }
    // Find the closing delimiter line.
    let mut e: usize = s0 + 1;
    let mut found: bool = false;
    while e < n && !found
        invariant
            s0 + 1 <= e <= n,
            n == lines@.len(),
            lv == text::str_views(lines@),
            found ==> e < n && is_delim(lv[e as int]),
            forall|j: int| s0 + 1 <= j < e ==> !is_delim(lv[j]),
        decreases n - e + (if found {
            0int
        } else {
            1int
        }),
    {
        if is_delim_line(lines[e].as_str()) {
            found = true;
        } else {
            e += 1;
        }
    }
    if !found {
        proof {
            lemma_find_delim_none(lv, s0 as int + 1);
        }
        return String::from_str(content);
    }
    proof {
        lemma_find_delim_found(lv, s0 as int + 1, e as int);
    }
    if e + 1 >= n {
        return String::from_str(content);
    }
    let rest_lines = text::slice_strings(&lines, e + 1, n);
    let joined = text::join_char(&rest_lines, '\n');
    text::trim_start_spaces(joined.as_str())
}

/// The index of the last `'.'` in a name, or a negative marker when it has
/// none.
pub open spec fn last_dot_spec(s: Seq<char>) -> int
    decreases s.len(),
{
    if s.len() == 0 {
        -1
    } else if s.last() == '.' {
        s.len() - 1
    } else {
        last_dot_spec(s.drop_last())
    }
}

proof fn lemma_last_dot_at(s: Seq<char>, i: int)
    requires
        0 <= i < s.len(),
        s[i] == '.',
        forall|j: int| i < j < s.len() ==> s[j] != '.',
    ensures
        last_dot_spec(s) == i,
    decreases s.len(),
{
    if i < s.len() - 1 {
        assert(s.last() != '.');
        let t = s.drop_last();
        assert(forall|j: int| i < j < t.len() ==> t[j] != '.');
        lemma_last_dot_at(t, i);
    }
}

proof fn lemma_last_dot_none(s: Seq<char>)
    requires
        !text::contains_char(s, '.'),
    ensures
        last_dot_spec(s) == -1,
    decreases s.len(),
{
    if s.len() > 0 {
        assert(s.last() != '.');
        assert(!text::contains_char(s.drop_last(), '.')) by {
            assert(forall|j: int|
                0 <= j < s.drop_last().len() ==> s.drop_last()[j] == s[j]);
        }
        lemma_last_dot_none(s.drop_last());
    }
}

/// A filename's stem: the final path segment with its extension removed;
/// a dot that opens the name marks no extension.  An empty stem falls back
/// to a placeholder title.
pub open spec fn title_of_path_spec(path: Seq<char>) -> Seq<char> {
    let seg = text::last_segment_spec(path);
    if seg.len() == 0 {
        "Untitled"@
    } else {
        let d = last_dot_spec(seg);
        if d <= 0 {
            seg
        } else {
            seg.subrange(0, d)
        }
    }
}

/// The title a document imported from a file gets: the filename's stem.
pub fn extract_title(file_path: &str) -> (r: String)
    ensures
        r@ == title_of_path_spec(file_path@),
{
    let seg = text::last_segment(file_path);
    let seg_len = seg.as_str().unicode_len();
    if seg_len == 0 {
        return String::from_str("Untitled");
    }
    match text::rfind_char(seg.as_str(), '.') {
        Some(d) => {
            proof {
                lemma_last_dot_at(seg@, d as int);
            }
            if d == 0 {
                seg
            } else {
                let stem = seg.as_str().substring_char(0, d);
                String::from_str(stem)
            }
        },
        None => {
            proof {
                lemma_last_dot_none(seg@);
            }
            seg
        },
    }
}

} // verus!
