//! Creating organic documents: requirement and bug notes that live under
//! the working category's `organic/` directory, numbered consecutively per
//! kind.

use vstd::prelude::*;
use vstd::string::StrSliceExecFns;
use vstd::string::StringExecFns;
use crate::text;

verus! {

/// The kind of organic document to add.
#[derive(PartialEq, Eq, Structural, Debug, Clone, Copy)]
pub enum DocType {
    /// A requirement note.
    Req,
    /// A bug report note.
    Bug,
}

pub open spec fn prefix_spec(t: DocType) -> Seq<char> {
    match t {
        DocType::Req => "req"@,
        DocType::Bug => "bug"@,
    }
}

pub open spec fn default_header_spec(t: DocType) -> Seq<char> {
    match t {
        DocType::Req => "**实现以下需求，并按Docuram规范生成并放置文档**"@,
        DocType::Bug => "**修正以下错误，并按Docuram规范生成并放置文档**"@,
    }
}

impl DocType {
    /// The filename prefix of this kind.
    pub fn prefix(&self) -> (r: &str)
        ensures
            r@ == prefix_spec(*self),
    {
        match self {
            DocType::Req => "req",
            DocType::Bug => "bug",
        }
    }

    /// The heading a fresh document of this kind starts with.
    pub fn default_header(&self) -> (r: &str)
        ensures
            r@ == default_header_spec(*self),
    {
        match self {
            DocType::Req => "**实现以下需求，并按Docuram规范生成并放置文档**",
            DocType::Bug => "**修正以下错误，并按Docuram规范生成并放置文档**",
        }
    }
}

/// The filename of an organic document: the kind's prefix, the number
/// zero-padded to three digits, an optional title, and the extension.
pub open spec fn filename_spec(t: DocType, num: int, title: Option<Seq<char>>) -> Seq<char> {
    prefix_spec(t) + text::padded3_spec(num) + (match title {
        Some(x) => "-"@ + x,
        None => Seq::empty(),
    }) + ".md"@
}

pub fn generate_filename(doc_type: DocType, num: usize, title: Option<&str>) -> (r: String)
    ensures
        r@ == filename_spec(
            doc_type,
            num as int,
            match title {
                Some(x) => Some(x@),
                None => None,
            },
        ),
{
    let mut out = String::from_str(doc_type.prefix());
    let padded = text::u64_to_dec_pad3(num as u64);
    out.append(padded.as_str());
    match title {
        Some(x) => {
            proof {
                reveal_strlit("-");
            }
            out.append("-");
            out.append(x);
        },
        None => {
            proof {
                assert(out@ + Seq::<char>::empty() =~= out@);
            }
        },
    }
    out.append(".md");
    proof {
        assert(out@ =~= filename_spec(
            doc_type,
            num as int,
            match title {
                Some(x) => Some(x@),
                None => None,
            },
        ));
    }
    out
}

/// The body of a fresh organic document: the kind's heading, and the
/// title as a top-level section when one was given.
pub open spec fn document_content_spec(t: DocType, title: Option<Seq<char>>) -> Seq<char> {
    match title {
        Some(x) => default_header_spec(t) + "\n\n# "@ + x + "\n\n"@,
        None => default_header_spec(t) + "\n\n"@,
    }
}

pub fn generate_document_content(doc_type: DocType, title: Option<&str>) -> (r: String)
    ensures
        r@ == document_content_spec(
            doc_type,
            match title {
                Some(x) => Some(x@),
                None => None,
            },
        ),
{
    let mut out = String::from_str(doc_type.default_header());
    match title {
        Some(x) => {
            proof {
                reveal_strlit("\n\n# ");
                reveal_strlit("\n\n");
            }
            out.append("\n\n# ");
            out.append(x);
            out.append("\n\n");
        },
        None => {
            out.append("\n\n");
        },
    }
    proof {
        assert(out@ =~= document_content_spec(
            doc_type,
            match title {
                Some(x) => Some(x@),
                None => None,
            },
        ));
    }
    out
}

/// The numeric value of a decimal digit, or a negative marker for any
/// other character.
pub open spec fn digit_value(c: char) -> int {
    if c == '0' {
        0
    } else if c == '1' {
        1
    } else if c == '2' {
        2
    } else if c == '3' {
        3
    } else if c == '4' {
        4
    } else if c == '5' {
        5
    } else if c == '6' {
        6
    } else if c == '7' {
        7
    } else if c == '8' {
        8
    } else if c == '9' {
        9
    } else {
        -1
    }
}

/// The length of the run of decimal digits that `s` starts with.
pub open spec fn leading_digits_len(s: Seq<char>) -> int
    decreases s.len(),
{
    if s.len() > 0 && digit_value(s[0]) >= 0 {
        1 + leading_digits_len(s.drop_first())
    } else {
        0
    }
}

/// The value of the first `k` characters of `s` read as a decimal number.
pub open spec fn value_of_prefix(s: Seq<char>, k: int) -> int
    decreases k,
{
    if k <= 0 {
        0
    } else {
        value_of_prefix(s, k - 1) * 10 + digit_value(s[k - 1])
    }
}

/// Every proper prefix of the digit run keeps its value small enough that
/// the next digit still fits the machine word.
pub open spec fn run_fits(s: Seq<char>, k: int) -> bool {
    forall|j: int| 0 <= j < k ==> #[trigger] value_of_prefix(s, j) < usize::MAX as int / 10
}

/// The document number a filename carries after the kind's prefix: the
/// value of the digit run that follows the prefix.  A name without the
/// prefix or without digits carries none; an absurdly large number is
/// ignored as unparseable.
pub open spec fn doc_number_of(name: Seq<char>, prefix: Seq<char>) -> Option<int> {
    if text::has_prefix(name, prefix) {
        let t = name.skip(prefix.len() as int);
        let k = leading_digits_len(t);
        if k == 0 || !run_fits(t, k) {
            None
        } else {
            Some(value_of_prefix(t, k))
        }
    } else {
        None
    }
}

proof fn lemma_leading_digits_bound(s: Seq<char>)
    ensures
        0 <= leading_digits_len(s) <= s.len(),
        forall|j: int| 0 <= j < leading_digits_len(s) ==> digit_value(s[j]) >= 0,
        leading_digits_len(s) < s.len() ==> digit_value(s[leading_digits_len(s)]) < 0,
    decreases s.len(),
{
    if s.len() > 0 && digit_value(s[0]) >= 0 {
        lemma_leading_digits_bound(s.drop_first());
        let k = leading_digits_len(s);
        assert forall|j: int| 0 <= j < k implies digit_value(s[j]) >= 0 by {
            if j > 0 {
                assert(digit_value(s.drop_first()[j - 1]) >= 0);
            }
        }
        if k < s.len() {
            assert(digit_value(s.drop_first()[k - 1]) < 0);
        }
    }
}

fn exec_digit_value(c: char) -> (r: i8)
    ensures
        r as int == digit_value(c),
{
    if c == '0' {
        0
    } else if c == '1' {
        1
    } else if c == '2' {
        2
    } else if c == '3' {
        3
    } else if c == '4' {
        4
    } else if c == '5' {
        5
    } else if c == '6' {
        6
    } else if c == '7' {
        7
    } else if c == '8' {
        8
    } else if c == '9' {
        9
    } else {
        -1
    }
}

/// Parse the document number of one filename for the given kind prefix.
fn parse_doc_number(name: &str, prefix: &str) -> (r: Option<usize>)
    ensures
        match r {
            Some(v) => doc_number_of(name@, prefix@) == Some(v as int) && v < usize::MAX,
            None => doc_number_of(name@, prefix@) is None,
        },
{
    if !text::starts_with(name, prefix) {
        return None;
    }
    let plen = prefix.unicode_len();
    let nlen = name.unicode_len();
    let rest = name.substring_char(plen, nlen);
    let ghost t = name@.skip(plen as int);
    proof {
        assert(rest@ =~= t);
        lemma_leading_digits_bound(t);
    }
    let rlen = rest.unicode_len();
    // Find the length of the digit run.
    let mut k: usize = 0;
    while k < rlen && exec_digit_value(rest.get_char(k)) >= 0
        invariant
            k <= rlen,
            rlen == rest@.len(),
            rest@ == t,
            forall|j: int| 0 <= j < k ==> digit_value(t[j]) >= 0,
        decreases rlen - k,
    {
        k += 1;
    }
    proof {
        lemma_leading_digits_bound(t);
        assert(leading_digits_len(t) == k as int) by {
            let l = leading_digits_len(t);
            if l < k as int {
                assert(digit_value(t[l]) >= 0);
            }
            if (k as int) < l {
                assert(digit_value(t[k as int]) >= 0);
            }
        }
    }
    if k == 0 {
        return None;
    }
    // Accumulate the value, giving up when the next digit might not fit.
    let mut value: usize = 0;
    let mut j: usize = 0;
    while j < k
        invariant
            j <= k,
            k <= rlen,
            k >= 1,
            rlen == rest@.len(),
            rest@ == t,
            t == name@.skip(prefix@.len() as int),
            text::has_prefix(name@, prefix@),
            leading_digits_len(t) == k as int,
            forall|m: int| 0 <= m < k ==> digit_value(t[m]) >= 0,
            forall|m: int| 0 <= m < j ==> #[trigger] value_of_prefix(t, m) < usize::MAX as int
                / 10,
            value as int == value_of_prefix(t, j as int),
            value < usize::MAX,
        decreases k - j,
    {
        let d = exec_digit_value(rest.get_char(j));
        proof {
            assert(digit_value(t[j as int]) >= 0);
        }
        if value >= usize::MAX / 10 {
            proof {
                assert(value_of_prefix(t, j as int) >= usize::MAX as int / 10);
                assert(!run_fits(t, k as int));
            }
            return None;
        }
        proof {
            let m = usize::MAX as int;
            let v = value as int;
            assert(v * 10 <= (m / 10 - 1) * 10) by (nonlinear_arith)
                requires
                    v <= m / 10 - 1,
            ;
            assert(v * 10 >= 0) by (nonlinear_arith)
                requires
                    v >= 0,
            ;
            assert((m / 10 - 1) * 10 + 9 < (m / 10) * 10) by (nonlinear_arith);
            assert((m / 10) * 10 <= m) by (nonlinear_arith)
                requires
                    m >= 0,
            ;
        }
        value = value * 10 + (d as usize);
        j += 1;
    }
    proof {
        assert(run_fits(t, k as int));
        assert(value_of_prefix(t, k as int) == value as int);
    }
    Some(value)
}

/// The next free document number for one kind: one more than the largest
/// number that any of the given filenames carries for that kind's prefix.
pub fn get_next_document_number(filenames: &Vec<String>, doc_type: DocType) -> (r: usize)
    ensures
        r >= 1,
        forall|j: int|
            0 <= j < filenames@.len() ==> match #[trigger] doc_number_of(
                filenames@[j]@,
                prefix_spec(doc_type),
            ) {
                Some(v) => v <= r - 1,
                None => true,
            },
        r > 1 ==> exists|j: int|
            0 <= j < filenames@.len() && doc_number_of(filenames@[j]@, prefix_spec(doc_type))
                == Some(r - 1),
{
    let prefix = doc_type.prefix();
    let mut max_num: usize = 0;
    let n = filenames.len();
    let mut i: usize = 0;
    while i < n
        invariant
            i <= n,
            n == filenames@.len(),
            prefix@ == prefix_spec(doc_type),
            max_num < usize::MAX,
            forall|j: int|
                0 <= j < i ==> match #[trigger] doc_number_of(
                    filenames@[j]@,
                    prefix_spec(doc_type),
                ) {
                    Some(v) => v <= max_num as int,
                    None => true,
                },
            max_num > 0 ==> exists|j: int|
                0 <= j < i && doc_number_of(filenames@[j]@, prefix_spec(doc_type)) == Some(
                    max_num as int,
                ),
        decreases n - i,
    {
        match parse_doc_number(filenames[i].as_str(), prefix) {
            Some(num) => {
                if num > max_num {
                    max_num = num;
                }
            },
            None => {},
        }
        i += 1;
    }
    max_num + 1
}

} // verus!
