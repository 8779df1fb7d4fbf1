//! Verified helpers over `String` and `&str`, specified through `Seq<char>`
//! views.  Everything that the rest of the library does with text (prefix
//! tests, slicing, joining, decimal formatting) goes through these functions.

use vstd::prelude::*;
use vstd::string::StrSliceExecFns;
use vstd::string::StringExecFns;

verus! {

/// Relies on std's `String::push`: appends the given `char` to the end of
/// this `String`.
pub assume_specification[ String::push ](s: &mut String, c: char)
    ensures
        final(s)@ == old(s)@.push(c),
;

/// `p` is a prefix of `s`.
pub open spec fn has_prefix(s: Seq<char>, p: Seq<char>) -> bool {
    p.len() <= s.len() && s.subrange(0, p.len() as int) == p
}

pub fn str_eq(a: &str, b: &str) -> (r: bool)
    ensures
        r == (a@ == b@),
{
    let alen = a.unicode_len();
    let blen = b.unicode_len();
    if alen != blen {
        assert(a@ != b@);
        return false;
    }
    let mut i: usize = 0;
    while i < alen
        invariant
            i <= alen,
            alen == a@.len(),
            alen == b@.len(),
            forall|j: int| 0 <= j < i ==> a@[j] == b@[j],
        decreases alen - i,
    {
        if a.get_char(i) != b.get_char(i) {
            return false;
        }
        i += 1;
    }
    assert(a@ =~= b@);
    true
}

pub fn starts_with(s: &str, p: &str) -> (r: bool)
    ensures
        r == has_prefix(s@, p@),
{
    let slen = s.unicode_len();
    let plen = p.unicode_len();
    if plen > slen {
        return false;
    }
    let mut i: usize = 0;
    while i < plen
        invariant
            i <= plen,
            plen <= slen,
            slen == s@.len(),
            plen == p@.len(),
            forall|j: int| 0 <= j < i ==> s@[j] == p@[j],
        decreases plen - i,
    {
        if s.get_char(i) != p.get_char(i) {
            assert(s@.subrange(0, p@.len() as int)[i as int] != p@[i as int]);
            return false;
        }
        i += 1;
    }
    assert(s@.subrange(0, p@.len() as int) =~= p@);
    true
}

pub fn concat_str(a: &str, b: &str) -> (r: String)
    ensures
        r@ == a@ + b@,
{
    let mut s = String::from_str(a);
    s.append(b);
    s
}

pub fn concat3(a: &str, b: &str, c: &str) -> (r: String)
    ensures
        r@ == a@ + b@ + c@,
{
    let mut s = String::from_str(a);
    s.append(b);
    s.append(c);
    s
}

/// `s` with the prefix `p` removed when present, `s` itself otherwise.
pub open spec fn strip_prefix_spec(s: Seq<char>, p: Seq<char>) -> Seq<char> {
    if has_prefix(s, p) {
        s.subrange(p.len() as int, s.len() as int)
    } else {
        s
    }
}

pub fn strip_prefix_or_self(s: &str, p: &str) -> (r: String)
    ensures
        r@ == strip_prefix_spec(s@, p@),
{
    if starts_with(s, p) {
        let slen = s.unicode_len();
        let plen = p.unicode_len();
        let rest = s.substring_char(plen, slen);
        String::from_str(rest)
    } else {
        String::from_str(s)
    }
}

pub open spec fn contains_char(s: Seq<char>, c: char) -> bool {
    exists|i: int| 0 <= i < s.len() && s[i] == c
}

pub fn find_char(s: &str, c: char) -> (r: Option<usize>)
    ensures
        match r {
            Some(i) => i < s@.len() && s@[i as int] == c && forall|j: int|
                0 <= j < i ==> s@[j] != c,
            None => !contains_char(s@, c),
        },
{
    let slen = s.unicode_len();
    let mut i: usize = 0;
    while i < slen
        invariant
            i <= slen,
            slen == s@.len(),
            forall|j: int| 0 <= j < i ==> s@[j] != c,
        decreases slen - i,
    {
        if s.get_char(i) == c {
            return Some(i);
        }
        i += 1;
    }
    None
}

/// The part of `s` after its last `'/'`; all of `s` when it has none.
pub open spec fn last_segment_spec(s: Seq<char>) -> Seq<char>
    decreases s.len(),
{
    if s.len() == 0 {
        Seq::empty()
    } else if s.last() == '/' {
        Seq::empty()
    } else {
        last_segment_spec(s.drop_last()).push(s.last())
    }
}

/// The part of `s` before its last `'/'` (the separator excluded).
/// Empty when `s` has no `'/'`.
pub open spec fn before_last_slash_spec(s: Seq<char>) -> Seq<char>
    decreases s.len(),
{
    if s.len() == 0 {
        Seq::empty()
    } else if s.last() == '/' {
        s.drop_last()
    } else {
        before_last_slash_spec(s.drop_last())
    }
}

proof fn lemma_no_slash_last_segment(s: Seq<char>)
    requires
        !contains_char(s, '/'),
    ensures
        last_segment_spec(s) =~= s,
    decreases s.len(),
{
    if s.len() > 0 {
        assert(s.last() != '/');
        assert(!contains_char(s.drop_last(), '/')) by {
            assert(forall|i: int| 0 <= i < s.drop_last().len() ==> s.drop_last()[i] == s[i]);
        }
        lemma_no_slash_last_segment(s.drop_last());
    }
}

proof fn lemma_slash_at_last_segment(s: Seq<char>, i: int)
    requires
        0 <= i < s.len(),
        s[i] == '/',
        forall|j: int| i < j < s.len() ==> s[j] != '/',
    ensures
        last_segment_spec(s) =~= s.subrange(i + 1, s.len() as int),
        before_last_slash_spec(s) =~= s.subrange(0, i),
    decreases s.len(),
{
    if i == s.len() - 1 {
        assert(s.last() == '/');
    } else {
        assert(s.last() != '/');
        let t = s.drop_last();
        assert(forall|j: int| i < j < t.len() ==> t[j] != '/');
        lemma_slash_at_last_segment(t, i);
        assert(last_segment_spec(t) =~= t.subrange(i + 1, t.len() as int));
        assert(last_segment_spec(s) =~= last_segment_spec(t).push(s.last()));
        assert(t.subrange(i + 1, t.len() as int).push(s.last()) =~= s.subrange(
            i + 1,
            s.len() as int,
        ));
    }
}

/// Appending behind a separator keeps the final segment: when `a` is
/// empty or ends with `'/'`, the final segment of `a + b` is that of `b`.
pub proof fn lemma_last_segment_concat(a: Seq<char>, b: Seq<char>)
    requires
        b.len() > 0,
        a.len() > 0 ==> a.last() == '/',
    ensures
        last_segment_spec(a + b) == last_segment_spec(b),
    decreases b.len(),
{
    let c = a + b;
    assert(c.last() == b.last());
    if b.last() == '/' {
    } else if b.len() == 1 {
        assert(c.drop_last() =~= a);
        assert(last_segment_spec(a) =~= Seq::<char>::empty());
        assert(last_segment_spec(c) == last_segment_spec(a).push(b.last()));
        assert(b.drop_last() =~= Seq::<char>::empty());
        assert(last_segment_spec(b.drop_last()) =~= Seq::<char>::empty());
        assert(last_segment_spec(b) == last_segment_spec(b.drop_last()).push(b.last()));
    } else {
        lemma_last_segment_concat(a, b.drop_last());
        assert(c.drop_last() =~= a + b.drop_last());
        assert(last_segment_spec(c) == last_segment_spec(a + b.drop_last()).push(b.last()));
        assert(last_segment_spec(b) == last_segment_spec(b.drop_last()).push(b.last()));
    }
}

pub fn last_segment(s: &str) -> (r: String)
    ensures
        r@ == last_segment_spec(s@),
{
    let slen = s.unicode_len();
    match rfind_char(s, '/') {
        Some(i) => {
            proof {
                lemma_slash_at_last_segment(s@, i as int);
            }
            let seg = s.substring_char(i + 1, slen);
            String::from_str(seg)
        },
        None => {
            proof {
                lemma_no_slash_last_segment(s@);
            }
            String::from_str(s)
        },
    }
}

/// The path above the final segment: `Some` of everything before the last
/// `'/'` when `s` has one, `None` otherwise.
pub fn parent_of_path(s: &str) -> (r: Option<String>)
    ensures
        match r {
            Some(p) => contains_char(s@, '/') && p@ == before_last_slash_spec(s@),
            None => !contains_char(s@, '/'),
        },
{
    match rfind_char(s, '/') {
        Some(i) => {
            proof {
                lemma_slash_at_last_segment(s@, i as int);
            }
            let p = s.substring_char(0, i);
            Some(String::from_str(p))
        },
        None => None,
    }
}

pub open spec fn is_space_char(c: char) -> bool {
    c == ' ' || c == '\t' || c == '\n' || c == '\r'
}

/// `s` with leading and trailing whitespace removed.
pub open spec fn trim_front_spec(s: Seq<char>) -> Seq<char>
    decreases s.len(),
{
    if s.len() > 0 && is_space_char(s[0]) {
        trim_front_spec(s.drop_first())
    } else {
        s
    }
}

pub open spec fn trim_back_spec(s: Seq<char>) -> Seq<char>
    decreases s.len(),
{
    if s.len() > 0 && is_space_char(s.last()) {
        trim_back_spec(s.drop_last())
    } else {
        s
    }
}

pub open spec fn trim_spec(s: Seq<char>) -> Seq<char> {
    trim_back_spec(trim_front_spec(s))
}

proof fn lemma_trim_front_range(s: Seq<char>, i: int)
    requires
        0 <= i <= s.len(),
        forall|j: int| 0 <= j < i ==> is_space_char(s[j]),
        i < s.len() ==> !is_space_char(s[i]),
    ensures
        trim_front_spec(s) =~= s.subrange(i, s.len() as int),
    decreases i,
{
    if i == 0 {
        if s.len() > 0 {
            assert(!is_space_char(s[0]));
        }
        assert(trim_front_spec(s) == s);
    } else {
        assert(is_space_char(s[0]));
        let t = s.drop_first();
        assert(forall|j: int| 0 <= j < i - 1 ==> is_space_char(t[j]));
        lemma_trim_front_range(t, i - 1);
        assert(t.subrange(i - 1, t.len() as int) =~= s.subrange(i, s.len() as int));
    }
}

proof fn lemma_trim_back_range(s: Seq<char>, i: int)
    requires
        0 <= i <= s.len(),
        forall|j: int| i <= j < s.len() ==> is_space_char(s[j]),
        i > 0 ==> !is_space_char(s[i - 1]),
    ensures
        trim_back_spec(s) =~= s.subrange(0, i),
    decreases s.len() - i,
{
    if i == s.len() {
        if s.len() > 0 {
            assert(!is_space_char(s.last()));
        }
        assert(trim_back_spec(s) == s);
        assert(s.subrange(0, i) =~= s);
    } else {
        assert(is_space_char(s.last()));
        let t = s.drop_last();
        assert(forall|j: int| i <= j < t.len() ==> t[j] == s[j]);
        lemma_trim_back_range(t, i);
    }
}

pub fn trim_spaces(s: &str) -> (r: String)
    ensures
        r@ == trim_spec(s@),
{
    let slen = s.unicode_len();
    let mut start: usize = 0;
    while start < slen && is_space(s.get_char(start))
        invariant
            start <= slen,
            slen == s@.len(),
            forall|j: int| 0 <= j < start ==> is_space_char(s@[j]),
        decreases slen - start,
    {
        start += 1;
    }
    proof {
        lemma_trim_front_range(s@, start as int);
    }
    let mut end: usize = slen;
    while end > start && is_space(s.get_char(end - 1))
        invariant
            start <= end <= slen,
            slen == s@.len(),
            forall|j: int| 0 <= j < start ==> is_space_char(s@[j]),
            start < slen ==> !is_space_char(s@[start as int]),
            forall|j: int| end <= j < slen ==> is_space_char(s@[j]),
        decreases end,
    {
        end -= 1;
    }
    let trimmed = s.substring_char(start, end);
    proof {
        let f = trim_front_spec(s@);
        assert(f =~= s@.subrange(start as int, slen as int));
        assert(forall|j: int|
            (end - start) <= j < f.len() ==> is_space_char(#[trigger] f[j]) && f[j] == s@[j + start]);
        if end > start {
            assert(!is_space_char(f[end - start - 1]));
        }
        lemma_trim_back_range(f, end - start);
        assert(f.subrange(0, end - start) =~= s@.subrange(start as int, end as int));
    }
    String::from_str(trimmed)
}

fn is_space(c: char) -> (r: bool)
    ensures
        r == is_space_char(c),
{
    c == ' ' || c == '\t' || c == '\n' || c == '\r'
}

/// `s` with leading whitespace removed.
pub fn trim_start_spaces(s: &str) -> (r: String)
    ensures
        r@ == trim_front_spec(s@),
{
    let slen = s.unicode_len();
    let mut start: usize = 0;
    while start < slen && is_space(s.get_char(start))
        invariant
            start <= slen,
            slen == s@.len(),
            forall|j: int| 0 <= j < start ==> is_space_char(s@[j]),
        decreases slen - start,
    {
        start += 1;
    }
    proof {
        lemma_trim_front_range(s@, start as int);
    }
    let trimmed = s.substring_char(start, slen);
    String::from_str(trimmed)
}

/// `s` with every occurrence of one character replaced by another.
pub open spec fn replace_char_spec(s: Seq<char>, from: char, to: char) -> Seq<char> {
    s.map_values(|c: char| if c == from { to } else { c })
}

pub fn replace_char(s: &str, from: char, to: char) -> (r: String)
    ensures
        r@ == replace_char_spec(s@, from, to),
{
    let slen = s.unicode_len();
    let mut out = String::new();
    let mut i: usize = 0;
    while i < slen
        invariant
            i <= slen,
            slen == s@.len(),
            out@ == replace_char_spec(s@.subrange(0, i as int), from, to),
        decreases slen - i,
    {
        let c = s.get_char(i);
        let mapped = if c == from {
            to
        } else {
            c
        };
        out.push(mapped);
        proof {
            assert(out@ =~= replace_char_spec(s@.subrange(0, i + 1), from, to));
        }
        i += 1;
    }
    proof {
        assert(s@.subrange(0, slen as int) =~= s@);
    }
    out
}

/// `s` with every trailing `'/'` removed.
pub open spec fn trim_end_slashes_spec(s: Seq<char>) -> Seq<char>
    decreases s.len(),
{
    if s.len() > 0 && s.last() == '/' {
        trim_end_slashes_spec(s.drop_last())
    } else {
        s
    }
}

proof fn lemma_trim_end_slashes_range(s: Seq<char>, i: int)
    requires
        0 <= i <= s.len(),
        forall|j: int| i <= j < s.len() ==> s[j] == '/',
        i > 0 ==> s[i - 1] != '/',
    ensures
        trim_end_slashes_spec(s) =~= s.subrange(0, i),
    decreases s.len() - i,
{
    if i == s.len() {
        if s.len() > 0 {
            assert(s.last() != '/');
        }
        assert(s.subrange(0, i) =~= s);
    } else {
        assert(s.last() == '/');
        let t = s.drop_last();
        assert(forall|j: int| i <= j < t.len() ==> t[j] == s[j]);
        lemma_trim_end_slashes_range(t, i);
    }
}

pub fn trim_end_slashes(s: &str) -> (r: String)
    ensures
        r@ == trim_end_slashes_spec(s@),
{
    let slen = s.unicode_len();
    let mut end: usize = slen;
    while end > 0 && s.get_char(end - 1) == '/'
        invariant
            end <= slen,
            slen == s@.len(),
            forall|j: int| end <= j < slen ==> s@[j] == '/',
        decreases end,
    {
        end -= 1;
    }
    proof {
        lemma_trim_end_slashes_range(s@, end as int);
    }
    let trimmed = s.substring_char(0, end);
    String::from_str(trimmed)
}

/// The views of a sequence of `String`s.
pub open spec fn str_views(v: Seq<String>) -> Seq<Seq<char>> {
    Seq::new(v.len(), |i: int| v[i]@)
}

/// `s` split at every occurrence of `c`; splitting the empty string gives
/// one empty piece.
pub open spec fn split_char_spec(s: Seq<char>, c: char) -> Seq<Seq<char>>
    decreases s.len(),
{
    if s.len() == 0 {
        seq![Seq::empty()]
    } else if s.last() == c {
        split_char_spec(s.drop_last(), c).push(Seq::empty())
    } else {
        let t = split_char_spec(s.drop_last(), c);
        t.update(t.len() - 1, t.last().push(s.last()))
    }
}

pub proof fn lemma_split_char_len(s: Seq<char>, c: char)
    ensures
        split_char_spec(s, c).len() >= 1,
    decreases s.len(),
{
    if s.len() > 0 {
        lemma_split_char_len(s.drop_last(), c);
    }
}

pub fn split_char(s: &str, c: char) -> (r: Vec<String>)
    ensures
        str_views(r@) == split_char_spec(s@, c),
{
    let slen = s.unicode_len();
    let mut out: Vec<String> = Vec::new();
    let mut cur: String = String::new();
    let mut i: usize = 0;
    while i < slen
        invariant
            i <= slen,
            slen == s@.len(),
            str_views(out@).push(cur@) == split_char_spec(s@.subrange(0, i as int), c),
        decreases slen - i,
    {
        let ghost pre = s@.subrange(0, i as int);
        let ghost post = s@.subrange(0, i + 1);
        proof {
            assert(post.drop_last() =~= pre);
            assert(post.last() == s@[i as int]);
            lemma_split_char_len(pre, c);
        }
        let ch = s.get_char(i);
        if ch == c {
            out.push(cur);
            cur = String::new();
            proof {
                assert(str_views(out@).push(cur@) =~= split_char_spec(post, c));
            }
        } else {
            cur.push(ch);
            proof {
                let t = split_char_spec(pre, c);
                assert(split_char_spec(post, c) == t.update(t.len() - 1, t.last().push(s@[i as int])));
                assert(str_views(out@).push(cur@) =~= split_char_spec(post, c));
            }
        }
        i += 1;
    }
    proof {
        assert(s@.subrange(0, slen as int) =~= s@);
    }
    out.push(cur);
    proof {
        assert(str_views(out@) =~= split_char_spec(s@, c));
    }
    out
}

/// The pieces joined with `c` between them.
pub open spec fn join_char_spec(v: Seq<Seq<char>>, c: char) -> Seq<char>
    decreases v.len(),
{
    if v.len() == 0 {
        Seq::empty()
    } else if v.len() == 1 {
        v[0]
    } else {
        join_char_spec(v.drop_last(), c).push(c) + v.last()
    }
}

pub fn join_char(v: &Vec<String>, c: char) -> (r: String)
    ensures
        r@ == join_char_spec(str_views(v@), c),
{
    let mut out = String::new();
    let mut i: usize = 0;
    while i < v.len()
        invariant
            i <= v@.len(),
            out@ == join_char_spec(str_views(v@).subrange(0, i as int), c),
        decreases v@.len() - i,
    {
        let ghost pre = str_views(v@).subrange(0, i as int);
        let ghost post = str_views(v@).subrange(0, i + 1);
        proof {
            assert(post.drop_last() =~= pre);
            assert(post.last() == v@[i as int]@);
        }
        if i > 0 {
            out.push(c);
        }
        let piece: &String = &v[i];
        out.append(piece.as_str());
        proof {
            if i == 0 {
                assert(post.len() == 1);
                assert(out@ =~= join_char_spec(post, c));
            } else {
                assert(out@ =~= join_char_spec(post, c));
            }
        }
        i += 1;
    }
    proof {
        assert(str_views(v@).subrange(0, v@.len() as int) =~= str_views(v@));
    }
    out
}

/// The decimal digit `d` as a character.
pub open spec fn dec_digit_char(d: int) -> char {
    if d == 0 {
        '0'
    } else if d == 1 {
        '1'
    } else if d == 2 {
        '2'
    } else if d == 3 {
        '3'
    } else if d == 4 {
        '4'
    } else if d == 5 {
        '5'
    } else if d == 6 {
        '6'
    } else if d == 7 {
        '7'
    } else if d == 8 {
        '8'
    } else {
        '9'
    }
}

/// The decimal representation of `n >= 0`, without sign or padding.
pub open spec fn dec_str_spec(n: int) -> Seq<char>
    decreases n,
{
    if n < 10 {
        seq![dec_digit_char(n)]
    } else {
        dec_str_spec(n / 10).push(dec_digit_char(n % 10))
    }
}

fn dec_digit(d: u64) -> (r: char)
    requires
        d < 10,
    ensures
        r == dec_digit_char(d as int),
{
    if d == 0 {
        '0'
    } else if d == 1 {
        '1'
    } else if d == 2 {
        '2'
    } else if d == 3 {
        '3'
    } else if d == 4 {
        '4'
    } else if d == 5 {
        '5'
    } else if d == 6 {
        '6'
    } else if d == 7 {
        '7'
    } else if d == 8 {
        '8'
    } else {
        '9'
    }
}

pub fn u64_to_dec(n: u64) -> (r: String)
    ensures
        r@ == dec_str_spec(n as int),
    decreases n,
{
    if n < 10 {
        let mut s = String::new();
        s.push(dec_digit(n));
        proof {
            assert(s@ =~= dec_str_spec(n as int));
        }
        s
    } else {
        let mut s = u64_to_dec(n / 10);
        s.push(dec_digit(n % 10));
        s
    }
}

/// The decimal representation of `n`, with a leading `'-'` when negative.
pub open spec fn int_str_spec(n: int) -> Seq<char> {
    if n < 0 {
        seq!['-'] + dec_str_spec(-n)
    } else {
        dec_str_spec(n)
    }
}

pub fn i64_to_dec(n: i64) -> (r: String)
    ensures
        r@ == int_str_spec(n as int),
{
    if n >= 0 {
        u64_to_dec(n as u64)
    } else {
        let wide: i128 = n as i128;
        let mag: u64 = (-wide) as u64;
        let digits = u64_to_dec(mag);
        let mut s = String::new();
        s.push('-');
        s.append(digits.as_str());
        proof {
            assert(s@ =~= int_str_spec(n as int));
        }
        s
    }
}

/// The decimal representation of `n`, left-padded with zeros to at least
/// three characters.
pub open spec fn padded3_spec(n: int) -> Seq<char> {
    if n >= 100 {
        dec_str_spec(n)
    } else if n >= 10 {
        seq!['0'] + dec_str_spec(n)
    } else {
        seq!['0', '0'] + dec_str_spec(n)
    }
}

pub fn u64_to_dec_pad3(n: u64) -> (r: String)
    ensures
        r@ == padded3_spec(n as int),
{
    let digits = u64_to_dec(n);
    if n >= 100 {
        digits
    } else if n >= 10 {
        let r = concat_str("0", digits.as_str());
        proof {
            reveal_strlit("0");
            assert(r@ =~= padded3_spec(n as int));
        }
        r
    } else {
        let r = concat_str("00", digits.as_str());
        proof {
            reveal_strlit("00");
            assert(r@ =~= padded3_spec(n as int));
        }
        r
    }
}

/// A character that filenames must not contain, replaced by `'_'`.
pub open spec fn sanitize_char_spec(c: char) -> char {
    if c == '/' || c == '\\' || c == ':' || c == '*' || c == '?' || c == '"' || c == '<' || c
        == '>' || c == '|' {
        '_'
    } else {
        c
    }
}

pub open spec fn sanitize_spec(s: Seq<char>) -> Seq<char> {
    s.map_values(|c: char| sanitize_char_spec(c))
}

pub fn sanitize_filename(s: &str) -> (r: String)
    ensures
        r@ == sanitize_spec(s@),
{
    let slen = s.unicode_len();
    let mut out = String::new();
    let mut i: usize = 0;
    while i < slen
        invariant
            i <= slen,
            slen == s@.len(),
            out@ == sanitize_spec(s@.subrange(0, i as int)),
        decreases slen - i,
    {
        let c = s.get_char(i);
        let mapped = if c == '/' || c == '\\' || c == ':' || c == '*' || c == '?' || c == '"' || c
            == '<' || c == '>' || c == '|' {
            '_'
        } else {
            c
        };
        out.push(mapped);
        proof {
            assert(out@ =~= sanitize_spec(s@.subrange(0, i + 1)));
        }
        i += 1;
    }
    proof {
        assert(s@.subrange(0, slen as int) =~= s@);
    }
    out
}

/// `s` with every `'"'` preceded by a backslash.
pub open spec fn escape_quotes_spec(s: Seq<char>) -> Seq<char>
    decreases s.len(),
{
    if s.len() == 0 {
        Seq::empty()
    } else if s.last() == '"' {
        escape_quotes_spec(s.drop_last()) + seq!['\\', '"']
    } else {
        escape_quotes_spec(s.drop_last()).push(s.last())
    }
}

pub fn escape_quotes(s: &str) -> (r: String)
    ensures
        r@ == escape_quotes_spec(s@),
{
    let slen = s.unicode_len();
    let mut out = String::new();
    let mut i: usize = 0;
    while i < slen
        invariant
            i <= slen,
            slen == s@.len(),
            out@ == escape_quotes_spec(s@.subrange(0, i as int)),
        decreases slen - i,
    {
        let ghost pre = s@.subrange(0, i as int);
        let ghost post = s@.subrange(0, i + 1);
        proof {
            assert(post.drop_last() =~= pre);
            assert(post.last() == s@[i as int]);
        }
        let c = s.get_char(i);
        if c == '"' {
            out.push('\\');
            out.push('"');
        } else {
            out.push(c);
        }
        proof {
            assert(out@ =~= escape_quotes_spec(post));
        }
        i += 1;
    }
    proof {
        assert(s@.subrange(0, slen as int) =~= s@);
    }
    out
}

/// A slice of a string vector.
pub fn slice_strings(v: &Vec<String>, a: usize, b: usize) -> (r: Vec<String>)
    requires
        a <= b <= v@.len(),
    ensures
        str_views(r@) == str_views(v@).subrange(a as int, b as int),
{
    let mut out: Vec<String> = Vec::new();
    let mut i: usize = a;
    while i < b
        invariant
            a <= i <= b <= v@.len(),
            str_views(out@) == str_views(v@).subrange(a as int, i as int),
        decreases b - i,
    {
        let ghost old_out = out@;
        let item = v[i].clone();
        proof {
            assert(item@ == v@[i as int]@);
        }
        out.push(item);
        proof {
            let lhs = str_views(out@);
            let rhs = str_views(v@).subrange(a as int, i as int + 1);
            assert(out@ == old_out.push(item));
            assert(str_views(old_out).len() == old_out.len());
            assert(old_out.len() == i - a);
            assert(lhs.len() == i - a + 1);
            assert(rhs.len() == i - a + 1);
            assert forall|k: int| 0 <= k < lhs.len() implies lhs[k] == rhs[k] by {
                assert(0 <= a + k < v@.len());
                assert(lhs[k] == out@[k]@);
                assert(rhs[k] == str_views(v@)[a + k]);
                assert(rhs[k] == v@[a + k]@);
                if k < old_out.len() {
                    assert(out@[k] == old_out[k]);
                    assert(str_views(old_out)[k] == old_out[k]@);
                    assert(str_views(old_out)[k] == str_views(v@).subrange(
                        a as int,
                        i as int,
                    )[k]);
                } else {
                    assert(out@[k] == item);
                }
            }
            assert(lhs =~= rhs);
        }
        i += 1;
    }
    out
}

pub fn rfind_char(s: &str, c: char) -> (r: Option<usize>)
    ensures
        match r {
            Some(i) => i < s@.len() && s@[i as int] == c && forall|j: int|
                i < j < s@.len() ==> s@[j] != c,
            None => !contains_char(s@, c),
        },
{
    let slen = s.unicode_len();
    let mut i: usize = slen;
    while i > 0
        invariant
            i <= slen,
            slen == s@.len(),
            forall|j: int| i <= j < s@.len() ==> s@[j] != c,
        decreases i,
    {
        i -= 1;
        if s.get_char(i) == c {
            return Some(i);
        }
    }
    None
}

} // verus!
