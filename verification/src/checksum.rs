//! Content checksums.  A document's body is digested with SHA-256 and
//! rendered as `"sha256:" + lowercase-hex`; two contents count as identical
//! exactly when their checksum strings are equal.

use vstd::prelude::*;
use vstd::string::StringExecFns;
use crate::text;

use sha2::Digest;

verus! {

/// The SHA-256 digest of a text, as 32 bytes.  Named only: the digest is a
/// pure function of the content, computed by the sha2 crate.
pub uninterp spec fn sha256_of(s: Seq<char>) -> Seq<u8>;

/// Relies on sha2's `Sha256` (`Digest::new` / `update` / `finalize`): the
/// digest depends on the input bytes alone and is 32 bytes long.
#[verifier::external_body]
fn sha256_digest(content: &str) -> (r: Vec<u8>)
    ensures
        r@ == sha256_of(content@),
        r@.len() == 32,
{
    let mut hasher = sha2::Sha256::new();
    hasher.update(content.as_bytes());
    hasher.finalize().to_vec()
}

/// The lowercase hexadecimal digit for `d < 16`.
pub open spec fn hex_digit_char(d: int) -> char {
    if d < 10 {
        text::dec_digit_char(d)
    } else if d == 10 {
        'a'
    } else if d == 11 {
        'b'
    } else if d == 12 {
        'c'
    } else if d == 13 {
        'd'
    } else if d == 14 {
        'e'
    } else {
        'f'
    }
}

/// Each byte as two lowercase hexadecimal digits.
pub open spec fn hex_str_spec(bytes: Seq<u8>) -> Seq<char>
    decreases bytes.len(),
{
    if bytes.len() == 0 {
        Seq::empty()
    } else {
        hex_str_spec(bytes.drop_last()) + seq![
            hex_digit_char(bytes.last() as int / 16),
            hex_digit_char(bytes.last() as int % 16),
        ]
    }
}

fn hex_digit(d: u8) -> (r: char)
    requires
        d < 16,
    ensures
        r == hex_digit_char(d as int),
{
    if d == 0 {
        '0'
    } else if d == 1 {
        '1'
    } else if d == 2 {
        '2'
    } else if d == 3 {
        '3'
    } else if d == 4 {
        '4'
    } else if d == 5 {
        '5'
    } else if d == 6 {
        '6'
    } else if d == 7 {
        '7'
    } else if d == 8 {
        '8'
    } else if d == 9 {
        '9'
    } else if d == 10 {
        'a'
    } else if d == 11 {
        'b'
    } else if d == 12 {
        'c'
    } else if d == 13 {
        'd'
    } else if d == 14 {
        'e'
    } else {
        'f'
    }
}

pub fn to_hex(bytes: &Vec<u8>) -> (r: String)
    ensures
        r@ == hex_str_spec(bytes@),
{
    let mut out = String::new();
    let mut i: usize = 0;
    while i < bytes.len()
        invariant
            i <= bytes@.len(),
            out@ == hex_str_spec(bytes@.subrange(0, i as int)),
        decreases bytes@.len() - i,
    {
        let ghost pre = bytes@.subrange(0, i as int);
        let ghost post = bytes@.subrange(0, i + 1);
        proof {
            assert(post.drop_last() =~= pre);
            assert(post.last() == bytes@[i as int]);
        }
        let b = bytes[i];
        out.push(hex_digit(b / 16));
        out.push(hex_digit(b % 16));
        proof {
            assert(out@ =~= hex_str_spec(post));
        }
        i += 1;
    }
    proof {
        assert(bytes@.subrange(0, bytes@.len() as int) =~= bytes@);
    }
    out
}

/// The checksum scheme tag that every checksum string carries.
pub open spec fn checksum_prefix() -> Seq<char> {
    seq!['s', 'h', 'a', '2', '5', '6', ':']
}

/// The checksum string of a content: the tag followed by the digest in hex.
pub open spec fn checksum_of(s: Seq<char>) -> Seq<char> {
    checksum_prefix() + hex_str_spec(sha256_of(s))
}

/// Digest a document body into its checksum string.
pub fn calculate_checksum(content: &str) -> (r: String)
    ensures
        r@ == checksum_of(content@),
{
    let digest = sha256_digest(content);
    let hex = to_hex(&digest);
    let r = text::concat_str("sha256:", hex.as_str());
    proof {
        reveal_strlit("sha256:");
        assert(r@ =~= checksum_of(content@));
    }
    r
}

/// Ensure a checksum string carries the scheme tag, adding it when absent.
pub fn normalize_checksum(checksum: &str) -> (r: String)
    ensures
        r@ == if text::has_prefix(checksum@, checksum_prefix()) {
            checksum@
        } else {
            checksum_prefix() + checksum@
        },
{
    proof {
        reveal_strlit("sha256:");
        assert("sha256:"@ =~= checksum_prefix());
    }
    if text::starts_with(checksum, "sha256:") {
        String::from_str(checksum)
    } else {
        let r = text::concat_str("sha256:", checksum);
        proof {
            assert(r@ =~= checksum_prefix() + checksum@);
        }
        r
    }
}

/// Whether an observed file content matches an expected checksum.  A file
/// that could not be observed (`None`) never matches.
pub fn verify_checksum(content: &Option<String>, expected_checksum: &str) -> (r: bool)
    ensures
        r == match content {
            Some(c) => checksum_of(c@) == expected_checksum@,
            None => false,
        },
{
    match content {
        Some(c) => {
            let actual = calculate_checksum(c.as_str());
            text::str_eq(actual.as_str(), expected_checksum)
        },
        None => false,
    }
}

/// Computing the checksum of the same content twice gives the same string:
/// change detection by checksum comparison is deterministic.
pub proof fn lemma_checksum_deterministic(c1: Seq<char>, c2: Seq<char>)
    requires
        c1 == c2,
    ensures
        checksum_of(c1) == checksum_of(c2),
{
}

/// A two-decimal rendering of `bytes / div`, rounded to the nearest
/// hundredth (half away from zero), as the digits before the point, the
/// point, and two fractional digits.
pub open spec fn two_dec_spec(bytes: int, div: int) -> Seq<char> {
    let whole = bytes / div;
    let frac = (bytes % div * 100 + div / 2) / div;
    let w = if frac >= 100 {
        whole + 1
    } else {
        whole
    };
    let f = if frac >= 100 {
        0
    } else {
        frac
    };
    text::dec_str_spec(w) + seq!['.'] + (if f >= 10 {
        text::dec_str_spec(f)
    } else {
        seq!['0'] + text::dec_str_spec(f)
    })
}

/// A byte count in human-readable form: two decimals of the largest binary
/// unit that fits, or plain bytes under 1024.
pub open spec fn format_size_spec(bytes: int) -> Seq<char> {
    if bytes >= 0x40000000 {
        two_dec_spec(bytes, 0x40000000) + seq![' ', 'G', 'B']
    } else if bytes >= 0x100000 {
        two_dec_spec(bytes, 0x100000) + seq![' ', 'M', 'B']
    } else if bytes >= 0x400 {
        two_dec_spec(bytes, 0x400) + seq![' ', 'K', 'B']
    } else {
        text::dec_str_spec(bytes) + seq![' ', 'B']
    }
}

fn two_dec(bytes: u64, div: u64) -> (r: String)
    requires
        div == 0x400 || div == 0x100000 || div == 0x40000000,
    ensures
        r@ == two_dec_spec(bytes as int, div as int),
{
    let whole = bytes / div;
    let rem = bytes % div;
    let frac = (rem * 100 + div / 2) / div;
    proof {
        assert(whole < 0xffff_ffff_ffff_ffffu64) by (nonlinear_arith)
            requires
                whole == bytes / div,
                div >= 0x400,
                bytes <= 0xffff_ffff_ffff_ffffu64,
        ;
    }
    let (w, f) = if frac >= 100 {
        (whole + 1, 0u64)
    } else {
        (whole, frac)
    };
    let whole_str = text::u64_to_dec(w);
    let frac_str = text::u64_to_dec(f);
    let mut out = whole_str;
    out.push('.');
    if f < 10 {
        out.push('0');
    }
    out.append(frac_str.as_str());
    proof {
        assert(out@ =~= two_dec_spec(bytes as int, div as int));
    }
    out
}

/// Format a file size for display.
pub fn format_size(bytes: u64) -> (r: String)
    ensures
        r@ == format_size_spec(bytes as int),
{
    if bytes >= 0x40000000 {
        let mut out = two_dec(bytes, 0x40000000);
        out.push(' ');
        out.push('G');
        out.push('B');
        proof {
            assert(out@ =~= format_size_spec(bytes as int));
        }
        out
    } else if bytes >= 0x100000 {
        let mut out = two_dec(bytes, 0x100000);
        out.push(' ');
        out.push('M');
        out.push('B');
        proof {
            assert(out@ =~= format_size_spec(bytes as int));
        }
        out
    } else if bytes >= 0x400 {
        let mut out = two_dec(bytes, 0x400);
        out.push(' ');
        out.push('K');
        out.push('B');
        proof {
            assert(out@ =~= format_size_spec(bytes as int));
        }
        out
    } else {
        let mut out = text::u64_to_dec(bytes);
        out.push(' ');
        out.push('B');
        proof {
            assert(out@ =~= format_size_spec(bytes as int));
        }
        out
    }
}

} // verus!
