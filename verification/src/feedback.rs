//! Feedback submissions: validating the target identifiers and the
//! message before anything is sent.

use vstd::prelude::*;
use vstd::string::StrSliceExecFns;
use crate::text;

verus! {

/// A rejected feedback submission.
#[derive(PartialEq, Eq, Structural, Clone, Copy, Debug)]
pub enum ValidationError {
    /// A target is not a well-formed uuid.
    InvalidUuid,
    /// No target was named.
    EmptyTargets,
    /// More targets than one submission may carry.
    TooManyTargets,
    /// The message is empty once trimmed.
    EmptyMessage,
    /// The message exceeds the length limit.
    MessageTooLong,
}

/// The characters a uuid's hexadecimal positions may hold.
pub open spec fn hex_charset() -> Seq<char> {
    "0123456789abcdefABCDEF"@
}

fn is_hex_digit(c: char) -> (r: bool)
    ensures
        r == text::contains_char(hex_charset(), c),
{
    text::find_char("0123456789abcdefABCDEF", c).is_some()
}

/// The canonical uuid shape: thirty-six characters, hyphens at the four
/// fixed positions, hexadecimal digits everywhere else.
pub open spec fn is_uuid_format(s: Seq<char>) -> bool {
    s.len() == 36 && forall|i: int|
        0 <= i < 36 ==> (if i == 8 || i == 13 || i == 18 || i == 23 {
            s[i] == '-'
        } else {
            text::contains_char(hex_charset(), #[trigger] s[i])
        })
}

/// Check one target identifier against the uuid shape.
pub fn validate_uuid_format(s: &str) -> (r: bool)
    ensures
        r == is_uuid_format(s@),
{
    let n = s.unicode_len();
    if n != 36 {
        return false;
    }
    let mut i: usize = 0;
    while i < 36
        invariant
            i <= 36,
            s@.len() == 36,
            forall|j: int|
                0 <= j < i ==> (if j == 8 || j == 13 || j == 18 || j == 23 {
                    s@[j] == '-'
                } else {
                    text::contains_char(hex_charset(), #[trigger] s@[j])
                }),
        decreases 36 - i,
    {
        let c = s.get_char(i);
        if i == 8 || i == 13 || i == 18 || i == 23 {
            if c != '-' {
                return false;
            }
        } else {
            if !is_hex_digit(c) {
                return false;
            }
        }
        i += 1;
    }
    true
}

/// Whether some target in the list is not a well-formed uuid.
pub open spec fn some_target_invalid(ts: Seq<String>) -> bool {
    exists|i: int| 0 <= i < ts.len() && !is_uuid_format(ts[i]@)
}

/// The message length limit, in bytes of the trimmed message.
pub open spec fn message_limit() -> int {
    2000
}

/// The outcome feedback validation owes for given targets and message.
/// Checked in order: every target must be a well-formed uuid, at least
/// one and at most ten targets must be named, and the trimmed message
/// must be non-empty and within the length limit.
pub open spec fn validate_inputs_spec(ts: Seq<String>, msg: Seq<char>) -> Result<
    (),
    ValidationError,
> {
    if some_target_invalid(ts) {
        Err(ValidationError::InvalidUuid)
    } else if ts.len() == 0 {
        Err(ValidationError::EmptyTargets)
    } else if ts.len() > 10 {
        Err(ValidationError::TooManyTargets)
    } else if text::trim_spec(msg).len() == 0 {
        Err(ValidationError::EmptyMessage)
    } else if vstd::utf8::encode_utf8(text::trim_spec(msg)).len() > message_limit() {
        Err(ValidationError::MessageTooLong)
    } else {
        Ok(())
    }
}

/// Validate a feedback submission's inputs.
pub fn validate_inputs(targets: &Vec<String>, message: &str) -> (r: Result<(), ValidationError>)
    ensures
        r == validate_inputs_spec(targets@, message@),
{
    let n = targets.len();
    let mut i: usize = 0;
    while i < n
        invariant
            i <= n,
            n == targets@.len(),
            forall|j: int| 0 <= j < i ==> is_uuid_format(#[trigger] targets@[j]@),
        decreases n - i,
    {
        if !validate_uuid_format(targets[i].as_str()) {
            proof {
                assert(some_target_invalid(targets@));
            }
            return Err(ValidationError::InvalidUuid);
        }
        i += 1;
    }
    proof {
        assert(!some_target_invalid(targets@));
    }
    if n == 0 {
        return Err(ValidationError::EmptyTargets);
    }
    if n > 10 {
        return Err(ValidationError::TooManyTargets);
    }
    let trimmed = text::trim_spaces(message);
    if trimmed.as_str().is_empty() {
        return Err(ValidationError::EmptyMessage);
    }
    let bytes = trimmed.as_str().as_bytes();
    proof {
        vstd::slice::axiom_spec_len(bytes);
    }
    if bytes.len() > 2000 {
        return Err(ValidationError::MessageTooLong);
    }
    Ok(())
}

} // verus!
