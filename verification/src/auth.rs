//! Authentication data and login-session helpers.  The token exchange
//! itself is transport work and stays outside the library; these are the
//! records it produces and the pure pieces around it.

use vstd::prelude::*;
use vstd::string::StrSliceExecFns;
use crate::text;

verus! {

/// A saved credential for one server.
pub struct AuthConfig {
    pub access_token: String,
    pub token_type: String,
    pub expires_at: String,
    pub user_id: i64,
    pub user_name: String,
    pub user_email: String,
}

impl Clone for AuthConfig {
    fn clone(&self) -> (r: Self)
        ensures
            r == *self,
    {
        AuthConfig {
            access_token: self.access_token.clone(),
            token_type: self.token_type.clone(),
            expires_at: self.expires_at.clone(),
            user_id: self.user_id,
            user_name: self.user_name.clone(),
            user_email: self.user_email.clone(),
        }
    }
}

/// One poll of the login endpoint.
pub struct PollResponse {
    pub status: i32,
    pub error: Option<String>,
    pub error_msg: Option<String>,
    pub data: Option<PollData>,
    pub auth: Option<AuthData>,
}

pub struct PollData {
    pub status: String,
    pub message: Option<String>,
}

pub struct AuthData {
    pub status: String,
    pub access_token: Option<String>,
    pub token_type: Option<String>,
    pub expires_at: Option<String>,
    pub user: Option<User>,
}

pub struct User {
    pub id: i64,
    pub account: String,
    pub display_name: String,
    pub email: String,
}

pub struct TokenResponse {
    pub access_token: String,
    pub token_type: String,
    pub expires_in: i64,
    pub expires_at: String,
    pub message: Option<String>,
}

pub struct VerifyResponse {
    pub valid: bool,
    pub user: Option<User>,
    pub expires_at: Option<String>,
}

/// Relies on rand's `random_range` over `0..bound`: the drawn value lies in
/// the range.  Nothing else can be promised of a random draw.
#[verifier::external_body]
fn random_below(bound: usize) -> (r: usize)
    requires
        bound > 0,
    ensures
        r < bound,
{
    rand::random_range(0..bound)
}

/// The alphabet that login identifiers draw from.
pub open spec fn login_charset() -> Seq<char> {
    "abcdefghijklmnopqrstuvwxyz0123456789"@
}

/// Generate a random login identifier: 32 characters, each a lowercase
/// letter or digit.
pub fn generate_login_id() -> (r: String)
    ensures
        r@.len() == 32,
        forall|i: int| 0 <= i < 32 ==> text::contains_char(login_charset(), #[trigger] r@[i]),
{
    let charset = "abcdefghijklmnopqrstuvwxyz0123456789";
    proof {
        reveal_strlit("abcdefghijklmnopqrstuvwxyz0123456789");
    }
    let mut out = String::new();
    let mut i: usize = 0;
    while i < 32
        invariant
            i <= 32,
            charset@ == login_charset(),
            charset@.len() == 36,
            out@.len() == i,
            forall|j: int| 0 <= j < i ==> text::contains_char(login_charset(), #[trigger] out@[j]),
        decreases 32 - i,
    {
        let idx = random_below(36);
        let c = charset.get_char(idx);
        proof {
            assert(text::contains_char(login_charset(), charset@[idx as int]));
        }
        out.push(c);
        i += 1;
    }
    out
}

} // verus!
