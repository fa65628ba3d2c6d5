//! The rule a new vault password must meet.

use vstd::prelude::*;

use crate::text::chars_of;
use vstd::string::StringExecFns;
use vstd::utf8::encode_utf8;

verus! {

/// The shortest accepted password, in bytes.
pub const MIN_PASSWORD_LEN: usize = 8;

/// Whether `char::is_uppercase` holds of `c` (the Unicode `Uppercase`
/// property).
pub uninterp spec fn unicode_uppercase(c: char) -> bool;

/// Whether `char::is_lowercase` holds of `c` (the Unicode `Lowercase`
/// property).
pub uninterp spec fn unicode_lowercase(c: char) -> bool;

/// Whether `char::is_alphanumeric` holds of `c` (alphabetic or numeric in
/// Unicode).
pub uninterp spec fn unicode_alphanumeric(c: char) -> bool;

/// `char::is_uppercase`. Claimed of std: the result depends on `c` alone
/// (it is the Unicode `Uppercase` property).
#[verifier::external_body]
fn is_uppercase(c: char) -> (b: bool)
    ensures
        b == unicode_uppercase(c),
{
    c.is_uppercase()
}

/// `char::is_lowercase`. Claimed of std: the result depends on `c` alone
/// (it is the Unicode `Lowercase` property).
#[verifier::external_body]
fn is_lowercase(c: char) -> (b: bool)
    ensures
        b == unicode_lowercase(c),
{
    c.is_lowercase()
}

/// `char::is_alphanumeric`. Claimed of std: the result depends on `c` alone
/// (alphabetic or numeric in Unicode).
#[verifier::external_body]
fn is_alphanumeric(c: char) -> (b: bool)
    ensures
        b == unicode_alphanumeric(c),
{
    c.is_alphanumeric()
}

/// Whether a new password is strong enough: at least 8 bytes long, with an
/// uppercase letter, a lowercase letter, an ASCII digit and a character that
/// is neither a letter nor a digit.
pub open spec fn password_ok_spec(p: Seq<char>) -> bool {
    &&& encode_utf8(p).len() >= MIN_PASSWORD_LEN
    &&& exists|i: int| 0 <= i < p.len() && unicode_uppercase(#[trigger] p[i])
    &&& exists|i: int| 0 <= i < p.len() && unicode_lowercase(#[trigger] p[i])
    &&& exists|i: int| 0 <= i < p.len() && '0' <= #[trigger] p[i] <= '9'
    &&& exists|i: int| 0 <= i < p.len() && !unicode_alphanumeric(#[trigger] p[i])
}

/// A password is refused when it is shorter than 8 bytes, or when it has
/// no uppercase letter, no lowercase letter, no ASCII digit, or no
/// character that is neither a letter nor a digit; a password of letters
/// and digits only is refused whatever else it has.
pub proof fn lemma_password_rules(p: Seq<char>)
    ensures
        encode_utf8(p).len() < 8 ==> !password_ok_spec(p),
        (forall|i: int| 0 <= i < p.len() ==> !unicode_uppercase(#[trigger] p[i])) ==> !password_ok_spec(p),
        (forall|i: int| 0 <= i < p.len() ==> !unicode_lowercase(#[trigger] p[i])) ==> !password_ok_spec(p),
        (forall|i: int| 0 <= i < p.len() ==> !('0' <= #[trigger] p[i] <= '9')) ==> !password_ok_spec(p),
        (forall|i: int| 0 <= i < p.len() ==> unicode_alphanumeric(#[trigger] p[i])) ==> !password_ok_spec(p),
{
}

/// Whether a new password is strong enough.
pub fn is_valid_initial_password(password: &str) -> (b: bool)
    ensures
        b == password_ok_spec(password@),
{
    let long_enough = password.as_bytes().len() >= MIN_PASSWORD_LEN;
    let cs = chars_of(password);
    let n = cs.len();
    let mut upper = false;
    let mut lower = false;
    let mut digit = false;
    let mut special = false;
    let mut i: usize = 0;
    while i < n
        invariant
            n == cs@.len(),
            cs@ == password@,
            i <= n,
            upper == exists|k: int| 0 <= k < i && unicode_uppercase(#[trigger] cs@[k]),
            lower == exists|k: int| 0 <= k < i && unicode_lowercase(#[trigger] cs@[k]),
            digit == exists|k: int| 0 <= k < i && '0' <= #[trigger] cs@[k] <= '9',
            special == exists|k: int| 0 <= k < i && !unicode_alphanumeric(#[trigger] cs@[k]),
        decreases n - i,
    {
        let c = cs[i];
        upper = upper || is_uppercase(c);
        lower = lower || is_lowercase(c);
        digit = digit || ('0' <= c && c <= '9');
        special = special || !is_alphanumeric(c);
        i = i + 1;
    }
    long_enough && upper && lower && digit && special
}

/// What a password that is not strong enough is told.
pub fn password_rule_message() -> (s: String)
    ensures
        s@ == "Password must contain at least 8 characters, 1 uppercase letter, 1 lowercase letter, 1 number, and 1 special character"@,
{
    String::from_str(
        "Password must contain at least 8 characters, 1 uppercase letter, 1 lowercase letter, 1 number, and 1 special character",
    )
}

} // verus!
