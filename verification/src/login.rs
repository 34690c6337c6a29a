//! The credentials that come with a request: checking their shape and wiping
//! them after use.

use vstd::prelude::*;
use vstd::string::*;

verus! {

/// Greatest number of characters of an e-mail address.
pub const MAX_EMAIL_CHARS: usize = 254;

/// Greatest number of characters of a password.
pub const MAX_PASSWORD_CHARS: usize = 128;

/// Whether `validator` accepts `s` as an e-mail address.
pub uninterp spec fn email_accepted(s: Seq<char>) -> bool;

/// Calls `validator::ValidateEmail::validate_email` on `s`. A string without
/// an `@` is never accepted.
#[verifier::external_body]
fn validate_email(s: &str) -> (r: bool)
    ensures
        r == email_accepted(s@),
        !s@.contains('@') ==> !r,
{
    validator::ValidateEmail::validate_email(&s)
}

/// Calls `zeroize::Zeroize::zeroize` on `s`: its bytes are overwritten with
/// zeros and the string is left empty.
#[verifier::external_body]
fn wipe(s: &mut String)
    ensures
        final(s)@ == Seq::<char>::empty(),
{
    zeroize::Zeroize::zeroize(s);
}

/// The credentials of one request.
pub struct LoginRequest {
    pub email: String,
    pub password: String,
}

/// Which fields of a [`LoginRequest`] are malformed.
#[derive(Clone, Copy, Debug, PartialEq, Eq, Structural)]
pub struct ValidationError {
    pub email: bool,
    pub password: bool,
}

/// Whether `email` is well-formed: an accepted address of at most
/// [`MAX_EMAIL_CHARS`] characters.
pub open spec fn email_ok(email: Seq<char>) -> bool {
    email_accepted(email) && email.len() <= MAX_EMAIL_CHARS
}

/// Whether `password` is well-formed: between one and [`MAX_PASSWORD_CHARS`]
/// characters.
pub open spec fn password_ok(password: Seq<char>) -> bool {
    1 <= password.len() <= MAX_PASSWORD_CHARS
}

/// Whether both fields are well-formed.
pub open spec fn well_formed(email: Seq<char>, password: Seq<char>) -> bool {
    email_ok(email) && password_ok(password)
}

impl LoginRequest {
    /// Checks the shape of both fields. On failure the error marks exactly the
    /// malformed ones.
    pub fn validate(&self) -> (r: Result<(), ValidationError>)
        ensures
            match r {
                Ok(_) => well_formed(self.email@, self.password@),
                Err(e) => !well_formed(self.email@, self.password@) && e.email == !email_ok(
                    self.email@,
                ) && e.password == !password_ok(self.password@),
            },
    {
        let email_good = validate_email(self.email.as_str()) && self.email.as_str().unicode_len()
            <= MAX_EMAIL_CHARS;
        let n = self.password.as_str().unicode_len();
        let password_good = 1 <= n && n <= MAX_PASSWORD_CHARS;
        if email_good && password_good {
            Ok(())
        } else {
            Err(ValidationError { email: !email_good, password: !password_good })
        }
    }

    /// Overwrites both fields and leaves them empty.
    pub fn zeroize(&mut self)
        ensures
            final(self).email@ == Seq::<char>::empty(),
            final(self).password@ == Seq::<char>::empty(),
    {
        wipe(&mut self.email);
        wipe(&mut self.password);
    }
}

} // verus!
