//! Identities and account requests: the claims a verified token carries,
//! and the checks applied to registration and login input.

use vstd::prelude::*;
use vstd::string::StrSliceExecFns;
use vstd::utf8::encode_utf8;
use crate::status::{is_white_space, char_is_white_space, str_equal};

verus! {

/// The 128-bit value of the UUID written in `s`, if `s` is one.
pub uninterp spec fn uuid_of(s: Seq<char>) -> Option<u128>;

/// The lowercase form of `s` under Unicode case mapping.
pub uninterp spec fn lower_of(s: Seq<char>) -> Seq<char>;

/// Relies on uuid::Uuid::parse_str, which accepts the simple, hyphenated,
/// braced and URN forms and nothing of any other length (so not the empty
/// text); the value is the UUID read as a big-endian number (Uuid::as_u128).
#[verifier::external_body]
fn parse_uuid(s: &str) -> (r: Option<u128>)
    ensures
        r == uuid_of(s@),
        s@.len() == 0 ==> r is None,
{
    match uuid::Uuid::parse_str(s) {
        Ok(u) => Some(u.as_u128()),
        Err(_) => None,
    }
}

/// Relies on str::to_lowercase: the result depends on the characters alone.
#[verifier::external_body]
pub(crate) fn lowercase(s: &str) -> (r: String)
    ensures
        r@ == lower_of(s@),
{
    s.to_lowercase()
}

/// `s` without its leading white space.
pub open spec fn trim_start(s: Seq<char>) -> Seq<char>
    decreases s.len(),
{
    if s.len() > 0 && is_white_space(s[0]) {
        trim_start(s.drop_first())
    } else {
        s
    }
}

/// `s` without its trailing white space.
pub open spec fn trim_end(s: Seq<char>) -> Seq<char>
    decreases s.len(),
{
    if s.len() > 0 && is_white_space(s.last()) {
        trim_end(s.drop_last())
    } else {
        s
    }
}

/// `s` without leading and trailing white space.
pub open spec fn trimmed(s: Seq<char>) -> Seq<char> {
    trim_end(trim_start(s))
}

/// `s` without leading and trailing white space.
pub fn trim(s: &str) -> (r: String)
    ensures
        r@ == trimmed(s@),
{
    let n = s.unicode_len();
    let mut a: usize = 0;
    proof {
        assert(s@.subrange(0, n as int) == s@);
    }
    while a < n && char_is_white_space(s.get_char(a))
        invariant
            n == s@.len(),
            a <= n,
            trim_start(s@) == trim_start(s@.subrange(a as int, n as int)),
        decreases n - a,
    {
        proof {
            assert(s@.subrange(a + 1, n as int) == s@.subrange(a as int, n as int).drop_first());
        }
        a = a + 1;
    }
    proof {
        assert(trim_start(s@.subrange(a as int, n as int)) == s@.subrange(a as int, n as int));
    }
    let mut b: usize = n;
    while b > a && char_is_white_space(s.get_char(b - 1))
        invariant
            n == s@.len(),
            a <= b <= n,
            trim_end(s@.subrange(a as int, n as int)) == trim_end(s@.subrange(a as int, b as int)),
        decreases b,
    {
        proof {
            assert(s@.subrange(a as int, b - 1) == s@.subrange(a as int, b as int).drop_last());
        }
        b = b - 1;
    }
    proof {
        assert(trim_end(s@.subrange(a as int, b as int)) == s@.subrange(a as int, b as int));
    }
    let t = s.substring_char(a, b);
    String::from_str(t)
}

/// Whether `c` occurs in `s`.
pub fn contains_char(s: &str, c: char) -> (r: bool)
    ensures
        r == s@.contains(c),
{
    let n = s.unicode_len();
    let mut i: usize = 0;
    while i < n
        invariant
            n == s@.len(),
            i <= n,
            forall|k: int| 0 <= k < i ==> s@[k] != c,
        decreases n - i,
    {
        if s.get_char(i) == c {
            assert(s@[i as int] == c);
            return true;
        }
        i = i + 1;
    }
    false
}

/// What a verified access token says about its bearer.
pub struct Claims {
    /// The user's id, as UUID text.
    pub sub: String,
    /// Expiry, in seconds since the Unix epoch.
    pub exp: usize,
    pub role: String,
}

impl Claims {
    /// The user id that the token names, if its subject is a UUID.
    pub fn user_id(&self) -> (r: Option<u128>)
        ensures
            r == uuid_of(self.sub@),
    {
        parse_uuid(self.sub.as_str())
    }

    /// Whether the bearer is an administrator.
    pub fn is_admin(&self) -> (r: bool)
        ensures
            r == (self.role@ == "ADMIN"@),
    {
        str_equal(self.role.as_str(), "ADMIN")
    }
}

/// Why registration or login input was refused.
#[derive(Clone, Copy, Debug, PartialEq, Eq, Structural)]
pub enum AuthError {
    /// Email or password is empty.
    MissingCredentials,
    /// The password has fewer than six bytes.
    PasswordTooShort,
    /// The normalized email has no '@'.
    InvalidEmail,
}

/// Registration or login input.
pub struct AuthRequest {
    pub name: Option<String>,
    pub email: String,
    pub password: String,
}

/// Accepted registration input: the display name and normalized email.
pub struct Registration {
    pub name: String,
    pub email: String,
}

/// The name a new account gets when none is given.
pub open spec fn display_name(name: Option<Seq<char>>) -> Seq<char> {
    match name {
        Some(n) => n,
        None => "User"@,
    }
}

/// Finishes a registration from the already lowercased email: the email
/// is trimmed and must contain '@'.
pub fn registration_from_lowered(name: &Option<String>, lowered_email: &str) -> (r: Result<
    Registration,
    AuthError,
>)
    ensures
        trimmed(lowered_email@).contains('@') ==> r is Ok && r->Ok_0.email@ == trimmed(
            lowered_email@,
        ) && r->Ok_0.name@ == display_name(crate::status::opt_view(*name)),
        !trimmed(lowered_email@).contains('@') ==> r == Err::<Registration, AuthError>(
            AuthError::InvalidEmail,
        ),
{
    let email = trim(lowered_email);
    if !contains_char(email.as_str(), '@') {
        return Err(AuthError::InvalidEmail);
    }
    let name = match name {
        Some(n) => n.clone(),
        None => String::from_str("User"),
    };
    Ok(Registration { name, email })
}

impl AuthRequest {
    /// Checks registration input: email and password present, password of
    /// at least six bytes, and an email that, lowercased and trimmed,
    /// contains '@'.
    pub fn validate_registration(&self) -> (r: Result<Registration, AuthError>)
        ensures
            self.email@.len() == 0 || self.password@.len() == 0 ==> r == Err::<
                Registration,
                AuthError,
            >(AuthError::MissingCredentials),
            self.email@.len() > 0 && self.password@.len() > 0 && encode_utf8(self.password@).len()
                < 6 ==> r == Err::<Registration, AuthError>(AuthError::PasswordTooShort),
            self.email@.len() > 0 && self.password@.len() > 0 && encode_utf8(self.password@).len()
                >= 6 ==> {
                let e = trimmed(lower_of(self.email@));
                &&& e.contains('@') ==> r is Ok && r->Ok_0.email@ == e && r->Ok_0.name@
                    == display_name(crate::status::opt_view(self.name))
                &&& !e.contains('@') ==> r == Err::<Registration, AuthError>(
                    AuthError::InvalidEmail,
                )
            },
    {
        if self.email.as_str().unicode_len() == 0 || self.password.as_str().unicode_len() == 0 {
            return Err(AuthError::MissingCredentials);
        }
        let pw = self.password.as_str();
        let bytes = pw.as_bytes().len();
        if bytes < 6 {
            return Err(AuthError::PasswordTooShort);
        }
        let lowered = lowercase(self.email.as_str());
        registration_from_lowered(&self.name, lowered.as_str())
    }

    /// Checks login input: email and password present. Returns the email
    /// lowercased and trimmed, as accounts are stored.
    pub fn validate_login(&self) -> (r: Result<String, AuthError>)
        ensures
            self.email@.len() == 0 || self.password@.len() == 0 ==> r == Err::<String, AuthError>(
                AuthError::MissingCredentials,
            ),
            self.email@.len() > 0 && self.password@.len() > 0 ==> r is Ok && r->Ok_0@ == trimmed(
                lower_of(self.email@),
            ),
    {
        if self.email.as_str().unicode_len() == 0 || self.password.as_str().unicode_len() == 0 {
            return Err(AuthError::MissingCredentials);
        }
        let lowered = lowercase(self.email.as_str());
        Ok(trim(lowered.as_str()))
    }
}

/// A new user's name and email.
pub struct CreateUser {
    pub name: String,
    pub email: String,
}

/// A buyer's change of display name.
pub struct UpdateProfileRequest {
    pub name: String,
}

} // verus!
