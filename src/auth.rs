//! Admission checks and account logic: shared secrets compared in constant time,
//! registration rules, password hashing and login decisions, token expiry and
//! verification codes.
use crate::calls::{
    bcrypt_hash, bcrypt_verdict, bcrypt_verify, chrono_shifted, draw_between, shift_time,
};
use crate::error::AppError;
use crate::text::{school_email_check, validate_password, validate_school_email};
use vstd::prelude::*;
use vstd::string::StringSliceAdditionalSpecFns;

verus! {

proof fn lemma_bytes_determine_text(a: &str, b: &str)
    requires
        a.spec_bytes() == b.spec_bytes(),
    ensures
        a@ == b@,
{
    vstd::utf8::encode_utf8_decode_utf8(a@);
    vstd::utf8::encode_utf8_decode_utf8(b@);
}

/// Equality of two secrets, in time that depends on their lengths alone.
pub fn secrets_match(a: &str, b: &str) -> (r: bool)
    ensures
        r == (a@ == b@),
{
    let x = a.as_bytes();
    let y = b.as_bytes();
    if x.len() != y.len() {
        return false;
    }
    let mut acc: u8 = 0;
    let mut i: usize = 0;
    while i < x.len()
        invariant
            x@.len() == y@.len(),
            i <= x@.len(),
            (acc == 0) == (forall|j: int| 0 <= j < i ==> x@[j] == y@[j]),
        decreases x@.len() - i,
    {
        let d: u8 = x[i] ^ y[i];
        let next: u8 = acc | d;
        proof {
            let p = x@[i as int];
            let q = y@[i as int];
            assert((p ^ q) == 0u8 <==> p == q) by (bit_vector);
            assert((acc | d) == 0u8 <==> (acc == 0u8 && d == 0u8)) by (bit_vector);
        }
        acc = next;
        i = i + 1;
    }
    proof {
        if acc == 0 {
            assert(x@ =~= y@);
            lemma_bytes_determine_text(a, b);
        }
    }
    acc == 0
}

/// The rule for a shared secret: it must be presented, configured, and equal.
pub open spec fn secret_check(presented: Option<Seq<char>>, expected: Option<Seq<char>>) -> Result<
    (),
    AppError,
> {
    match presented {
        None => Err(AppError::Unauthorized),
        Some(p) => match expected {
            None => Err(AppError::Internal),
            Some(e) => if p == e {
                Ok(())
            } else {
                Err(AppError::Unauthorized)
            },
        },
    }
}

pub open spec fn text_of(s: Option<&str>) -> Option<Seq<char>> {
    match s {
        Some(t) => Some(t@),
        None => None,
    }
}

/// Checks a presented shared secret against the configured one.
pub fn check_shared_secret(presented: Option<&str>, expected: Option<&str>) -> (r: Result<
    (),
    AppError,
>)
    ensures
        r == secret_check(text_of(presented), text_of(expected)),
{
    let p = match presented {
        None => {
            return Err(AppError::Unauthorized);
        },
        Some(p) => p,
    };
    let e = match expected {
        None => {
            return Err(AppError::Internal);
        },
        Some(e) => e,
    };
    if secrets_match(p, e) {
        Ok(())
    } else {
        Err(AppError::Unauthorized)
    }
}

/// Admits an admin operation: `presented` is the authorization header, `expected`
/// the configured admin key.
pub fn validate_admin_key(presented: Option<&str>, expected: Option<&str>) -> (r: Result<
    (),
    AppError,
>)
    ensures
        r == secret_check(text_of(presented), text_of(expected)),
{
    check_shared_secret(presented, expected)
}

/// Admits a bot operation: `presented` is the authorization header, `expected` the
/// configured bot key.
pub fn validate_bot_key(presented: Option<&str>, expected: Option<&str>) -> (r: Result<
    (),
    AppError,
>)
    ensures
        r == secret_check(text_of(presented), text_of(expected)),
{
    check_shared_secret(presented, expected)
}

/// The rules on a registration: a school e-mail address, then a long enough password.
pub fn validate_registration(email: &str, password: &str) -> (r: Result<(), AppError>)
    ensures
        school_email_check(email@) is Err ==> r == school_email_check(email@),
        school_email_check(email@) is Ok ==> (r is Err <==> password.len() < 8),
        r is Err ==> r == school_email_check(email@) || r == Err::<(), AppError>(
            AppError::PasswordTooShort,
        ),
{
    validate_school_email(email)?;
    validate_password(password)
}

/// Hashes a password with a random salt; a hash it returns verifies the password.
pub fn hash_password(password: &str) -> (r: Result<String, AppError>)
    ensures
        r matches Ok(h) ==> bcrypt_verdict(password@, h@) == Some(true),
        r matches Err(e) ==> e == AppError::Internal,
{
    match bcrypt_hash(password) {
        Some(h) => Ok(h),
        None => Err(AppError::Internal),
    }
}

/// Checks a password against a stored hash; a malformed hash is an internal error.
pub fn verify_password(password: &str, hash: &str) -> (r: Result<bool, AppError>)
    ensures
        r == match bcrypt_verdict(password@, hash@) {
            Some(b) => Ok::<bool, AppError>(b),
            None => Err(AppError::Internal),
        },
{
    match bcrypt_verify(password, hash) {
        Some(b) => Ok(b),
        None => Err(AppError::Internal),
    }
}

/// The account a login names, as stored.
#[derive(Debug)]
pub struct LoginAccount {
    pub id: u128,
    pub email: String,
    pub email_verified: bool,
    pub password_hash: String,
}

/// The login rule once the password was checked: a wrong password or malformed hash
/// fails before an unverified address does.
pub open spec fn login_rule(verdict: Option<bool>, email_verified: bool) -> Result<(), AppError> {
    match verdict {
        None => Err(AppError::Internal),
        Some(false) => Err(AppError::InvalidCredentials),
        Some(true) => if email_verified {
            Ok(())
        } else {
            Err(AppError::EmailNotVerified)
        },
    }
}

/// Applies the login rule to the outcome of the password check.
pub fn login_outcome(verdict: Option<bool>, email_verified: bool) -> (r: Result<(), AppError>)
    ensures
        r == login_rule(verdict, email_verified),
{
    match verdict {
        None => Err(AppError::Internal),
        Some(false) => Err(AppError::InvalidCredentials),
        Some(true) => if email_verified {
            Ok(())
        } else {
            Err(AppError::EmailNotVerified)
        },
    }
}

/// Decides a login: the account must exist, the password must match its hash, and
/// its address must be verified. Returns the account's id.
pub fn check_login(account: Option<&LoginAccount>, password: &str) -> (r: Result<u128, AppError>)
    ensures
        r == match account {
            None => Err(AppError::InvalidCredentials),
            Some(a) => match login_rule(
                bcrypt_verdict(password@, a.password_hash@),
                a.email_verified,
            ) {
                Ok(_) => Ok::<u128, AppError>(a.id),
                Err(e) => Err(e),
            },
        },
{
    let a = match account {
        None => {
            return Err(AppError::InvalidCredentials);
        },
        Some(a) => a,
    };
    let verdict = bcrypt_verify(password, a.password_hash.as_str());
    match login_outcome(verdict, a.email_verified) {
        Ok(_) => Ok(a.id),
        Err(e) => Err(e),
    }
}

/// How long a bearer token lives, in seconds.
pub const TOKEN_LIFETIME_SECS: i64 = 86400;

/// The expiry of a token issued at `now`.
pub fn token_expiry(now: i64) -> (r: Result<usize, AppError>)
    ensures
        r == match chrono_shifted(now, TOKEN_LIFETIME_SECS) {
            Some(v) => if 0 <= v <= usize::MAX {
                Ok::<usize, AppError>(v as usize)
            } else {
                Err(AppError::Internal)
            },
            None => Err(AppError::Internal),
        },
{
    match shift_time(now, TOKEN_LIFETIME_SECS) {
        Some(v) => if v >= 0 && (v as u64) <= (usize::MAX as u64) {
            Ok(v as usize)
        } else {
            Err(AppError::Internal)
        },
        None => Err(AppError::Internal),
    }
}

/// The character of a decimal digit.
pub open spec fn digit_char(d: int) -> char {
    if d == 0 {
        '0'
    } else if d == 1 {
        '1'
    } else if d == 2 {
        '2'
    } else if d == 3 {
        '3'
    } else if d == 4 {
        '4'
    } else if d == 5 {
        '5'
    } else if d == 6 {
        '6'
    } else if d == 7 {
        '7'
    } else if d == 8 {
        '8'
    } else {
        '9'
    }
}

/// The six decimal digits of `n`, zero-padded.
pub open spec fn six_digits(n: int) -> Seq<char> {
    seq![
        digit_char((n / 100000) % 10),
        digit_char((n / 10000) % 10),
        digit_char((n / 1000) % 10),
        digit_char((n / 100) % 10),
        digit_char((n / 10) % 10),
        digit_char(n % 10),
    ]
}

fn digit_text(d: u32) -> (r: &'static str)
    requires
        d < 10,
    ensures
        r@ == seq![digit_char(d as int)],
{
    proof {
        reveal_strlit("0");
        reveal_strlit("1");
        reveal_strlit("2");
        reveal_strlit("3");
        reveal_strlit("4");
        reveal_strlit("5");
        reveal_strlit("6");
        reveal_strlit("7");
        reveal_strlit("8");
        reveal_strlit("9");
    }
    let r = if d == 0 {
        "0"
    } else if d == 1 {
        "1"
    } else if d == 2 {
        "2"
    } else if d == 3 {
        "3"
    } else if d == 4 {
        "4"
    } else if d == 5 {
        "5"
    } else if d == 6 {
        "6"
    } else if d == 7 {
        "7"
    } else if d == 8 {
        "8"
    } else {
        "9"
    };
    assert(r@ =~= seq![digit_char(d as int)]);
    r
}

/// Writes `n` as six decimal digits.
pub fn format_six_digits(n: u32) -> (r: String)
    requires
        n < 1000000,
    ensures
        r@ == six_digits(n as int),
{
    let mut s = String::new();
    s.append(digit_text((n / 100000) % 10));
    s.append(digit_text((n / 10000) % 10));
    s.append(digit_text((n / 1000) % 10));
    s.append(digit_text((n / 100) % 10));
    s.append(digit_text((n / 10) % 10));
    s.append(digit_text(n % 10));
    assert(s@ =~= six_digits(n as int));
    s
}

/// A fresh six-digit e-mail verification code, drawn at random.
pub fn generate_verification_code() -> (r: String)
    ensures
        exists|n: int| 100000 <= n <= 999999 && r@ == six_digits(n),
{
    let n = draw_between(100000, 999999);
    format_six_digits(n)
}

} // verus!
