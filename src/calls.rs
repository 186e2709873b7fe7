//! The calls that the library makes into std and into outside crates, each
//! behind a contract that states what the callee documents.
use rand::Rng;
use vstd::prelude::*;

verus! {

/// What `str::trim` leaves of a string.
pub uninterp spec fn trim_of(s: Seq<char>) -> Seq<char>;

/// What `str::to_lowercase` makes of a string.
pub uninterp spec fn lower_of(s: Seq<char>) -> Seq<char>;

/// The 128-bit value that `uuid::Uuid::parse_str` reads from a text, if any.
pub uninterp spec fn uuid_text(s: Seq<char>) -> Option<u128>;

/// What `bcrypt::verify` answers for a password and a stored hash.
pub uninterp spec fn bcrypt_verdict(password: Seq<char>, hash: Seq<char>) -> Option<bool>;

/// The Unix time `secs` seconds after `t`, as chrono computes it, if it is in chrono's range.
pub uninterp spec fn chrono_shifted(t: i64, secs: i64) -> Option<i64>;

/// Relies on `str::trim`: the result depends on the characters alone.
#[verifier::external_body]
pub(crate) fn trim_text(s: &str) -> (r: &str)
    ensures
        r@ == trim_of(s@),
{
    s.trim()
}

/// Relies on `str::to_lowercase`: the result depends on the characters alone.
#[verifier::external_body]
pub(crate) fn lowercase(s: &str) -> (r: String)
    ensures
        r@ == lower_of(s@),
{
    s.to_lowercase()
}

/// Relies on `uuid::Uuid::parse_str` and `Uuid::as_u128`: the value read from the
/// text, or `None` where the text is no UUID.
#[verifier::external_body]
pub(crate) fn parse_uuid(s: &str) -> (r: Option<u128>)
    ensures
        r == uuid_text(s@),
{
    uuid::Uuid::parse_str(s).ok().map(|u| u.as_u128())
}

/// Relies on `bcrypt::verify`: `Some(true)` where the password hashes to the stored
/// hash, `Some(false)` where it does not, `None` where the hash is malformed.
#[verifier::external_body]
pub(crate) fn bcrypt_verify(password: &str, hash: &str) -> (r: Option<bool>)
    ensures
        r == bcrypt_verdict(password@, hash@),
{
    bcrypt::verify(password, hash).ok()
}

/// Relies on `bcrypt::hash` at `bcrypt::DEFAULT_COST`: the salt is random, so only
/// this holds of every outcome: a hash it returns verifies the password it was made of.
#[verifier::external_body]
pub(crate) fn bcrypt_hash(password: &str) -> (r: Option<String>)
    ensures
        r matches Some(h) ==> bcrypt_verdict(password@, h@) == Some(true),
{
    bcrypt::hash(password, bcrypt::DEFAULT_COST).ok()
}

/// Relies on `chrono::DateTime::from_timestamp`, `TimeDelta::try_seconds`,
/// `DateTime::checked_add_signed` and `DateTime::timestamp`: `t + secs` where chrono
/// can represent the instants, `None` elsewhere; `try_seconds` refuses a shift beyond
/// `i64::MAX / 1000` seconds either way.
#[verifier::external_body]
pub(crate) fn shift_time(t: i64, secs: i64) -> (r: Option<i64>)
    ensures
        r == chrono_shifted(t, secs),
        r matches Some(v) ==> v == t + secs,
        (secs > i64::MAX / 1000 || secs < -(i64::MAX / 1000)) ==> r is None,
{
    let start = chrono::DateTime::from_timestamp(t, 0)?;
    let delta = chrono::TimeDelta::try_seconds(secs)?;
    start.checked_add_signed(delta).map(|d| d.timestamp())
}

/// Relies on `rand::Rng::gen_range` over the thread-local generator: a number drawn
/// from the inclusive range `lo..=hi`, which must not be empty.
#[verifier::external_body]
pub(crate) fn draw_between(lo: u32, hi: u32) -> (r: u32)
    requires
        lo <= hi,
    ensures
        lo <= r <= hi,
{
    rand::thread_rng().gen_range(lo..=hi)
}

} // verus!
