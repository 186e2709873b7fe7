//! Checks and conversions on text: blank fields, e-mail and password rules,
//! status and sport names, shared secrets, verification codes.
use crate::calls::{lower_of, lowercase, trim_of, trim_text};
use crate::error::AppError;
use crate::models::game::SportType;
use crate::models::ticket::TicketStatus;
use vstd::prelude::*;

verus! {

/// Equality of two texts.
pub fn same_text(a: &str, b: &str) -> (r: bool)
    ensures
        r == (a@ == b@),
{
    let x = String::from_str(a);
    let y = String::from_str(b);
    x == y
}

/// A text holds nothing but white space.
pub fn is_blank(s: &str) -> (r: bool)
    ensures
        r == (trim_of(s@).len() == 0),
{
    trim_text(s).is_empty()
}

/// The number of times `c` occurs in `s`.
pub open spec fn occurrences(s: Seq<char>, c: char) -> nat
    decreases s.len(),
{
    if s.len() == 0 {
        0
    } else {
        occurrences(s.drop_last(), c) + if s.last() == c { 1nat } else { 0nat }
    }
}

/// `s` ends with `suffix`.
pub open spec fn ends_with(s: Seq<char>, suffix: Seq<char>) -> bool {
    suffix.len() <= s.len() && s.subrange(s.len() - suffix.len(), s.len() as int) == suffix
}

/// The outcome of the school e-mail rule: exactly one `@`, and the part after it
/// ends with `msu.edu`.
pub open spec fn school_email_check(s: Seq<char>) -> Result<(), AppError> {
    if occurrences(s, '@') != 1 {
        Err(AppError::InvalidEmail)
    } else {
        let p = choose|p: int| 0 <= p < s.len() && s[p] == '@';
        if ends_with(s.subrange(p + 1, s.len() as int), "msu.edu"@) {
            Ok(())
        } else {
            Err(AppError::NotSchoolEmail)
        }
    }
}

proof fn lemma_occurrences_step(s: Seq<char>, c: char, i: int)
    requires
        0 <= i < s.len(),
    ensures
        occurrences(s.subrange(0, i + 1), c) == occurrences(s.subrange(0, i), c) + if s[i] == c {
            1nat
        } else {
            0nat
        },
{
    assert(s.subrange(0, i + 1).drop_last() =~= s.subrange(0, i));
}

proof fn lemma_single_occurrence(s: Seq<char>, c: char, p: int, q: int)
    requires
        occurrences(s, c) == 1,
        0 <= p < s.len(),
        0 <= q < s.len(),
        s[p] == c,
        s[q] == c,
    ensures
        p == q,
    decreases s.len(),
{
    let n = s.len() - 1;
    if p != q {
        let other = if p < n { p } else { q };
        assert(s.drop_last()[other] == c);
        lemma_occurrence_positive(s.drop_last(), c, other);
        if s.last() != c {
            assert(p < n && q < n);
            assert(s.drop_last()[p] == c);
            assert(s.drop_last()[q] == c);
            lemma_single_occurrence(s.drop_last(), c, p, q);
        }
    }
}

proof fn lemma_occurrence_positive(s: Seq<char>, c: char, p: int)
    requires
        0 <= p < s.len(),
        s[p] == c,
    ensures
        occurrences(s, c) >= 1,
    decreases s.len(),
{
    if p < s.len() - 1 {
        assert(s.drop_last()[p] == c);
        lemma_occurrence_positive(s.drop_last(), c, p);
    }
}

/// Accepts an address with exactly one `@` whose domain ends with `msu.edu`.
pub fn validate_school_email(email: &str) -> (r: Result<(), AppError>)
    ensures
        r == school_email_check(email@),
{
    let n = email.unicode_len();
    let mut count: usize = 0;
    let mut at: usize = 0;
    let mut i: usize = 0;
    while i < n
        invariant
            n == email@.len(),
            i <= n,
            count == occurrences(email@.subrange(0, i as int), '@'),
            count <= i,
            count > 0 ==> at < i && email@[at as int] == '@',
        decreases n - i,
    {
        proof {
            lemma_occurrences_step(email@, '@', i as int);
        }
        if email.get_char(i) == '@' {
            count = count + 1;
            at = i;
        }
        i = i + 1;
    }
    assert(email@.subrange(0, n as int) =~= email@);
    if count != 1 {
        return Err(AppError::InvalidEmail);
    }
    let ghost s = email@;
    proof {
        let p = choose|p: int| 0 <= p < s.len() && s[p] == '@';
        lemma_single_occurrence(s, '@', p, at as int);
        reveal_strlit("msu.edu");
    }
    let suffix = "msu.edu";
    let k = suffix.unicode_len();
    assert(k == 7);
    if n - (at + 1) < k {
        proof {
            let d = email@.subrange(at + 1, n as int);
            assert(d.len() < "msu.edu"@.len());
        }
        return Err(AppError::NotSchoolEmail);
    }
    let start = n - k;
    let mut j: usize = 0;
    while j < k
        invariant
            school_email_check(email@) == if ends_with(
                email@.subrange(at + 1, n as int),
                "msu.edu"@,
            ) {
                Ok::<(), AppError>(())
            } else {
                Err(AppError::NotSchoolEmail)
            },
            k == suffix@.len(),
            k == 7,
            suffix@ == "msu.edu"@,
            n == email@.len(),
            start == n - k,
            start >= at + 1,
            j <= k,
            forall|m: int| 0 <= m < j ==> email@[start + m] == suffix@[m],
        decreases k - j,
    {
        proof {
            reveal_strlit("msu.edu");
        }
        if email.get_char(start + j) != suffix.get_char(j) {
            proof {
                let d = email@.subrange(at + 1, n as int);
                assert(d.subrange(d.len() - 7, d.len() as int)[j as int] == email@[start + j]);
                assert(d.subrange(d.len() - 7, d.len() as int)[j as int] != "msu.edu"@[j as int]);
                assert(!ends_with(d, "msu.edu"@));
            }
            return Err(AppError::NotSchoolEmail);
        }
        j = j + 1;
    }
    proof {
        let d = email@.subrange(at + 1, n as int);
        assert(d.subrange(d.len() - 7, d.len() as int) =~= suffix@);
    }
    Ok(())
}

/// The shortest password accepted, in bytes.
pub const MIN_PASSWORD_LENGTH: usize = 8;

/// Accepts a password of at least eight bytes.
pub fn validate_password(password: &str) -> (r: Result<(), AppError>)
    ensures
        r is Err <==> password.len() < MIN_PASSWORD_LENGTH,
        r is Err ==> r == Err::<(), AppError>(AppError::PasswordTooShort),
{
    if password.len() < MIN_PASSWORD_LENGTH {
        return Err(AppError::PasswordTooShort);
    }
    Ok(())
}

/// The sport that a lower-case name denotes.
pub open spec fn sport_named(s: Seq<char>) -> Option<SportType> {
    if s == "football"@ {
        Some(SportType::Football)
    } else if s == "basketball"@ {
        Some(SportType::Basketball)
    } else if s == "hockey"@ {
        Some(SportType::Hockey)
    } else {
        None
    }
}

/// Reads a sport from its lower-case name.
pub fn sport_from_lowercase(s: &str) -> (r: Result<SportType, AppError>)
    ensures
        r == match sport_named(s@) {
            Some(t) => Ok(t),
            None => Err(AppError::InvalidSportType),
        },
{
    if same_text(s, "football") {
        Ok(SportType::Football)
    } else if same_text(s, "basketball") {
        Ok(SportType::Basketball)
    } else if same_text(s, "hockey") {
        Ok(SportType::Hockey)
    } else {
        Err(AppError::InvalidSportType)
    }
}

/// Reads a sport from its name, in any case.
pub fn parse_sport_type(s: &str) -> (r: Result<SportType, AppError>)
    ensures
        r == match sport_named(lower_of(s@)) {
            Some(t) => Ok(t),
            None => Err(AppError::InvalidSportType),
        },
{
    let lower = lowercase(s);
    sport_from_lowercase(lower.as_str())
}

/// The status filter that a lower-case name denotes.
pub open spec fn status_named(s: Seq<char>) -> Option<TicketStatus> {
    if s == "unverified"@ {
        Some(TicketStatus::Unverified)
    } else if s == "verifying"@ {
        Some(TicketStatus::Verifying)
    } else if s == "verified"@ {
        Some(TicketStatus::Verified)
    } else if s == "reserved"@ {
        Some(TicketStatus::Reserved)
    } else if s == "paid"@ {
        Some(TicketStatus::Paid)
    } else if s == "sold"@ {
        Some(TicketStatus::Sold)
    } else if s == "cancelled"@ {
        Some(TicketStatus::Cancelled)
    } else {
        None
    }
}

/// Reads a status filter from its lower-case name.
pub fn status_from_lowercase(s: &str) -> (r: Result<TicketStatus, AppError>)
    ensures
        r == match status_named(s@) {
            Some(t) => Ok(t),
            None => Err(AppError::InvalidStatusFilter),
        },
{
    if same_text(s, "unverified") {
        Ok(TicketStatus::Unverified)
    } else if same_text(s, "verifying") {
        Ok(TicketStatus::Verifying)
    } else if same_text(s, "verified") {
        Ok(TicketStatus::Verified)
    } else if same_text(s, "reserved") {
        Ok(TicketStatus::Reserved)
    } else if same_text(s, "paid") {
        Ok(TicketStatus::Paid)
    } else if same_text(s, "sold") {
        Ok(TicketStatus::Sold)
    } else if same_text(s, "cancelled") {
        Ok(TicketStatus::Cancelled)
    } else {
        Err(AppError::InvalidStatusFilter)
    }
}

/// Reads a status filter from its name, in any case.
pub fn parse_ticket_status(s: &str) -> (r: Result<TicketStatus, AppError>)
    ensures
        r == match status_named(lower_of(s@)) {
            Some(t) => Ok(t),
            None => Err(AppError::InvalidStatusFilter),
        },
{
    let lower = lowercase(s);
    status_from_lowercase(lower.as_str())
}

} // verus!
