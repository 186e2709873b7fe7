use ticket_marketplace::auth::{
    check_login, check_shared_secret, format_six_digits, generate_verification_code,
    hash_password, login_outcome, secrets_match, token_expiry, validate_admin_key,
    validate_bot_key, validate_registration, verify_password, LoginAccount,
};
use ticket_marketplace::catalog::{prepare_game, GamePlan};
use ticket_marketplace::config::{positive_or, DEFAULT_BOT_CONCURRENCY_LIMIT};
use ticket_marketplace::error::{AppError, ErrorKind};
use ticket_marketplace::exchange::{check_quota, minutes_before_now, validate_listing};
use ticket_marketplace::models::game::{CreateGameRequest, SportType};
use ticket_marketplace::models::ticket::{CreateTicketRequest, TicketStatus};
use ticket_marketplace::text::{
    is_blank, parse_sport_type, parse_ticket_status, same_text, sport_from_lowercase,
    status_from_lowercase, validate_password, validate_school_email,
};

#[test]
fn school_email_rules() {
    assert_eq!(validate_school_email("sparty@msu.edu"), Ok(()));
    assert_eq!(validate_school_email("x@cse.msu.edu"), Ok(()));
    assert_eq!(validate_school_email("sparty.msu.edu"), Err(AppError::InvalidEmail));
    assert_eq!(validate_school_email("a@b@msu.edu"), Err(AppError::InvalidEmail));
    assert_eq!(validate_school_email("a@umich.edu"), Err(AppError::NotSchoolEmail));
    assert_eq!(validate_school_email("msu.edu@x"), Err(AppError::NotSchoolEmail));
    assert_eq!(validate_school_email("a@su.edu"), Err(AppError::NotSchoolEmail));
    assert_eq!(validate_school_email("a@msu.edu.com"), Err(AppError::NotSchoolEmail));
}

#[test]
fn password_length_rule() {
    assert_eq!(validate_password("1234567"), Err(AppError::PasswordTooShort));
    assert_eq!(validate_password("12345678"), Ok(()));
    // eight bytes in four characters
    assert_eq!(validate_password("éééé"), Ok(()));
    assert_eq!(validate_password(""), Err(AppError::PasswordTooShort));
}

#[test]
fn registration_rules_in_order() {
    assert_eq!(validate_registration("a@umich.edu", "short"), Err(AppError::NotSchoolEmail));
    assert_eq!(validate_registration("a@msu.edu", "short"), Err(AppError::PasswordTooShort));
    assert_eq!(validate_registration("a@msu.edu", "long enough"), Ok(()));
}

#[test]
fn sport_names() {
    assert_eq!(parse_sport_type("Football"), Ok(SportType::Football));
    assert_eq!(parse_sport_type("BASKETBALL"), Ok(SportType::Basketball));
    assert_eq!(parse_sport_type("hockey"), Ok(SportType::Hockey));
    assert_eq!(parse_sport_type("curling"), Err(AppError::InvalidSportType));
    assert_eq!(sport_from_lowercase("Hockey"), Err(AppError::InvalidSportType));
    assert_eq!(sport_from_lowercase("hockey"), Ok(SportType::Hockey));
}

#[test]
fn status_names() {
    assert_eq!(parse_ticket_status("Verified"), Ok(TicketStatus::Verified));
    assert_eq!(parse_ticket_status("VERIFYING"), Ok(TicketStatus::Verifying));
    assert_eq!(parse_ticket_status("sold"), Ok(TicketStatus::Sold));
    assert_eq!(parse_ticket_status("bogus"), Err(AppError::InvalidStatusFilter));
    assert_eq!(status_from_lowercase("cancelled"), Ok(TicketStatus::Cancelled));
    assert_eq!(status_from_lowercase("Paid"), Err(AppError::InvalidStatusFilter));
    assert_eq!(AppError::InvalidStatusFilter.status_code(), 400);
}

#[test]
fn blank_and_equal_text() {
    assert!(is_blank(""));
    assert!(is_blank(" \t\n"));
    assert!(!is_blank(" a "));
    assert!(same_text("abc", "abc"));
    assert!(!same_text("abc", "abd"));
}

#[test]
fn listing_field_checks() {
    let mut req = CreateTicketRequest {
        game_id: 1,
        level: "UPPER".to_string(),
        seat_section: "101".to_string(),
        seat_row: "A".to_string(),
        seat_number: "7".to_string(),
        price: 0,
    };
    assert_eq!(validate_listing(&req), Ok(()));
    req.seat_number = " ".to_string();
    assert_eq!(validate_listing(&req), Err(AppError::EmptySeatDetails));
    req.price = -1;
    assert_eq!(validate_listing(&req), Err(AppError::NegativePrice));
}

#[test]
fn quota_and_window() {
    assert_eq!(check_quota(2, 3), Ok(()));
    assert_eq!(check_quota(3, 3), Err(AppError::QuotaExceeded(3)));
    assert_eq!(check_quota(0, 0), Err(AppError::QuotaExceeded(0)));
    assert_eq!(minutes_before_now(1000, 7), 580);
    assert_eq!(minutes_before_now(i64::MIN, i64::MAX), i64::MIN as i128 - i64::MAX as i128 * 60);
}

#[test]
fn shared_secrets() {
    assert!(secrets_match("SECRET-REDACTED", "SECRET-REDACTED"));
    assert!(!secrets_match("abc", "abd"));
    assert!(!secrets_match("abc", "abcd"));
    assert!(secrets_match("", ""));
    assert_eq!(check_shared_secret(None, Some("k")), Err(AppError::Unauthorized));
    assert_eq!(check_shared_secret(Some("k"), None), Err(AppError::Internal));
    assert_eq!(check_shared_secret(Some("k"), Some("j")), Err(AppError::Unauthorized));
    assert_eq!(validate_admin_key(Some("k"), Some("k")), Ok(()));
    assert_eq!(validate_bot_key(Some("bot"), Some("bot")), Ok(()));
    assert_eq!(validate_bot_key(Some("bot"), Some("admin")).unwrap_err().status_code(), 401);
}

#[test]
fn password_hash_round_trip() {
    let hash = hash_password("correct horse").unwrap();
    assert_ne!(hash, "correct horse");
    assert_eq!(verify_password("correct horse", &hash), Ok(true));
    assert_eq!(verify_password("wrong horse", &hash), Ok(false));
    assert_eq!(verify_password("x", "not a hash"), Err(AppError::Internal));
}

#[test]
fn login_decisions() {
    assert_eq!(login_outcome(None, true), Err(AppError::Internal));
    assert_eq!(login_outcome(Some(false), true), Err(AppError::InvalidCredentials));
    assert_eq!(login_outcome(Some(true), false), Err(AppError::EmailNotVerified));
    assert_eq!(login_outcome(Some(true), true), Ok(()));
    let hash = hash_password("password1").unwrap();
    let mut account = LoginAccount {
        id: 42,
        email: "a@msu.edu".to_string(),
        email_verified: true,
        password_hash: hash,
    };
    assert_eq!(check_login(None, "password1"), Err(AppError::InvalidCredentials));
    assert_eq!(check_login(Some(&account), "password1"), Ok(42));
    assert_eq!(check_login(Some(&account), "password2"), Err(AppError::InvalidCredentials));
    account.email_verified = false;
    assert_eq!(check_login(Some(&account), "password1"), Err(AppError::EmailNotVerified));
    assert_eq!(AppError::EmailNotVerified.status_code(), 403);
}

#[test]
fn token_expiry_is_a_day_later() {
    assert_eq!(token_expiry(1_700_000_000), Ok(1_700_086_400));
    assert_eq!(token_expiry(-86_400 - 5), Err(AppError::Internal));
    assert_eq!(token_expiry(i64::MAX), Err(AppError::Internal));
}

#[test]
fn verification_codes() {
    assert_eq!(format_six_digits(123456), "123456");
    assert_eq!(format_six_digits(42), "000042");
    let code = generate_verification_code();
    assert_eq!(code.len(), 6);
    assert!(code.chars().all(|c| c.is_ascii_digit()));
    assert!(code.parse::<u32>().unwrap() >= 100000);
}

#[test]
fn game_preparation() {
    let now = 1_700_000_000;
    let req = |sport: &str, name: &str, at: i64| CreateGameRequest {
        sport_type: sport.to_string(),
        name: name.to_string(),
        game_time: at,
    };
    assert_eq!(
        prepare_game(&req("Hockey", "MSU vs UM", now + 7200), now, 30),
        Ok(GamePlan { sport_type: SportType::Hockey, cutoff_time: now + 7200 - 1800 })
    );
    assert_eq!(prepare_game(&req("hockey", "   ", now + 10), now, 30), Err(AppError::EmptyGameName));
    assert_eq!(prepare_game(&req("hockey", "G", now), now, 30), Err(AppError::GameTimeNotInFuture));
    assert_eq!(prepare_game(&req("chess", "G", now + 10), now, 30), Err(AppError::InvalidSportType));
    assert_eq!(prepare_game(&req("hockey", "G", now + 10), now, i64::MAX), Err(AppError::InvalidCutoff));
    assert_eq!(AppError::InvalidCutoff.kind(), ErrorKind::Internal);
}

#[test]
fn settings_defaults() {
    assert_eq!(positive_or(None, DEFAULT_BOT_CONCURRENCY_LIMIT), 5);
    assert_eq!(positive_or(Some(0), 5), 5);
    assert_eq!(positive_or(Some(-3), 5), 5);
    assert_eq!(positive_or(Some(9), 5), 9);
}

#[test]
fn every_kind_has_its_status() {
    let cases = [
        (AppError::NegativePrice, 400),
        (AppError::Unauthorized, 401),
        (AppError::Forbidden, 403),
        (AppError::TicketNotFound, 404),
        (AppError::NotVerifying, 409),
        (AppError::TooManyRequests, 429),
        (AppError::Database, 500),
    ];
    for (e, status) in cases {
        assert_eq!(e.status_code(), status);
        assert_eq!(e.kind().status_code(), status);
    }
}
