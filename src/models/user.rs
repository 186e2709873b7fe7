use vstd::prelude::*;

verus! {

/// A registered account. Times are Unix seconds.
#[derive(Debug)]
pub struct User {
    pub id: u128,
    pub email: String,
    pub password_hash: String,
    pub email_verified: bool,
    pub verification_code: Option<String>,
    pub created_at: i64,
    pub updated_at: i64,
}

#[derive(Debug)]
pub struct RegisterRequest {
    pub email: String,
    pub password: String,
}

#[derive(Debug)]
pub struct VerifyEmailRequest {
    pub email: String,
    pub code: String,
}

#[derive(Debug)]
pub struct RegisterResponse {
    pub message: String,
    pub verification_code: Option<String>,
}

#[derive(Debug)]
pub struct VerifyEmailResponse {
    pub message: String,
    pub user_id: u128,
}

/// What a bearer token carries.
#[derive(Debug)]
pub struct Claims {
    pub sub: String,
    pub email: String,
    pub exp: usize,
}

} // verus!
