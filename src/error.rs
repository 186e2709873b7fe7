use vstd::prelude::*;

verus! {

/// The seven kinds of failure that the service reports, one HTTP status each.
#[derive(Debug, Clone, Copy, PartialEq, Eq, Structural)]
pub enum ErrorKind {
    InvalidInput,
    Unauthorized,
    Forbidden,
    NotFound,
    Conflict,
    TooManyRequests,
    Internal,
}

/// Every error the library returns.
#[derive(Debug, Clone, Copy, PartialEq, Eq, Structural)]
pub enum AppError {
    Database,
    EmailAlreadyExists,
    InvalidEmail,
    NotSchoolEmail,
    PasswordTooShort,
    InvalidVerificationCode,
    VerificationCodeExpired,
    InvalidCredentials,
    EmailNotVerified,
    Unauthorized,
    Forbidden,
    InvalidSportType,
    NegativePrice,
    EmptySeatDetails,
    EmptyGameName,
    GameTimeNotInFuture,
    InvalidStatusFilter,
    InvalidCutoff,
    GameNotFound,
    TicketNotFound,
    NoClaimableTicket,
    NotVerifying,
    TicketUnavailable,
    QuotaExceeded(i64),
    SeatAlreadyLive,
    NotCancellable,
    TicketClosed,
    DuplicateTicketId,
    TooManyRequests,
    Internal,
}

pub open spec fn kind_of(e: AppError) -> ErrorKind {
    match e {
        AppError::EmailAlreadyExists | AppError::InvalidEmail | AppError::NotSchoolEmail
        | AppError::PasswordTooShort | AppError::InvalidVerificationCode
        | AppError::VerificationCodeExpired | AppError::InvalidSportType
        | AppError::NegativePrice | AppError::EmptySeatDetails | AppError::EmptyGameName
        | AppError::GameTimeNotInFuture | AppError::InvalidStatusFilter => ErrorKind::InvalidInput,
        AppError::InvalidCredentials | AppError::Unauthorized => ErrorKind::Unauthorized,
        AppError::EmailNotVerified | AppError::Forbidden => ErrorKind::Forbidden,
        AppError::GameNotFound | AppError::TicketNotFound
        | AppError::NoClaimableTicket => ErrorKind::NotFound,
        AppError::NotVerifying | AppError::TicketUnavailable | AppError::QuotaExceeded(_)
        | AppError::SeatAlreadyLive | AppError::NotCancellable | AppError::TicketClosed => ErrorKind::Conflict,
        AppError::TooManyRequests => ErrorKind::TooManyRequests,
        AppError::Database | AppError::InvalidCutoff | AppError::DuplicateTicketId
        | AppError::Internal => ErrorKind::Internal,
    }
}

pub open spec fn status_of_kind(k: ErrorKind) -> u16 {
    match k {
        ErrorKind::InvalidInput => 400,
        ErrorKind::Unauthorized => 401,
        ErrorKind::Forbidden => 403,
        ErrorKind::NotFound => 404,
        ErrorKind::Conflict => 409,
        ErrorKind::TooManyRequests => 429,
        ErrorKind::Internal => 500,
    }
}

impl ErrorKind {
    /// The HTTP status of this kind.
    pub fn status_code(&self) -> (r: u16)
        ensures
            r == status_of_kind(*self),
    {
        match self {
            ErrorKind::InvalidInput => 400,
            ErrorKind::Unauthorized => 401,
            ErrorKind::Forbidden => 403,
            ErrorKind::NotFound => 404,
            ErrorKind::Conflict => 409,
            ErrorKind::TooManyRequests => 429,
            ErrorKind::Internal => 500,
        }
    }
}

impl AppError {
    /// The kind of this error.
    pub fn kind(&self) -> (r: ErrorKind)
        ensures
            r == kind_of(*self),
    {
        match self {
            AppError::EmailAlreadyExists | AppError::InvalidEmail | AppError::NotSchoolEmail
            | AppError::PasswordTooShort | AppError::InvalidVerificationCode
            | AppError::VerificationCodeExpired | AppError::InvalidSportType
            | AppError::NegativePrice | AppError::EmptySeatDetails | AppError::EmptyGameName
            | AppError::GameTimeNotInFuture
            | AppError::InvalidStatusFilter => ErrorKind::InvalidInput,
            AppError::InvalidCredentials | AppError::Unauthorized => ErrorKind::Unauthorized,
            AppError::EmailNotVerified | AppError::Forbidden => ErrorKind::Forbidden,
            AppError::GameNotFound | AppError::TicketNotFound
            | AppError::NoClaimableTicket => ErrorKind::NotFound,
            AppError::NotVerifying | AppError::TicketUnavailable | AppError::QuotaExceeded(_)
            | AppError::SeatAlreadyLive | AppError::NotCancellable | AppError::TicketClosed => ErrorKind::Conflict,
            AppError::TooManyRequests => ErrorKind::TooManyRequests,
            AppError::Database | AppError::InvalidCutoff | AppError::DuplicateTicketId
            | AppError::Internal => ErrorKind::Internal,
        }
    }

    /// The HTTP status that answers this error.
    pub fn status_code(&self) -> (r: u16)
        ensures
            r == status_of_kind(kind_of(*self)),
    {
        self.kind().status_code()
    }
}

} // verus!
