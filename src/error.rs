use vstd::prelude::*;

verus! {

/// The kind of a failure, without its message.
#[derive(Clone, Copy, Debug, PartialEq, Eq, Structural)]
pub enum ErrorKind {
    NotFound,
    Unauthorized,
    Forbidden,
    BadRequest,
    Conflict,
    TooManyRequests,
    Internal,
}

/// A typed failure of a library operation.
#[derive(Debug)]
pub enum AppError {
    NotFound(String),
    Unauthorized,
    Forbidden,
    BadRequest(String),
    Conflict(String),
    TooManyRequests,
    Internal,
}

impl AppError {
    pub open spec fn spec_kind(&self) -> ErrorKind {
        match self {
            AppError::NotFound(_) => ErrorKind::NotFound,
            AppError::Unauthorized => ErrorKind::Unauthorized,
            AppError::Forbidden => ErrorKind::Forbidden,
            AppError::BadRequest(_) => ErrorKind::BadRequest,
            AppError::Conflict(_) => ErrorKind::Conflict,
            AppError::TooManyRequests => ErrorKind::TooManyRequests,
            AppError::Internal => ErrorKind::Internal,
        }
    }

    #[verifier::when_used_as_spec(spec_kind)]
    pub fn kind(&self) -> (k: ErrorKind)
        ensures
            k == self.spec_kind(),
    {
        match self {
            AppError::NotFound(_) => ErrorKind::NotFound,
            AppError::Unauthorized => ErrorKind::Unauthorized,
            AppError::Forbidden => ErrorKind::Forbidden,
            AppError::BadRequest(_) => ErrorKind::BadRequest,
            AppError::Conflict(_) => ErrorKind::Conflict,
            AppError::TooManyRequests => ErrorKind::TooManyRequests,
            AppError::Internal => ErrorKind::Internal,
        }
    }

    /// The HTTP status code that reports this failure.
    pub fn status_code(&self) -> (code: u16)
        ensures
            code == status_of(self.spec_kind()),
    {
        status_for(self.kind())
    }
}

/// The result is a failure of kind `k`.
pub open spec fn fails_with<T>(r: Result<T, AppError>, k: ErrorKind) -> bool {
    match r {
        Ok(_) => false,
        Err(e) => e.spec_kind() == k,
    }
}

pub open spec fn status_of(k: ErrorKind) -> u16 {
    match k {
        ErrorKind::NotFound => 404,
        ErrorKind::Unauthorized => 401,
        ErrorKind::Forbidden => 403,
        ErrorKind::BadRequest => 400,
        ErrorKind::Conflict => 409,
        ErrorKind::TooManyRequests => 429,
        ErrorKind::Internal => 500,
    }
}

/// The HTTP status code of an error kind.
pub fn status_for(k: ErrorKind) -> (code: u16)
    ensures
        code == status_of(k),
{
    match k {
        ErrorKind::NotFound => 404,
        ErrorKind::Unauthorized => 401,
        ErrorKind::Forbidden => 403,
        ErrorKind::BadRequest => 400,
        ErrorKind::Conflict => 409,
        ErrorKind::TooManyRequests => 429,
        ErrorKind::Internal => 500,
    }
}

} // verus!
