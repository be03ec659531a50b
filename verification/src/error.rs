//! The errors a request can end in, and the HTTP answer each one gets.
use vstd::prelude::*;

verus! {

/// Why a request could not be served.
#[derive(Debug, Clone, Copy, PartialEq, Eq, Structural, PartialOrd, Ord, Hash)]
pub enum AppError {
    NotFound,
    InvalidRequest,
    InternalError,
}

/// The HTTP status code that answers an error.
pub open spec fn status_code_of(e: AppError) -> u16 {
    match e {
        AppError::NotFound => 404,
        AppError::InvalidRequest => 400,
        AppError::InternalError => 500,
    }
}

impl AppError {
    /// The HTTP status code of the response for this error.
    pub fn status_code(&self) -> (code: u16)
        ensures
            code == status_code_of(*self),
    {
        match self {
            AppError::NotFound => 404,
            AppError::InvalidRequest => 400,
            AppError::InternalError => 500,
        }
    }

    /// The body of the response for this error.
    pub fn response_body(&self) -> (body: String)
        ensures
            body@ == match *self {
                AppError::NotFound => "Not found"@,
                AppError::InvalidRequest => "Invalid request"@,
                AppError::InternalError => "Internal server error"@,
            },
    {
        match self {
            AppError::NotFound => "Not found".to_owned(),
            AppError::InvalidRequest => "Invalid request".to_owned(),
            AppError::InternalError => "Internal server error".to_owned(),
        }
    }

    /// The error's description.
    pub fn to_string(&self) -> (text: String)
        ensures
            text@ == match *self {
                AppError::NotFound => "Not Found"@,
                AppError::InvalidRequest => "Invalid Request"@,
                AppError::InternalError => "Internal Error"@,
            },
    {
        match self {
            AppError::NotFound => "Not Found".to_owned(),
            AppError::InvalidRequest => "Invalid Request".to_owned(),
            AppError::InternalError => "Internal Error".to_owned(),
        }
    }
}

} // verus!
