use vstd::prelude::*;

verus! {

/// Every failure the engine reports. Each variant carries a human-readable message.
#[derive(Debug)]
pub enum AppError {
    InitError(String),
    InternalServerError(String),
    DatabaseError(String),
    AuthorizationError(String),
    ParsingError(String),
    IOError(String),
    NotImplemented(String),
    NotFound(String),
    PermissionDenied(String),
}

/// The HTTP status class that a failure of this kind is reported with.
pub open spec fn status_of(e: AppError) -> u16 {
    match e {
        AppError::AuthorizationError(_) => 401,
        AppError::PermissionDenied(_) => 403,
        AppError::NotFound(_) => 404,
        _ => 500,
    }
}

impl AppError {
    /// Status code of the response that reports this error: authorization failures are
    /// 401, permission failures 403, absent resources 404, everything else 500.
    pub fn status_code(&self) -> (r: u16)
        ensures
            r == status_of(*self),
    {
        match self {
            AppError::AuthorizationError(_) => 401,
            AppError::PermissionDenied(_) => 403,
            AppError::NotFound(_) => 404,
            _ => 500,
        }
    }

    /// The message carried by the error.
    pub fn message(&self) -> (r: String)
        ensures
            r@ == self.message_spec(),
    {
        match self {
            AppError::InitError(m) => m.clone(),
            AppError::InternalServerError(m) => m.clone(),
            AppError::DatabaseError(m) => m.clone(),
            AppError::AuthorizationError(m) => m.clone(),
            AppError::ParsingError(m) => m.clone(),
            AppError::IOError(m) => m.clone(),
            AppError::NotImplemented(m) => m.clone(),
            AppError::NotFound(m) => m.clone(),
            AppError::PermissionDenied(m) => m.clone(),
        }
    }

    pub open spec fn message_spec(&self) -> Seq<char> {
        match self {
            AppError::InitError(m) => m@,
            AppError::InternalServerError(m) => m@,
            AppError::DatabaseError(m) => m@,
            AppError::AuthorizationError(m) => m@,
            AppError::ParsingError(m) => m@,
            AppError::IOError(m) => m@,
            AppError::NotImplemented(m) => m@,
            AppError::NotFound(m) => m@,
            AppError::PermissionDenied(m) => m@,
        }
    }

    /// Maps a failure of the relational store: a missing row becomes `NotFound`, any
    /// other failure `DatabaseError`, both with the store's message.
    pub fn from_store_failure(row_not_found: bool, message: String) -> (r: AppError)
        ensures
            row_not_found ==> r == AppError::NotFound(message),
            !row_not_found ==> r == AppError::DatabaseError(message),
    {
        if row_not_found {
            AppError::NotFound(message)
        } else {
            AppError::DatabaseError(message)
        }
    }
}

} // verus!
