//! The error taxonomy shared by every store operation: uniqueness violations
//! (`ValidationError`), rule violations that a caller can surface to a user
//! (`BusinessProcessError`), plain absence (`NoResults`), and the record
//! mutation failures (`InsertError`, `UpdateError`, `DeleteError`).

use vstd::prelude::*;

verus! {

/// One field-scoped validation failure, e.g. a uniqueness violation on a
/// workflow name or on an answer value.
#[derive(Clone, Debug, PartialEq, Eq)]
pub struct FieldValidationError {
    pub field: String,
    pub code: String,
    pub message: String,
}

/// The kind of a [`DatabaseError`].
#[derive(Clone, Debug, PartialEq, Eq)]
pub enum ErrorCode {
    QueryError,
    NoResults,
    InsertError,
    UpdateError,
    DeleteError,
    BusinessProcessError,
    ValidationError { errors: Vec<FieldValidationError> },
}

/// An error returned by a store or session operation.
#[derive(Clone, Debug, PartialEq, Eq)]
pub struct DatabaseError {
    pub error_code: ErrorCode,
    pub message: String,
}

/// Holds when `e` is a business-process failure carrying exactly `message`.
pub open spec fn is_business_process_error(e: DatabaseError, message: Seq<char>) -> bool {
    &&& e.error_code == ErrorCode::BusinessProcessError
    &&& e.message@ == message
}

/// Holds when `e` is a not-found failure.
pub open spec fn is_no_results(e: DatabaseError) -> bool {
    e.error_code == ErrorCode::NoResults
}

/// Holds when `e` carries exactly one field-scoped uniqueness violation for
/// `field` with message `message`.
pub open spec fn is_uniqueness_error(e: DatabaseError, field: Seq<char>, message: Seq<char>) -> bool {
    match e.error_code {
        ErrorCode::ValidationError { errors } => {
            &&& errors@.len() == 1
            &&& errors@[0].field@ == field
            &&& errors@[0].code@ == "uniqueness"@
            &&& errors@[0].message@ == message
        },
        _ => false,
    }
}

impl DatabaseError {
    /// A failed result carrying a business-process violation.
    pub fn business_process_error<T>(message: &str) -> (r: Result<T, DatabaseError>)
        ensures
            r matches Err(e) && is_business_process_error(e, message@),
    {
        Err(DatabaseError {
            error_code: ErrorCode::BusinessProcessError,
            message: String::from_str(message),
        })
    }

    /// A failed result reporting that a record was not found.
    pub fn no_results<T>(message: &str) -> (r: Result<T, DatabaseError>)
        ensures
            r matches Err(e) && is_no_results(e) && e.message@ == message@,
    {
        Err(DatabaseError {
            error_code: ErrorCode::NoResults,
            message: String::from_str(message),
        })
    }

    /// An error of the given kind, for the record mutation failures.
    pub fn new(error_code: ErrorCode, message: &str) -> (r: DatabaseError)
        ensures
            r.error_code == error_code,
            r.message@ == message@,
    {
        DatabaseError {
            error_code,
            message: String::from_str(message),
        }
    }

    /// A failed result carrying one field-scoped uniqueness violation.
    pub fn uniqueness_error<T>(field: &str, message: &str) -> (r: Result<T, DatabaseError>)
        ensures
            r matches Err(e) && is_uniqueness_error(e, field@, message@),
    {
        let mut errors: Vec<FieldValidationError> = Vec::new();
        errors.push(FieldValidationError {
            field: String::from_str(field),
            code: String::from_str("uniqueness"),
            message: String::from_str(message),
        });
        Err(DatabaseError {
            error_code: ErrorCode::ValidationError { errors },
            message: String::from_str(message),
        })
    }
}

/// Turns an absent record into a normal `None`: `Err` with `NoResults`
/// becomes `Ok(None)`, any other error is kept, and a hit becomes `Ok(Some)`.
pub fn optional<T>(r: Result<T, DatabaseError>) -> (res: Result<Option<T>, DatabaseError>)
    ensures
        match r {
            Ok(v) => res == Ok::<Option<T>, DatabaseError>(Some(v)),
            Err(e) => if is_no_results(e) {
                res == Ok::<Option<T>, DatabaseError>(None::<T>)
            } else {
                res == Err::<Option<T>, DatabaseError>(e)
            },
        },
{
    match r {
        Ok(v) => Ok(Some(v)),
        Err(e) => {
            if matches!(e.error_code, ErrorCode::NoResults) {
                Ok(None)
            } else {
                Err(e)
            }
        },
    }
}

} // verus!
