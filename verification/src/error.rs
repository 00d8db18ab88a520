//! Error taxonomy of the service.
//!
//! Authentication failures live in [`AuthError`]; everything the handlers
//! return is an [`AppError`].  Both map to a status code and a body through
//! plain functions so that the mapping itself is verified.

use vstd::prelude::*;

verus! {

/// A single field-level validation failure.
#[derive(Debug)]
pub struct FieldError {
    pub field: String,
    pub message: String,
}

impl Clone for FieldError {
    fn clone(&self) -> (res: Self)
        ensures
            res == *self,
    {
        FieldError { field: self.field.clone(), message: self.message.clone() }
    }
}

/// Copies a list of field errors, keeping every entry exactly.
pub fn clone_field_errors(v: &Vec<FieldError>) -> (r: Vec<FieldError>)
    ensures
        r@ == v@,
{
    let mut r: Vec<FieldError> = Vec::new();
    let mut i: usize = 0;
    while i < v.len()
        invariant
            i <= v.len(),
            r@ == v@.subrange(0, i as int),
        decreases v.len() - i,
    {
        r.push(v[i].clone());
        proof {
            assert(r@ =~= v@.subrange(0, i + 1 as int));
        }
        i = i + 1;
    }
    proof {
        assert(r@ =~= v@);
    }
    r
}

/// Body of a plain error reply.
#[derive(Debug)]
pub struct ErrorResponse {
    pub error: String,
}

/// Body of a validation-failure reply: all field errors are aggregated.
#[derive(Debug)]
pub struct ValidationResponse {
    pub error: String,
    pub errors: Vec<FieldError>,
}

/// Everything a handler can fail with.
#[derive(Debug)]
pub enum AppError {
    BadRequest(String),
    Validation(Vec<FieldError>),
    NotFound,
    Forbidden,
    Database(String),
    Internal(String),
}

/// Failures of request authentication, before any handler runs.
#[derive(Debug, Clone, Copy, PartialEq, Eq, Structural)]
pub enum AuthError {
    MissingToken,
    InvalidToken,
}

impl AppError {
    /// The HTTP status code this error is reported with.
    pub fn status_code(&self) -> (code: u16)
        ensures
            code == self.spec_status_code(),
    {
        match self {
            AppError::BadRequest(_) => 400,
            AppError::Validation(_) => 400,
            AppError::NotFound => 404,
            AppError::Forbidden => 403,
            AppError::Database(_) => 500,
            AppError::Internal(_) => 500,
        }
    }

    pub open spec fn spec_status_code(&self) -> u16 {
        match self {
            AppError::BadRequest(_) => 400u16,
            AppError::Validation(_) => 400u16,
            AppError::NotFound => 404u16,
            AppError::Forbidden => 403u16,
            AppError::Database(_) => 500u16,
            AppError::Internal(_) => 500u16,
        }
    }

    pub open spec fn spec_error_message(&self) -> Seq<char> {
        match self {
            AppError::BadRequest(m) => m@,
            AppError::Validation(_) => "Validation failed"@,
            AppError::NotFound => "Resource not found"@,
            AppError::Forbidden => "Access denied"@,
            AppError::Database(_) => "Internal error"@,
            AppError::Internal(m) => m@,
        }
    }

    /// The error text carried in the reply body.  Validation failures are
    /// reported through [`AppError::validation_response`] instead; here they
    /// share the fixed headline.  Database details are kept opaque.
    pub fn error_message(&self) -> (msg: String)
        ensures
            msg@ == self.spec_error_message(),
    {
        match self {
            AppError::BadRequest(m) => m.clone(),
            AppError::Validation(_) => "Validation failed".to_owned(),
            AppError::NotFound => "Resource not found".to_owned(),
            AppError::Forbidden => "Access denied".to_owned(),
            AppError::Database(_) => "Internal error".to_owned(),
            AppError::Internal(m) => m.clone(),
        }
    }

    /// The plain reply body for this error: its message under the `error`
    /// key.
    pub fn error_response(&self) -> (r: ErrorResponse)
        ensures
            r.error@ == self.spec_error_message(),
    {
        ErrorResponse { error: self.error_message() }
    }

    /// The aggregated field errors of a validation failure.
    pub fn validation_response(&self) -> (r: Option<ValidationResponse>)
        ensures
            (r is Some) <==> (self is Validation),
            r matches Some(v) ==> {
                &&& v.error@ == "Validation failed"@
                &&& v.errors@ == self->Validation_0@
            },
    {
        match self {
            AppError::Validation(errors) => Some(
                ValidationResponse {
                    error: "Validation failed".to_owned(),
                    errors: clone_field_errors(errors),
                },
            ),
            _ => None,
        }
    }
}

impl AuthError {
    /// Both authentication failures collapse to an unauthorized reply.
    pub fn status_code(&self) -> (code: u16)
        ensures
            code == 401,
    {
        401
    }

    pub fn error_message(&self) -> (msg: String)
        ensures
            self is MissingToken ==> msg@ == "Missing authorization token"@,
            self is InvalidToken ==> msg@ == "Invalid authorization token"@,
    {
        match self {
            AuthError::MissingToken => "Missing authorization token".to_owned(),
            AuthError::InvalidToken => "Invalid authorization token".to_owned(),
        }
    }
}

} // verus!
