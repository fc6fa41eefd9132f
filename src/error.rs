//! The failures an operation can end in, and how each is shown to a caller.

use vstd::prelude::*;

verus! {

/// A typed failure, with a message for the caller or for the log.
#[derive(Debug, Clone)]
pub enum ServiceError {
    InternalServerError(String),
    BadRequest(String),
    Unauthorized(String),
    DatabaseError(String),
    NotFound(String),
    PoolError(String),
    ValidationError(String),
    ConflictError(String),
}

impl ServiceError {
    /// The HTTP status family of each kind of failure.
    pub open spec fn spec_status_code(&self) -> u16 {
        match self {
            ServiceError::InternalServerError(_) => 500,
            ServiceError::DatabaseError(_) => 500,
            ServiceError::PoolError(_) => 500,
            ServiceError::BadRequest(_) => 400,
            ServiceError::ValidationError(_) => 400,
            ServiceError::Unauthorized(_) => 401,
            ServiceError::NotFound(_) => 404,
            ServiceError::ConflictError(_) => 409,
        }
    }

    /// Failures on the server side: their detail is never shown to the caller.
    pub open spec fn spec_is_server_error(&self) -> bool {
        self.spec_status_code() >= 500
    }

    /// The name of the kind of failure.
    pub open spec fn spec_title(&self) -> Seq<char> {
        match self {
            ServiceError::InternalServerError(_) => "Internal Server Error"@,
            ServiceError::BadRequest(_) => "Bad Request"@,
            ServiceError::Unauthorized(_) => "Unauthorized"@,
            ServiceError::DatabaseError(_) => "Database Error"@,
            ServiceError::NotFound(_) => "Not Found"@,
            ServiceError::PoolError(_) => "Pool Error"@,
            ServiceError::ValidationError(_) => "Validation Error"@,
            ServiceError::ConflictError(_) => "Conflict Error"@,
        }
    }

    /// The message that the failure carries.
    pub open spec fn spec_detail(&self) -> Seq<char> {
        match self {
            ServiceError::InternalServerError(m) => m@,
            ServiceError::BadRequest(m) => m@,
            ServiceError::Unauthorized(m) => m@,
            ServiceError::DatabaseError(m) => m@,
            ServiceError::NotFound(m) => m@,
            ServiceError::PoolError(m) => m@,
            ServiceError::ValidationError(m) => m@,
            ServiceError::ConflictError(m) => m@,
        }
    }

    pub fn status_code(&self) -> (r: u16)
        ensures
            r == self.spec_status_code(),
    {
        match self {
            ServiceError::InternalServerError(_) => 500,
            ServiceError::DatabaseError(_) => 500,
            ServiceError::PoolError(_) => 500,
            ServiceError::BadRequest(_) => 400,
            ServiceError::ValidationError(_) => 400,
            ServiceError::Unauthorized(_) => 401,
            ServiceError::NotFound(_) => 404,
            ServiceError::ConflictError(_) => 409,
        }
    }

    pub fn is_server_error(&self) -> (r: bool)
        ensures
            r == self.spec_is_server_error(),
    {
        self.status_code() >= 500
    }

    /// What the caller is told: a generic sentence for server-side failures,
    /// the failure's own message otherwise.
    pub fn user_message(&self) -> (r: String)
        ensures
            self.spec_is_server_error() ==> r@ == generic_server_message(),
            !self.spec_is_server_error() ==> r@ == self.spec_detail(),
    {
        match self {
            ServiceError::InternalServerError(_)
            | ServiceError::DatabaseError(_)
            | ServiceError::PoolError(_) => {
                String::from_str("An internal server error occurred. Please try again later.")
            },
            ServiceError::BadRequest(m) => m.clone(),
            ServiceError::ValidationError(m) => m.clone(),
            ServiceError::Unauthorized(m) => m.clone(),
            ServiceError::NotFound(m) => m.clone(),
            ServiceError::ConflictError(m) => m.clone(),
        }
    }

    /// The failure in words: its kind, then its message.
    pub fn describe(&self) -> (r: String)
        ensures
            r@ == self.spec_title() + ": "@ + self.spec_detail(),
    {
        let (title, detail) = match self {
            ServiceError::InternalServerError(m) => ("Internal Server Error", m),
            ServiceError::BadRequest(m) => ("Bad Request", m),
            ServiceError::Unauthorized(m) => ("Unauthorized", m),
            ServiceError::DatabaseError(m) => ("Database Error", m),
            ServiceError::NotFound(m) => ("Not Found", m),
            ServiceError::PoolError(m) => ("Pool Error", m),
            ServiceError::ValidationError(m) => ("Validation Error", m),
            ServiceError::ConflictError(m) => ("Conflict Error", m),
        };
        String::from_str(title).concat(": ").concat(detail.as_str())
    }

    pub fn bad_request<T: Into<String>>(msg: T) -> (r: Self)
        ensures
            r is BadRequest,
            call_ensures(T::into, (msg,), r->BadRequest_0),
    {
        ServiceError::BadRequest(msg.into())
    }

    pub fn not_found<T: Into<String>>(msg: T) -> (r: Self)
        ensures
            r is NotFound,
            call_ensures(T::into, (msg,), r->NotFound_0),
    {
        ServiceError::NotFound(msg.into())
    }

    pub fn unauthorized<T: Into<String>>(msg: T) -> (r: Self)
        ensures
            r is Unauthorized,
            call_ensures(T::into, (msg,), r->Unauthorized_0),
    {
        ServiceError::Unauthorized(msg.into())
    }

    pub fn internal_error<T: Into<String>>(msg: T) -> (r: Self)
        ensures
            r is InternalServerError,
            call_ensures(T::into, (msg,), r->InternalServerError_0),
    {
        ServiceError::InternalServerError(msg.into())
    }

    pub fn validation_error<T: Into<String>>(msg: T) -> (r: Self)
        ensures
            r is ValidationError,
            call_ensures(T::into, (msg,), r->ValidationError_0),
    {
        ServiceError::ValidationError(msg.into())
    }

    pub fn conflict<T: Into<String>>(msg: T) -> (r: Self)
        ensures
            r is ConflictError,
            call_ensures(T::into, (msg,), r->ConflictError_0),
    {
        ServiceError::ConflictError(msg.into())
    }
}

/// The sentence shown in place of any server-side failure.
pub open spec fn generic_server_message() -> Seq<char> {
    "An internal server error occurred. Please try again later."@
}

} // verus!
