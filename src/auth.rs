//! The caller's identity, as read from the identifying request header.

use crate::error::ServiceError;
use vstd::prelude::*;

verus! {

/// The identity an operation acts for.
#[derive(Debug, Clone, Copy, PartialEq, Eq, Structural)]
pub struct AuthenticatedUser {
    pub id: u128,
}

/// The 128-bit value of a textual UUID, as uuid's `Uuid::parse_str` reads it.
pub uninterp spec fn uuid_value(s: Seq<char>) -> Option<u128>;

/// Relies on uuid's `Uuid::parse_str` and `Uuid::as_u128`: the value of a
/// UUID written in one of the textual forms, none for other text.
#[verifier::external_body]
fn parse_uuid(s: &str) -> (r: Option<u128>)
    ensures
        r == uuid_value(s@),
{
    match uuid::Uuid::parse_str(s) {
        Ok(u) => Some(u.as_u128()),
        Err(_) => None,
    }
}

/// The identity in the header's value: a missing header is unauthorized; an
/// empty value, or one that is not a UUID, is a bad request.
pub fn identity_from_header(header: Option<&str>) -> (r: Result<AuthenticatedUser, ServiceError>)
    ensures
        header is None ==> r is Err && r->Err_0 is Unauthorized,
        header is Some && header.unwrap()@.len() == 0 ==> r is Err && r->Err_0 is BadRequest,
        header is Some && header.unwrap()@.len() > 0 ==> match uuid_value(header.unwrap()@) {
            Some(id) => r == Ok::<AuthenticatedUser, ServiceError>(AuthenticatedUser { id }),
            None => r is Err && r->Err_0 is BadRequest,
        },
{
    match header {
        None => Err(
            ServiceError::Unauthorized(
                String::from_str("Missing X-User-Id header. Authentication required."),
            ),
        ),
        Some(value) => {
            if value.is_empty() {
                return Err(ServiceError::BadRequest(String::from_str("X-User-Id header cannot be empty.")));
            }
            match parse_uuid(value) {
                Some(id) => Ok(AuthenticatedUser { id }),
                None => Err(
                    ServiceError::BadRequest(
                        String::from_str("Invalid X-User-Id header format (not a valid UUID)."),
                    ),
                ),
            }
        },
    }
}

} // verus!
