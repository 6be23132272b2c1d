use vstd::prelude::*;

use crate::permissions::Permissions;

verus! {

/// What the API reports when a request fails.
#[derive(Clone, Copy, Debug, PartialEq, Eq, Structural)]
pub enum Error {
    /// The bearer credential is missing or does not verify.
    Auth,
    /// The caller lacks some of the permissions that the request needs.
    MissingPermissions { missing_permissions: Permissions },
    /// The addressed record does not exist.
    NotFound,
    /// The store refused a record that would duplicate a unique key.
    Conflict,
    /// The store found no row where one was expected.
    RowNotFound,
    /// Any other failure; its detail is only logged.
    Internal,
}

/// The HTTP status of each error.
pub open spec fn status_of(e: Error) -> u16 {
    match e {
        Error::Auth => 401,
        Error::MissingPermissions { .. } => 403,
        Error::NotFound => 404,
        Error::Conflict => 409,
        Error::RowNotFound => 404,
        Error::Internal => 500,
    }
}

/// The message that the client is sent for each error.
pub open spec fn public_message_of(e: Error) -> Seq<char> {
    match e {
        Error::Auth => "Unauthorized"@,
        Error::MissingPermissions { .. } => "Missing Permissions"@,
        Error::NotFound => "Not Found"@,
        Error::Conflict => "Conflict with another resource"@,
        Error::RowNotFound => "Resource Not Found"@,
        Error::Internal => "Internal Server Error"@,
    }
}

impl Error {
    /// The HTTP status of the response.
    pub fn status_code(&self) -> (r: u16)
        ensures
            r == status_of(*self),
    {
        match self {
            Error::Auth => 401,
            Error::MissingPermissions { .. } => 403,
            Error::NotFound => 404,
            Error::Conflict => 409,
            Error::RowNotFound => 404,
            Error::Internal => 500,
        }
    }

    /// The message of the response; it holds no internal detail.
    pub fn public_message(&self) -> (r: &'static str)
        ensures
            r@ == public_message_of(*self),
    {
        match self {
            Error::Auth => "Unauthorized",
            Error::MissingPermissions { .. } => "Missing Permissions",
            Error::NotFound => "Not Found",
            Error::Conflict => "Conflict with another resource",
            Error::RowNotFound => "Resource Not Found",
            Error::Internal => "Internal Server Error",
        }
    }

    /// Whether the error is an unexpected failure that the server should log.
    pub fn is_internal(&self) -> (r: bool)
        ensures
            r == (*self == Error::Internal),
    {
        match self {
            Error::Internal => true,
            _ => false,
        }
    }
}

} // verus!
