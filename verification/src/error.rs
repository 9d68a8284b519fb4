//! The refusals and failures that the API answers with, each with its HTTP
//! status and the text of the reply.

use vstd::prelude::*;

verus! {

/// A request that is answered with an error.
#[derive(Clone, Copy, Debug, PartialEq, Eq, Structural)]
pub enum ApiError {
    /// A post by an author that has not registered.
    UserNotRegistered,
    /// A like without the liking user's UUID.
    UserUuidRequired,
    /// A profile that does not exist.
    UserNotFound,
    /// A post that does not exist.
    PostNotFound,
    /// Storing a registration failed.
    RegistrationFailed,
    /// Storing a post failed.
    PostCreationFailed,
    /// Preparing the feed query failed.
    QueryFailed,
}

/// The HTTP status of each error.
pub open spec fn status_of(e: ApiError) -> u16 {
    match e {
        ApiError::UserNotRegistered => 400,
        ApiError::UserUuidRequired => 400,
        ApiError::UserNotFound => 404,
        ApiError::PostNotFound => 404,
        ApiError::RegistrationFailed => 500,
        ApiError::PostCreationFailed => 500,
        ApiError::QueryFailed => 500,
    }
}

impl ApiError {
    /// The HTTP status code of the reply.
    pub fn status(&self) -> (r: u16)
        ensures
            r == status_of(*self),
    {
        match self {
            ApiError::UserNotRegistered => 400,
            ApiError::UserUuidRequired => 400,
            ApiError::UserNotFound => 404,
            ApiError::PostNotFound => 404,
            ApiError::RegistrationFailed => 500,
            ApiError::PostCreationFailed => 500,
            ApiError::QueryFailed => 500,
        }
    }

    /// The text of the reply.
    pub fn message(&self) -> (r: &'static str)
        ensures
            r@ == match *self {
                ApiError::UserNotRegistered => "User not registered. Call /api/social/register first."@,
                ApiError::UserUuidRequired => "user_uuid required"@,
                ApiError::UserNotFound => "User not found"@,
                ApiError::PostNotFound => "Post not found"@,
                ApiError::RegistrationFailed => "Registration failed"@,
                ApiError::PostCreationFailed => "Failed to create post"@,
                ApiError::QueryFailed => "Query failed"@,
            },
    {
        match self {
            ApiError::UserNotRegistered => "User not registered. Call /api/social/register first.",
            ApiError::UserUuidRequired => "user_uuid required",
            ApiError::UserNotFound => "User not found",
            ApiError::PostNotFound => "Post not found",
            ApiError::RegistrationFailed => "Registration failed",
            ApiError::PostCreationFailed => "Failed to create post",
            ApiError::QueryFailed => "Query failed",
        }
    }
}

} // verus!
