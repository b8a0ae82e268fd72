//! Admission of the mini-app's requests: who is asking.

use vstd::prelude::*;
use vstd::utf8::encode_utf8;
use crate::validation::{validate, validated, User};

verus! {

/// The status with which a request without valid init data is answered.
pub const STATUS_UNAUTHORIZED: u16 = 401;

/// The id of the user on whose behalf a request is made.
#[derive(Clone, Copy, Debug, PartialEq, Eq, Structural)]
pub struct UserId(pub u64);

/// Puts the admission check in front of a service.
#[derive(Clone, Copy, Debug)]
pub struct AuthLayer;

/// A service behind the admission check.
pub struct AuthMiddleware<S> {
    pub inner: S,
}

/// The JSON text of the user that a request is made for: the one for whom
/// the init data of its `X-Init-Data` header is valid under `token`. A
/// request without the header, or with init data that is not valid, is
/// answered 401.
pub open spec fn admitted(init_data: Option<Seq<char>>, token: Seq<char>) -> Result<
    Seq<char>,
    u16,
> {
    match init_data {
        Some(text) => match validated(encode_utf8(text), encode_utf8(token)) {
            Some(user) => Ok(user),
            None => Err(STATUS_UNAUTHORIZED),
        },
        None => Err(STATUS_UNAUTHORIZED),
    }
}

/// The id under which a request is let through to the inner service, once
/// the user was read out of the admitted text: `user` is what the reading
/// gave. A text that names no user is answered 401.
pub open spec fn identified(user: Option<User>) -> Result<UserId, u16> {
    match user {
        Some(user) => Ok(UserId(user.id)),
        None => Err(STATUS_UNAUTHORIZED),
    }
}

impl AuthLayer {
    /// The service `inner` behind the admission check.
    pub fn layer<S>(&self, inner: S) -> (service: AuthMiddleware<S>)
        ensures
            service.inner == inner,
    {
        AuthMiddleware { inner }
    }
}

impl<S> AuthMiddleware<S> {
    /// Decides on a request by the value of its `X-Init-Data` header: the
    /// JSON text of the user for whom the request is made, or the status of
    /// the refusal.
    pub fn authorize(&self, init_data: Option<&str>, token: &str) -> (admission: Result<
        String,
        u16,
    >)
        ensures
            match admission {
                Ok(user) => admitted(
                    match init_data {
                        Some(text) => Some(text@),
                        None => None,
                    },
                    token@,
                ) == Ok::<Seq<char>, u16>(user@),
                Err(status) => admitted(
                    match init_data {
                        Some(text) => Some(text@),
                        None => None,
                    },
                    token@,
                ) == Err::<Seq<char>, u16>(status),
            },
    {
        match init_data {
            Some(text) => match validate(text, token) {
                Some(user) => Ok(user),
                None => Err(STATUS_UNAUTHORIZED),
            },
            None => Err(STATUS_UNAUTHORIZED),
        }
    }

    /// The id under which the inner service is called, once the user was read
    /// out of the admitted text, or the status of the refusal.
    pub fn identify(&self, user: Option<User>) -> (admission: Result<UserId, u16>)
        ensures
            admission == identified(user),
    {
        match user {
            Some(user) => Ok(UserId(user.id)),
            None => Err(STATUS_UNAUTHORIZED),
        }
    }
}

} // verus!
