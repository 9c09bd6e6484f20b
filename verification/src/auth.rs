//! Who is let through to the owner's operations.

use vstd::prelude::*;

verus! {

/// What is done with a request.
#[derive(Clone, Copy, Debug, PartialEq, Eq, Structural)]
pub enum Admission {
    /// The request goes on to the service behind.
    Forward,
    /// The request is answered as unauthorized.
    Unauthorized,
}

/// The rule that lets requests through by their bearer token.
#[derive(Clone, Copy, Debug)]
pub struct AuthMiddleware;

impl AuthMiddleware {
    /// Decides on a request, given what the check of its token found:
    /// `None` where the request carries no authorization header, else
    /// whether the token was accepted. Only an accepted token is let
    /// through.
    pub fn decide(&self, token_accepted: Option<bool>) -> (admission: Admission)
        ensures
            admission == (if token_accepted == Some(true) {
                Admission::Forward
            } else {
                Admission::Unauthorized
            }),
    {
        match token_accepted {
            Some(true) => Admission::Forward,
            _ => Admission::Unauthorized,
        }
    }
}

} // verus!
