//! How the answer of an access check becomes a response.
use vstd::prelude::*;
use crate::error::RegistryError;

verus! {

/// What a request wants to do to a repository.
#[derive(Debug, Clone, Copy, PartialEq, Eq, Structural)]
pub enum Action {
    Read,
    Write,
    Delete,
}

/// The answer of an access check.
#[derive(Debug, Clone, Copy, PartialEq, Eq, Structural)]
pub enum AccessDecision {
    Allow,
    Deny,
    Unauthenticated,
}

/// An allowed request goes on; a denied one is `Denied` (403); one without
/// credentials for a protected resource is `Unauthorized` (401).
pub fn access_result(decision: AccessDecision) -> (r: Result<(), RegistryError>)
    ensures
        decision == AccessDecision::Allow ==> r is Ok,
        decision == AccessDecision::Deny ==> r == Err::<(), RegistryError>(RegistryError::Denied),
        decision == AccessDecision::Unauthenticated ==> r == Err::<(), RegistryError>(
            RegistryError::Unauthorized,
        ),
{
    match decision {
        AccessDecision::Allow => Ok(()),
        AccessDecision::Deny => Err(RegistryError::Denied),
        AccessDecision::Unauthenticated => Err(RegistryError::Unauthorized),
    }
}

/// The action an HTTP method performs on the registry.
pub open spec fn action_of_method(m: Seq<char>) -> Action {
    if m == "DELETE"@ {
        Action::Delete
    } else if m == "POST"@ || m == "PUT"@ || m == "PATCH"@ {
        Action::Write
    } else {
        Action::Read
    }
}

/// The action an HTTP method performs on the registry.
pub fn action_for_method(method: &str) -> (r: Action)
    ensures
        r == action_of_method(method@),
{
    let m = String::from_str(method);
    if m == String::from_str("DELETE") {
        Action::Delete
    } else if m == String::from_str("POST") || m == String::from_str("PUT") || m == String::from_str(
        "PATCH",
    ) {
        Action::Write
    } else {
        Action::Read
    }
}

} // verus!
