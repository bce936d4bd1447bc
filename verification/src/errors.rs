//! Error taxonomy of the core. Client-caused conditions (missing or invalid
//! tokens) are not errors but first-class `AuthState` outcomes; the variants
//! here cover server misconfiguration and concurrency faults.

use vstd::prelude::*;

verus! {

/// Errors surfaced by the authentication and pub/sub core.
#[derive(Debug, Clone, PartialEq, Eq)]
pub enum DianaError {
    /// An environment variable had an invalid type.
    InvalidEnvVarType(String, String),
    /// A required part of the GraphQL context was not found.
    GraphQLContextNotFound(String),
    /// A mutual-exclusion lock was poisoned by a panic in another task.
    MutexPoisoned(String),
    /// The subscriptions server failed to publish data it was asked to.
    SubscriptionDataPublishFailed,
    /// The verification secret could not be retrieved from configuration.
    SecretUnavailable,
    /// There was an unauthorised access attempt.
    Unauthorised,
}

impl DianaError {
    /// A human-readable description of the error.
    pub fn message(&self) -> (r: String)
        ensures
            r@.len() > 0,
    {
        proof {
            reveal_strlit("invalid environment variable type");
            reveal_strlit("required graphql context element not found");
            reveal_strlit("mutex poisoned");
            reveal_strlit("failed to publish data to the subscriptions server");
            reveal_strlit("the jwt verification secret could not be retrieved");
            reveal_strlit(
                "unable to comply with request due to lack of valid and sufficient authentication",
            );
        }
        match self {
            DianaError::InvalidEnvVarType(_, _) => String::from_str(
                "invalid environment variable type",
            ),
            DianaError::GraphQLContextNotFound(_) => String::from_str(
                "required graphql context element not found",
            ),
            DianaError::MutexPoisoned(_) => String::from_str("mutex poisoned"),
            DianaError::SubscriptionDataPublishFailed => String::from_str(
                "failed to publish data to the subscriptions server",
            ),
            DianaError::SecretUnavailable => String::from_str(
                "the jwt verification secret could not be retrieved",
            ),
            DianaError::Unauthorised => String::from_str(
                "unable to comply with request due to lack of valid and sufficient authentication",
            ),
        }
    }
}

} // verus!
