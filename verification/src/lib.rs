//! Authentication-decision and event-distribution core for a GraphQL server
//! framework: bearer-credential extraction and classification, admission
//! policies over the classified state, and an in-memory publish/subscribe
//! registry backing subscriptions.

pub mod auth_state;
pub mod errors;
pub mod graphql_utils;
mod jwt;
pub mod middleware;
pub mod pubsub;
pub mod strutil;
