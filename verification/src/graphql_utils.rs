//! Utility functions for GraphQL resolvers: looking up the authentication
//! state attached by the admission middleware, and reaching the shared
//! pub/sub registry, from a request-scoped context.

use vstd::prelude::*;

use crate::auth_state::AuthState;
use crate::errors::DianaError;
use crate::pubsub::{has_sub, publish_spec, subscribe_spec, PubSub};

verus! {

/// The per-request execution context as resolvers see it: the single-slot
/// store the middleware fills with the computed `AuthState`, and the shared
/// pub/sub registry installed at server startup, whose mutual-exclusion lock
/// may have been poisoned by a panic in another task.
pub struct GqlContext {
    pub auth_state: Option<AuthState>,
    pub pubsub: Option<PubSub>,
    pub pubsub_poisoned: bool,
}

impl GqlContext {
    /// A well-formed context: the registry it carries, if any, is
    /// well-formed.
    pub open spec fn wf(self) -> bool {
        match self.pubsub {
            Some(p) => p.wf(),
            None => true,
        }
    }
}

/// Gets authentication data from the context of a GraphQL resolver. This
/// only fails, with `GraphQLContextNotFound("auth_state")`, if the server
/// was constructed without the authentication middleware — a server
/// misconfiguration.
pub fn get_auth_data_from_ctx<'a>(raw_ctx: &'a GqlContext) -> (r: Result<&'a AuthState, DianaError>)
    ensures
        match r {
            Ok(state) => raw_ctx.auth_state matches Some(s) && s == *state,
            Err(e) => raw_ctx.auth_state is None && (e matches DianaError::GraphQLContextNotFound(
                name,
            ) && name@ == "auth_state"@),
        },
{
    match &raw_ctx.auth_state {
        Some(state) => Ok(state),
        None => Err(DianaError::GraphQLContextNotFound(String::from_str("auth_state"))),
    }
}

/// Gets the internal pub/sub registry from the context of a GraphQL
/// resolver, read-only. Fails with `GraphQLContextNotFound("pubsub")` when
/// no registry was installed, and with `MutexPoisoned("pubsub")` when its
/// lock was left inconsistent by a prior panic in another task.
pub fn get_pubsub_from_ctx<'a>(raw_ctx: &'a GqlContext) -> (r: Result<&'a PubSub, DianaError>)
    ensures
        match r {
            Ok(p) => raw_ctx.pubsub matches Some(q) && q == *p && !raw_ctx.pubsub_poisoned,
            Err(e) => {
                ||| (raw_ctx.pubsub is None && (e matches DianaError::GraphQLContextNotFound(name)
                    && name@ == "pubsub"@))
                ||| (raw_ctx.pubsub is Some && raw_ctx.pubsub_poisoned && (
                e matches DianaError::MutexPoisoned(name) && name@ == "pubsub"@))
            },
        },
{
    match &raw_ctx.pubsub {
        Some(pubsub) => {
            if raw_ctx.pubsub_poisoned {
                Err(DianaError::MutexPoisoned(String::from_str("pubsub")))
            } else {
                Ok(pubsub)
            }
        },
        None => Err(DianaError::GraphQLContextNotFound(String::from_str("pubsub"))),
    }
}

/// Gets a subscription stream to events published on a particular channel
/// from the context of a GraphQL resolver: registers a fresh subscriber
/// endpoint on `channel` and returns its handle, through which the messages
/// published from this point forward are consumed in order. Fails exactly as
/// the registry lookup does.
pub fn get_stream_for_channel_from_ctx(channel: &str, raw_ctx: &mut GqlContext) -> (r: Result<
    u64,
    DianaError,
>)
    requires
        old(raw_ctx).wf(),
        old(raw_ctx).pubsub matches Some(p) ==> p.next_id < u64::MAX,
    ensures
        final(raw_ctx).wf(),
        final(raw_ctx).auth_state == old(raw_ctx).auth_state,
        final(raw_ctx).pubsub_poisoned == old(raw_ctx).pubsub_poisoned,
        match r {
            Ok(id) => {
                &&& old(raw_ctx).pubsub matches Some(p) && !old(raw_ctx).pubsub_poisoned && !has_sub(
                    p@,
                    id,
                ) && (final(raw_ctx).pubsub matches Some(q) && q@ == subscribe_spec(
                    p@,
                    channel@,
                    id,
                ))
            },
            Err(e) => {
                &&& final(raw_ctx).pubsub == old(raw_ctx).pubsub
                &&& {
                    ||| (old(raw_ctx).pubsub is None && (
                    e matches DianaError::GraphQLContextNotFound(name) && name@ == "pubsub"@))
                    ||| (old(raw_ctx).pubsub is Some && old(raw_ctx).pubsub_poisoned && (
                    e matches DianaError::MutexPoisoned(name) && name@ == "pubsub"@))
                }
            },
        },
{
    match raw_ctx.pubsub.as_mut() {
        Some(pubsub) => {
            if raw_ctx.pubsub_poisoned {
                Err(DianaError::MutexPoisoned(String::from_str("pubsub")))
            } else {
                let id = pubsub.subscribe(channel);
                Ok(id)
            }
        },
        None => Err(DianaError::GraphQLContextNotFound(String::from_str("pubsub"))),
    }
}

/// Publishes `data` on `channel` through the registry held by the context,
/// delivering one copy to every endpoint currently subscribed to `channel` —
/// the internal logic a publish mutation runs. Fails exactly as the registry
/// lookup does; absence of subscribers is not a failure.
pub fn publish_from_ctx(channel: &str, data: &str, raw_ctx: &mut GqlContext) -> (r: Result<
    (),
    DianaError,
>)
    requires
        old(raw_ctx).wf(),
    ensures
        final(raw_ctx).wf(),
        final(raw_ctx).auth_state == old(raw_ctx).auth_state,
        final(raw_ctx).pubsub_poisoned == old(raw_ctx).pubsub_poisoned,
        match r {
            Ok(()) => {
                &&& old(raw_ctx).pubsub matches Some(p) && !old(raw_ctx).pubsub_poisoned
                    && (final(raw_ctx).pubsub matches Some(q) && q@ == publish_spec(
                    p@,
                    channel@,
                    data@,
                ))
            },
            Err(e) => {
                &&& final(raw_ctx).pubsub == old(raw_ctx).pubsub
                &&& {
                    ||| (old(raw_ctx).pubsub is None && (
                    e matches DianaError::GraphQLContextNotFound(name) && name@ == "pubsub"@))
                    ||| (old(raw_ctx).pubsub is Some && old(raw_ctx).pubsub_poisoned && (
                    e matches DianaError::MutexPoisoned(name) && name@ == "pubsub"@))
                }
            },
        },
{
    match raw_ctx.pubsub.as_mut() {
        Some(pubsub) => {
            if raw_ctx.pubsub_poisoned {
                Err(DianaError::MutexPoisoned(String::from_str("pubsub")))
            } else {
                pubsub.publish(channel, data);
                Ok(())
            }
        },
        None => Err(DianaError::GraphQLContextNotFound(String::from_str("pubsub"))),
    }
}

} // verus!
