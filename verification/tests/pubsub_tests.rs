//! Behavioural tests of the channel registry: round trips, subscriber
//! isolation, silent publishes on empty channels, deregistration, and the
//! context-level accessors.

use diana::errors::DianaError;
use diana::graphql_utils::{
    get_pubsub_from_ctx, get_stream_for_channel_from_ctx, publish_from_ctx, GqlContext,
};
use diana::pubsub::PubSub;

#[test]
fn round_trip_delivers_to_subscriber_and_nobody_else() {
    let mut ps = PubSub::new();
    let on_c1 = ps.subscribe("c1");
    let on_c2 = ps.subscribe("c2");
    ps.publish("c1", "m1");
    assert_eq!(ps.next_message(on_c1), Some("m1".to_string()));
    assert_eq!(ps.next_message(on_c1), None);
    assert_eq!(ps.next_message(on_c2), None);
}

#[test]
fn each_subscriber_gets_every_later_message_in_order() {
    let mut ps = PubSub::new();
    ps.publish("c1", "before-any-subscriber");
    let first = ps.subscribe("c1");
    let second = ps.subscribe("c1");
    ps.publish("c1", "m1");
    ps.publish("c1", "m2");
    for handle in [first, second] {
        assert_eq!(ps.next_message(handle), Some("m1".to_string()));
        assert_eq!(ps.next_message(handle), Some("m2".to_string()));
        assert_eq!(ps.next_message(handle), None);
    }
}

#[test]
fn message_published_before_subscribe_is_never_delivered() {
    let mut ps = PubSub::new();
    let early = ps.subscribe("news");
    ps.publish("news", "old");
    let late = ps.subscribe("news");
    ps.publish("news", "new");
    assert_eq!(ps.next_message(early), Some("old".to_string()));
    assert_eq!(ps.next_message(early), Some("new".to_string()));
    assert_eq!(ps.next_message(late), Some("new".to_string()));
    assert_eq!(ps.next_message(late), None);
}

#[test]
fn publish_without_subscribers_succeeds_and_retains_nothing() {
    let mut ps = PubSub::new();
    ps.publish("empty-channel", "dropped");
    let handle = ps.subscribe("empty-channel");
    assert_eq!(ps.next_message(handle), None);
}

#[test]
fn channels_are_independent() {
    let mut ps = PubSub::new();
    let a = ps.subscribe("a");
    let b = ps.subscribe("b");
    ps.publish("a", "for-a");
    ps.publish("b", "for-b");
    assert_eq!(ps.next_message(a), Some("for-a".to_string()));
    assert_eq!(ps.next_message(b), Some("for-b".to_string()));
}

#[test]
fn unsubscribe_stops_delivery_and_removes_the_endpoint() {
    let mut ps = PubSub::new();
    let gone = ps.subscribe("c");
    let kept = ps.subscribe("c");
    ps.publish("c", "m1");
    ps.unsubscribe(gone);
    ps.publish("c", "m2");
    assert_eq!(ps.next_message(gone), None);
    assert_eq!(ps.next_message(kept), Some("m1".to_string()));
    assert_eq!(ps.next_message(kept), Some("m2".to_string()));
}

#[test]
fn handles_are_never_reused() {
    let mut ps = PubSub::new();
    let first = ps.subscribe("c");
    ps.unsubscribe(first);
    let second = ps.subscribe("c");
    assert_ne!(first, second);
}

#[test]
fn default_registry_is_empty() {
    let mut ps = PubSub::default();
    ps.publish("any", "msg");
    let handle = ps.subscribe("any");
    assert_eq!(ps.next_message(handle), None);
}

#[test]
fn context_round_trip_through_resolver_accessors() {
    let mut ctx = GqlContext {
        auth_state: None,
        pubsub: Some(PubSub::new()),
        pubsub_poisoned: false,
    };
    let handle = get_stream_for_channel_from_ctx("new_user", &mut ctx).unwrap();
    publish_from_ctx("new_user", "{\"username\":\"ada\"}", &mut ctx).unwrap();
    publish_from_ctx("other", "ignored", &mut ctx).unwrap();
    assert!(get_pubsub_from_ctx(&ctx).is_ok());
    let registry = ctx.pubsub.as_mut().unwrap();
    assert_eq!(
        registry.next_message(handle),
        Some("{\"username\":\"ada\"}".to_string())
    );
    assert_eq!(registry.next_message(handle), None);
}

#[test]
fn context_without_registry_is_reported() {
    let mut ctx = GqlContext {
        auth_state: None,
        pubsub: None,
        pubsub_poisoned: false,
    };
    let expected = DianaError::GraphQLContextNotFound("pubsub".to_string());
    assert_eq!(get_pubsub_from_ctx(&ctx).unwrap_err(), expected);
    assert_eq!(
        get_stream_for_channel_from_ctx("c", &mut ctx).unwrap_err(),
        expected
    );
    assert_eq!(publish_from_ctx("c", "m", &mut ctx).unwrap_err(), expected);
}

#[test]
fn poisoned_registry_lock_is_reported() {
    let mut ctx = GqlContext {
        auth_state: None,
        pubsub: Some(PubSub::new()),
        pubsub_poisoned: true,
    };
    let expected = DianaError::MutexPoisoned("pubsub".to_string());
    assert_eq!(get_pubsub_from_ctx(&ctx).unwrap_err(), expected);
    assert_eq!(
        get_stream_for_channel_from_ctx("c", &mut ctx).unwrap_err(),
        expected
    );
    assert_eq!(publish_from_ctx("c", "m", &mut ctx).unwrap_err(), expected);
}
