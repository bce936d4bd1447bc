//! The channel registry backing GraphQL subscriptions: named channels fan
//! published string payloads out to every subscriber endpoint registered on
//! the channel at publish time. Each subscribe call creates a fresh,
//! independently-buffered endpoint that sees only messages published from
//! that point forward, in publish order; publishing to a channel with no
//! subscribers succeeds silently and retains nothing.

use vstd::prelude::*;

use crate::strutil::str_eq;

verus! {

/// One subscriber endpoint: its handle, the channel it listens on, and its
/// pending messages in publish order (oldest first).
#[derive(Debug)]
pub struct Subscriber {
    pub id: u64,
    pub channel: String,
    pub queue: Vec<String>,
}

/// The mathematical model of one subscriber endpoint.
#[verifier::ext_equal]
pub struct SubModel {
    pub id: u64,
    pub channel: Seq<char>,
    pub queue: Seq<Seq<char>>,
}

impl View for Subscriber {
    type V = SubModel;

    open spec fn view(&self) -> SubModel {
        SubModel { id: self.id, channel: self.channel@, queue: self.queue.deep_view() }
    }
}

/// Registering a fresh endpoint with handle `id` on `channel`: the new
/// endpoint starts with an empty buffer and every existing endpoint is
/// untouched.
pub open spec fn subscribe_spec(subs: Seq<SubModel>, channel: Seq<char>, id: u64) -> Seq<
    SubModel,
> {
    subs.push(SubModel { id, channel, queue: Seq::empty() })
}

/// Delivering `message` on `channel`: one copy is appended to the buffer of
/// every endpoint registered on that channel, and no other endpoint changes.
pub open spec fn publish_spec(subs: Seq<SubModel>, channel: Seq<char>, message: Seq<char>) -> Seq<
    SubModel,
> {
    Seq::new(
        subs.len(),
        |i: int|
            if subs[i].channel == channel {
                SubModel { id: subs[i].id, channel: subs[i].channel, queue: subs[i].queue.push(
                    message,
                ) }
            } else {
                subs[i]
            },
    )
}

/// Whether an endpoint with handle `id` is registered.
pub open spec fn has_sub(subs: Seq<SubModel>, id: u64) -> bool {
    exists|i: int| 0 <= i < subs.len() && (#[trigger] subs[i].id) == id
}

/// The position of the endpoint with handle `id` (unique in a well-formed
/// registry).
pub open spec fn sub_index(subs: Seq<SubModel>, id: u64) -> int {
    choose|i: int| 0 <= i < subs.len() && (#[trigger] subs[i].id) == id
}

/// The pending messages of the endpoint with handle `id`, oldest first.
pub open spec fn queue_of(subs: Seq<SubModel>, id: u64) -> Seq<Seq<char>> {
    subs[sub_index(subs, id)].queue
}

/// Consuming the oldest pending message of the endpoint with handle `id`.
pub open spec fn pop_spec(subs: Seq<SubModel>, id: u64) -> Seq<SubModel> {
    let i = sub_index(subs, id);
    subs.update(
        i,
        SubModel { id: subs[i].id, channel: subs[i].channel, queue: subs[i].queue.drop_first() },
    )
}

/// The in-memory channel registry. It is process-scoped, created once at
/// server startup; concurrent access goes through mutual exclusion owned by
/// the surrounding server.
#[derive(Debug)]
pub struct PubSub {
    pub subs: Vec<Subscriber>,
    pub next_id: u64,
}

impl View for PubSub {
    type V = Seq<SubModel>;

    open spec fn view(&self) -> Seq<SubModel> {
        Seq::new(self.subs@.len() as nat, |i: int| self.subs@[i]@)
    }
}

impl PubSub {
    /// A well-formed registry: handles are pairwise distinct and below the
    /// next handle to be issued.
    pub open spec fn wf(self) -> bool {
        &&& forall|i: int| 0 <= i < self@.len() ==> (#[trigger] self@[i].id) < self.next_id
        &&& forall|i: int, j: int|
            0 <= i < j < self@.len() ==> self@[i].id != self@[j].id
    }

    /// An empty registry: no channels, no subscribers.
    pub fn new() -> (r: Self)
        ensures
            r.wf(),
            r@ == Seq::<SubModel>::empty(),
            r.next_id == 0,
    {
        let r = PubSub { subs: Vec::new(), next_id: 0 };
        proof {
            assert(r@ =~= Seq::<SubModel>::empty());
        }
        r
    }

    /// Registers a fresh subscriber endpoint on `channel` and returns its
    /// handle, which was not in use before; the endpoint sees only messages
    /// published from this point forward.
    pub fn subscribe(&mut self, channel: &str) -> (id: u64)
        requires
            old(self).wf(),
            old(self).next_id < u64::MAX,
        ensures
            final(self).wf(),
            id == old(self).next_id,
            !has_sub(old(self)@, id),
            final(self)@ == subscribe_spec(old(self)@, channel@, id),
            final(self).next_id == old(self).next_id + 1,
    {
        let id = self.next_id;
        self.next_id = self.next_id + 1;
        let channel_name = String::from_str(channel);
        self.subs.push(Subscriber { id, channel: channel_name, queue: Vec::new() });
        proof {
            assert(self@[old(self)@.len() as int].queue =~= Seq::<Seq<char>>::empty());
            assert(self@ =~= subscribe_spec(old(self)@, channel@, id));
        }
        id
    }

    /// Delivers `message` to every endpoint currently registered on
    /// `channel`, in publish order per endpoint; never fails, and a channel
    /// with no subscribers retains nothing.
    pub fn publish(&mut self, channel: &str, message: &str)
        requires
            old(self).wf(),
        ensures
            final(self).wf(),
            final(self).next_id == old(self).next_id,
            final(self)@ == publish_spec(old(self)@, channel@, message@),
    {
        let n = self.subs.len();
        let mut i: usize = 0;
        while i < n
            invariant
                n == self.subs@.len(),
                n == old(self)@.len(),
                i <= n,
                self.next_id == old(self).next_id,
                forall|j: int|
                    0 <= j < i ==> self@[j] == publish_spec(old(self)@, channel@, message@)[j],
                forall|j: int| i <= j < n ==> self@[j] == old(self)@[j],
            decreases n - i,
        {
            let ghost prev = self@;
            proof {
                assert(prev[i as int] == old(self)@[i as int]);
            }
            if str_eq(self.subs[i].channel.as_str(), channel) {
                let message_copy = String::from_str(message);
                let sub = &mut self.subs[i];
                sub.queue.push(message_copy);
                proof {
                    assert(self@[i as int].queue =~= prev[i as int].queue.push(message@));
                    assert(publish_spec(old(self)@, channel@, message@)[i as int] == (SubModel {
                        id: old(self)@[i as int].id,
                        channel: old(self)@[i as int].channel,
                        queue: old(self)@[i as int].queue.push(message@),
                    }));
                    assert(self@[i as int] =~= publish_spec(old(self)@, channel@, message@)[
                        i as int]);
                    assert(self@[i as int] == publish_spec(old(self)@, channel@, message@)[
                        i as int]);
                    assert(forall|j: int| 0 <= j < n && j != i ==> self@[j] == prev[j]);
                }
            } else {
                proof {
                    assert(old(self)@[i as int].channel != channel@);
                    assert(publish_spec(old(self)@, channel@, message@)[i as int] == old(self)@[
                        i as int]);
                }
            }
            proof {
                assert(self@[i as int] == publish_spec(old(self)@, channel@, message@)[i as int]);
                assert forall|j: int| 0 <= j < i implies self@[j] == publish_spec(
                    old(self)@,
                    channel@,
                    message@,
                )[j] by {
                    assert(self@[j] == prev[j]);
                };
            }
            i += 1;
        }
        proof {
            assert(self@ =~= publish_spec(old(self)@, channel@, message@));
        }
    }

    /// Produces the next pending message of the endpoint with handle `id`:
    /// the oldest undelivered message, in publish order. Yields nothing when
    /// the endpoint has no pending message or the handle is not registered,
    /// leaving the registry unchanged.
    pub fn next_message(&mut self, id: u64) -> (r: Option<String>)
        requires
            old(self).wf(),
        ensures
            final(self).wf(),
            final(self).next_id == old(self).next_id,
            match r {
                Some(m) => has_sub(old(self)@, id) && queue_of(old(self)@, id).len() > 0 && m@
                    == queue_of(old(self)@, id)[0] && final(self)@ == pop_spec(old(self)@, id),
                None => (!has_sub(old(self)@, id) || queue_of(old(self)@, id).len() == 0)
                    && final(self)@ == old(self)@,
            },
    {
        let n = self.subs.len();
        let mut i: usize = 0;
        while i < n
            invariant
                n == self.subs@.len(),
                self == old(self),
                self.wf(),
                i <= n,
                forall|j: int| 0 <= j < i ==> self@[j].id != id,
            decreases n - i,
        {
            if self.subs[i].id == id {
                proof {
                    assert(self@[i as int].id == id);
                    assert(has_sub(self@, id));
                    assert(sub_index(self@, id) == i) by {
                        let ci = sub_index(self@, id);
                        assert(0 <= ci < self@.len() && self@[ci].id == id);
                    }
                }
                if self.subs[i].queue.len() == 0 {
                    return None;
                }
                let ghost prev = self@;
                let sub = &mut self.subs[i];
                let message = sub.queue.remove(0);
                proof {
                    assert(message@ == queue_of(prev, id)[0]);
                    assert(self@[i as int].queue =~= prev[i as int].queue.drop_first());
                    assert(self@ =~= pop_spec(prev, id));
                }
                return Some(message);
            }
            i += 1;
        }
        proof {
            assert(!has_sub(self@, id));
        }
        None
    }

    /// Deregisters the endpoint with handle `id`, so that nothing is
    /// delivered to it any more; every other endpoint is untouched, and an
    /// unknown handle leaves the registry unchanged.
    pub fn unsubscribe(&mut self, id: u64)
        requires
            old(self).wf(),
        ensures
            final(self).wf(),
            final(self).next_id == old(self).next_id,
            has_sub(old(self)@, id) ==> final(self)@ == old(self)@.remove(
                sub_index(old(self)@, id),
            ),
            !has_sub(old(self)@, id) ==> final(self)@ == old(self)@,
            !has_sub(final(self)@, id),
    {
        let n = self.subs.len();
        let mut i: usize = 0;
        while i < n
            invariant
                n == self.subs@.len(),
                self == old(self),
                self.wf(),
                i <= n,
                forall|j: int| 0 <= j < i ==> self@[j].id != id,
            decreases n - i,
        {
            if self.subs[i].id == id {
                proof {
                    assert(self@[i as int].id == id);
                    assert(has_sub(self@, id));
                    assert(sub_index(self@, id) == i) by {
                        let ci = sub_index(self@, id);
                        assert(0 <= ci < self@.len() && self@[ci].id == id);
                    }
                }
                self.subs.remove(i);
                proof {
                    assert(self@ =~= old(self)@.remove(i as int));
                    assert(!has_sub(self@, id)) by {
                        if has_sub(self@, id) {
                            let k = choose|k: int|
                                0 <= k < self@.len() && (#[trigger] self@[k].id) == id;
                            if k < i {
                                assert(old(self)@[k].id != id);
                            } else {
                                assert(old(self)@[k + 1].id == id && old(self)@[i as int].id
                                    == id);
                            }
                        }
                    }
                }
                return ;
            }
            i += 1;
        }
        proof {
            assert(!has_sub(self@, id));
        }
    }
}

/// Law: publishing on a channel with no registered endpoint completes
/// without changing the registry at all — in particular, the message is not
/// retained for endpoints that subscribe later.
pub proof fn lemma_publish_without_subscribers(
    subs: Seq<SubModel>,
    channel: Seq<char>,
    message: Seq<char>,
)
    requires
        forall|i: int| 0 <= i < subs.len() ==> (#[trigger] subs[i].channel) != channel,
    ensures
        publish_spec(subs, channel, message) == subs,
{
    assert(publish_spec(subs, channel, message) =~= subs);
}

/// Law: subscribing to a channel and then publishing on it delivers exactly
/// that one message to the new endpoint, and delivers nothing to any
/// endpoint registered on a different channel.
pub proof fn lemma_pubsub_round_trip(
    subs: Seq<SubModel>,
    channel: Seq<char>,
    message: Seq<char>,
    id: u64,
)
    ensures
        ({
            let registered = subscribe_spec(subs, channel, id);
            let delivered = publish_spec(registered, channel, message);
            &&& delivered.len() == subs.len() + 1
            &&& delivered[subs.len() as int].id == id
            &&& delivered[subs.len() as int].queue =~= seq![message]
            &&& forall|j: int|
                0 <= j < subs.len() && subs[j].channel != channel ==> delivered[j] == subs[j]
        }),
{
    let registered = subscribe_spec(subs, channel, id);
    let delivered = publish_spec(registered, channel, message);
    assert(delivered[subs.len() as int].queue =~= seq![message]);
    assert forall|j: int|
        0 <= j < subs.len() && subs[j].channel != channel implies delivered[j] == subs[j] by {
        assert(registered[j] == subs[j]);
    };
}

/// Law: endpoints on one channel each receive every message published after
/// their own subscribe call, in publish order, and never a message published
/// before it — here shown for two independent endpoints registered after one
/// earlier publish and before two later ones.
pub proof fn lemma_pubsub_isolation(
    subs: Seq<SubModel>,
    channel: Seq<char>,
    earlier: Seq<char>,
    first: Seq<char>,
    second: Seq<char>,
    id1: u64,
    id2: u64,
)
    ensures
        ({
            let s0 = publish_spec(subs, channel, earlier);
            let s1 = subscribe_spec(s0, channel, id1);
            let s2 = subscribe_spec(s1, channel, id2);
            let s3 = publish_spec(s2, channel, first);
            let s4 = publish_spec(s3, channel, second);
            &&& s4[subs.len() as int].id == id1
            &&& s4[subs.len() as int].queue =~= seq![first, second]
            &&& s4[subs.len() as int + 1].id == id2
            &&& s4[subs.len() as int + 1].queue =~= seq![first, second]
        }),
{
    let s0 = publish_spec(subs, channel, earlier);
    let s1 = subscribe_spec(s0, channel, id1);
    let s2 = subscribe_spec(s1, channel, id2);
    let s3 = publish_spec(s2, channel, first);
    let s4 = publish_spec(s3, channel, second);
    let n = subs.len() as int;
    assert(s2[n].queue =~= Seq::<Seq<char>>::empty());
    assert(s2[n + 1].queue =~= Seq::<Seq<char>>::empty());
    assert(s4[n].queue =~= seq![first, second]);
    assert(s4[n + 1].queue =~= seq![first, second]);
}

impl Default for PubSub {
    /// An empty registry, as the server creates at startup.
    fn default() -> (r: Self)
        ensures
            r.wf(),
            r@ == Seq::<SubModel>::empty(),
            r.next_id == 0,
    {
        PubSub::new()
    }
}

} // verus!
