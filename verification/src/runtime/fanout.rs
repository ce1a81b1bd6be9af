//! Distribution of media to several sinks, each behind a queue of its own.

use std::collections::VecDeque;

use vstd::prelude::*;

use crate::frontend;
use crate::runtime::media::MediaPayload;

verus! {

/// What happens when a queue is full.
#[derive(Debug, Clone, Copy, PartialEq, Eq, Structural)]
pub enum DropPolicy {
    /// Whoever brings a payload waits until there is room.
    Block,
    /// The oldest payload makes room.
    DropOldest,
    /// The payload that comes is dropped.
    DropNewest,
}

/// The policy that a manifest names, as the runtime knows it.
pub open spec fn runtime_policy(policy: frontend::DropPolicy) -> DropPolicy {
    match policy {
        frontend::DropPolicy::Block => DropPolicy::Block,
        frontend::DropPolicy::DropOldest => DropPolicy::DropOldest,
        frontend::DropPolicy::DropNewest => DropPolicy::DropNewest,
    }
}

/// The policy that a manifest names, as the runtime knows it.
pub fn frontend_to_runtime_drop_policy(policy: frontend::DropPolicy) -> (r: DropPolicy)
    ensures
        r == runtime_policy(policy),
{
    match policy {
        frontend::DropPolicy::Block => DropPolicy::Block,
        frontend::DropPolicy::DropOldest => DropPolicy::DropOldest,
        frontend::DropPolicy::DropNewest => DropPolicy::DropNewest,
    }
}

/// What became of something that was brought to a queue.
#[derive(Debug, PartialEq, Eq)]
pub enum Offer<T> {
    /// It waits in the queue.
    Queued,
    /// It waits in the queue; the oldest had to go, which this is.
    ReplacedOldest(T),
    /// It was dropped; here it is.
    Dropped(T),
    /// There is no room; here it is back.
    Full(T),
}

/// A queue of bounded length.
#[derive(Debug, PartialEq, Eq)]
pub struct SinkQueue<T> {
    items: VecDeque<T>,
    limit: usize,
    policy: DropPolicy,
}

/// What a queue holds after something was brought to it.
pub open spec fn after_offer<T>(items: Seq<T>, limit: nat, policy: DropPolicy, item: T) -> Seq<T> {
    if items.len() < limit {
        items.push(item)
    } else if policy == DropPolicy::DropOldest {
        items.drop_first().push(item)
    } else {
        items
    }
}

/// What became of something that was brought to a queue.
pub open spec fn offer_outcome<T>(
    items: Seq<T>,
    limit: nat,
    policy: DropPolicy,
    item: T,
) -> Offer<T> {
    if items.len() < limit {
        Offer::Queued
    } else {
        match policy {
            DropPolicy::Block => Offer::Full(item),
            DropPolicy::DropOldest => Offer::ReplacedOldest(items[0]),
            DropPolicy::DropNewest => Offer::Dropped(item),
        }
    }
}

impl<T> SinkQueue<T> {
    #[verifier::type_invariant]
    spec fn bounded(self) -> bool {
        1 <= self.limit && self.items@.len() <= self.limit
    }

    /// What the queue holds, oldest first.
    pub closed spec fn items(&self) -> Seq<T> {
        self.items@
    }

    /// How much the queue can hold.
    pub closed spec fn limit(&self) -> nat {
        self.limit as nat
    }

    /// What happens when the queue is full.
    pub closed spec fn policy(&self) -> DropPolicy {
        self.policy
    }

    /// An empty queue; one that could hold nothing can hold one thing.
    pub fn new(limit: usize, policy: DropPolicy) -> (r: Self)
        ensures
            r.items() == Seq::<T>::empty(),
            r.limit() == (if limit == 0 {
                1
            } else {
                limit as nat
            }),
            r.policy() == policy,
    {
        SinkQueue {
            items: VecDeque::new(),
            limit: if limit == 0 {
                1
            } else {
                limit
            },
            policy,
        }
    }

    /// The number of things in the queue, which never exceeds the limit.
    pub fn len(&self) -> (r: usize)
        ensures
            r == self.items().len(),
            r <= self.limit(),
    {
        proof {
            use_type_invariant(self);
        }
        self.items.len()
    }

    /// Brings something to the queue.
    pub fn offer(&mut self, item: T) -> (r: Offer<T>)
        ensures
            r == offer_outcome(old(self).items(), old(self).limit(), old(self).policy(), item),
            final(self).items() == after_offer(
                old(self).items(),
                old(self).limit(),
                old(self).policy(),
                item,
            ),
            final(self).limit() == old(self).limit(),
            final(self).policy() == old(self).policy(),
    {
        proof {
            use_type_invariant(&*self);
        }
        let mut items: VecDeque<T> = VecDeque::new();
        std::mem::swap(&mut items, &mut self.items);
        let outcome = if items.len() < self.limit {
            items.push_back(item);
            Offer::Queued
        } else {
            match self.policy {
                DropPolicy::Block => Offer::Full(item),
                DropPolicy::DropNewest => Offer::Dropped(item),
                DropPolicy::DropOldest => match items.pop_front() {
                    Some(oldest) => {
                        items.push_back(item);
                        Offer::ReplacedOldest(oldest)
                    },
                    None => {
                        items.push_back(item);
                        Offer::Queued
                    },
                },
            }
        };
        assert(items@ =~= after_offer(
            old(self).items(),
            old(self).limit(),
            old(self).policy(),
            item,
        ));
        self.items = items;
        outcome
    }

    /// Takes the oldest thing out of the queue.
    pub fn take(&mut self) -> (r: Option<T>)
        ensures
            match r {
                Some(item) => old(self).items().len() > 0 && item == old(self).items()[0]
                    && final(self).items() == old(self).items().drop_first(),
                None => old(self).items().len() == 0 && final(self).items() == old(self).items(),
            },
            final(self).limit() == old(self).limit(),
            final(self).policy() == old(self).policy(),
    {
        proof {
            use_type_invariant(&*self);
        }
        let mut items: VecDeque<T> = VecDeque::new();
        std::mem::swap(&mut items, &mut self.items);
        let taken = items.pop_front();
        assert(taken is Some ==> items@ =~= old(self).items().drop_first());
        self.items = items;
        taken
    }
}

/// A sink, and how its queue behaves.
#[derive(Debug, PartialEq, Eq)]
pub struct SinkActorConfig<S> {
    pub sink: S,
    pub queue_limit: usize,
    pub drop_policy: DropPolicy,
}

/// A sink behind its queue.
#[derive(Debug, PartialEq, Eq)]
pub struct SinkActor<S> {
    pub sink: S,
    pub queue: SinkQueue<MediaPayload>,
}

/// Gives every payload to all of its sinks.
#[derive(Debug, PartialEq, Eq)]
pub struct FanoutRouter<S> {
    pub actors: Vec<SinkActor<S>>,
}

/// Whether a queue is what it should be after a payload was brought.
pub open spec fn was_offered(
    before: SinkQueue<MediaPayload>,
    after: SinkQueue<MediaPayload>,
    payload: MediaPayload,
) -> bool {
    &&& after.limit() == before.limit()
    &&& after.policy() == before.policy()
    &&& after.items() == after_offer(before.items(), before.limit(), before.policy(), payload)
}

/// What becomes of a payload that is brought to a sink.
pub open spec fn outcome_at(queue: SinkQueue<MediaPayload>, payload: MediaPayload) -> Offer<
    MediaPayload,
> {
    offer_outcome(queue.items(), queue.limit(), queue.policy(), payload)
}

impl<S> FanoutRouter<S> {
    /// A router for the given sinks, all of whose queues are empty.
    pub fn new(configs: Vec<SinkActorConfig<S>>) -> (r: Self)
        ensures
            r.actors@.len() == configs@.len(),
            forall|i: int|
                0 <= i < configs@.len() ==> {
                    let actor = #[trigger] r.actors@[i];
                    &&& actor.sink == configs@[i].sink
                    &&& actor.queue.items() == Seq::<MediaPayload>::empty()
                    &&& actor.queue.limit() == (if configs@[i].queue_limit == 0 {
                        1
                    } else {
                        configs@[i].queue_limit as nat
                    })
                    &&& actor.queue.policy() == configs@[i].drop_policy
                },
    {
        let ghost all = configs@;
        let mut configs = configs;
        let mut reversed: Vec<SinkActor<S>> = Vec::new();
        while configs.len() > 0
            invariant
                configs@.len() + reversed@.len() == all.len(),
                forall|i: int| 0 <= i < configs@.len() ==> configs@[i] == all[i],
                forall|k: int|
                    0 <= k < reversed@.len() ==> {
                        let actor = #[trigger] reversed@[k];
                        let config = all[all.len() - 1 - k];
                        &&& actor.sink == config.sink
                        &&& actor.queue.items() == Seq::<MediaPayload>::empty()
                        &&& actor.queue.limit() == (if config.queue_limit == 0 {
                            1
                        } else {
                            config.queue_limit as nat
                        })
                        &&& actor.queue.policy() == config.drop_policy
                    },
            decreases configs@.len(),
        {
            match configs.pop() {
                Some(config) => {
                    reversed.push(
                        SinkActor {
                            sink: config.sink,
                            queue: SinkQueue::new(config.queue_limit, config.drop_policy),
                        },
                    );
                },
                None => {},
            }
        }
        let ghost backwards = reversed@;
        let mut actors: Vec<SinkActor<S>> = Vec::new();
        while reversed.len() > 0
            invariant
                actors@.len() + reversed@.len() == backwards.len(),
                forall|k: int| 0 <= k < reversed@.len() ==> reversed@[k] == backwards[k],
                forall|i: int|
                    0 <= i < actors@.len() ==> #[trigger] actors@[i] == backwards[backwards.len()
                        - 1 - i],
            decreases reversed@.len(),
        {
            match reversed.pop() {
                Some(actor) => {
                    actors.push(actor);
                },
                None => {},
            }
        }
        FanoutRouter { actors }
    }

    /// Brings a copy of a payload to every sink. Returns what became of each copy, in the
    /// order of the sinks: one for which there was no room still has to be brought, and
    /// what was dropped is done with.
    pub fn consume(&mut self, payload: &MediaPayload) -> (r: Vec<Offer<MediaPayload>>)
        ensures
            r@.len() == old(self).actors@.len(),
            final(self).actors@.len() == old(self).actors@.len(),
            forall|i: int|
                0 <= i < old(self).actors@.len() ==> #[trigger] r@[i] == outcome_at(
                    old(self).actors@[i].queue,
                    *payload,
                ),
            forall|i: int|
                0 <= i < old(self).actors@.len() ==> {
                    &&& (#[trigger] final(self).actors@[i]).sink == old(self).actors@[i].sink
                    &&& was_offered(
                        old(self).actors@[i].queue,
                        final(self).actors@[i].queue,
                        *payload,
                    )
                },
    {
        let ghost before = self.actors@;
        let mut outcomes: Vec<Offer<MediaPayload>> = Vec::new();
        let mut i: usize = 0;
        while i < self.actors.len()
            invariant
                i <= self.actors@.len(),
                self.actors@.len() == before.len(),
                outcomes@.len() == i,
                forall|k: int|
                    0 <= k < i ==> #[trigger] outcomes@[k] == outcome_at(
                        before[k].queue,
                        *payload,
                    ),
                forall|k: int|
                    0 <= k < i ==> {
                        &&& (#[trigger] self.actors@[k]).sink == before[k].sink
                        &&& was_offered(before[k].queue, self.actors@[k].queue, *payload)
                    },
                forall|k: int| i <= k < before.len() ==> self.actors@[k] == before[k],
            decreases before.len() - i,
        {
            let outcome = self.actors[i].queue.offer(payload.clone());
            outcomes.push(outcome);
            i += 1;
        }
        outcomes
    }

    /// Brings a payload to one sink that had no room before. Returns what became of it.
    pub fn retry(&mut self, index: usize, payload: MediaPayload) -> (r: Offer<MediaPayload>)
        requires
            index < old(self).actors@.len(),
        ensures
            r == outcome_at(old(self).actors@[index as int].queue, payload),
            final(self).actors@.len() == old(self).actors@.len(),
            final(self).actors@[index as int].sink == old(self).actors@[index as int].sink,
            was_offered(
                old(self).actors@[index as int].queue,
                final(self).actors@[index as int].queue,
                payload,
            ),
            forall|i: int|
                0 <= i < old(self).actors@.len() && i != index ==> final(self).actors@[i]
                    == old(self).actors@[i],
    {
        self.actors[index].queue.offer(payload)
    }
}

// ---------------------------------------------------------------------------
// Laws
// ---------------------------------------------------------------------------

/// A queue never grows beyond its limit.
pub proof fn queues_stay_bounded<T>(items: Seq<T>, limit: nat, policy: DropPolicy, item: T)
    requires
        1 <= limit,
        items.len() <= limit,
    ensures
        after_offer(items, limit, policy, item).len() <= limit,
{
}

/// Only a queue that blocks ever gives something back.
pub proof fn dropping_queues_never_block<T>(
    items: Seq<T>,
    limit: nat,
    policy: DropPolicy,
    item: T,
)
    ensures
        offer_outcome(items, limit, policy, item) is Full <==> items.len() >= limit && policy
            == DropPolicy::Block,
{
}

/// What is brought to a queue that drops its oldest is always there afterwards, as the
/// newest, and the others keep their order.
pub proof fn the_newest_survives_dropping_the_oldest<T>(items: Seq<T>, limit: nat, item: T)
    requires
        1 <= limit,
        items.len() <= limit,
    ensures
        ({
            let after = after_offer(items, limit, DropPolicy::DropOldest, item);
            &&& after.len() > 0 && after.last() == item
            &&& after.drop_last() == items.skip(items.len() - after.drop_last().len())
        }),
{
    let after = after_offer(items, limit, DropPolicy::DropOldest, item);
    if items.len() < limit {
        assert(after.drop_last() == items);
        assert(items.skip(0) == items);
    } else {
        assert(after.drop_last() == items.drop_first());
        assert(items.skip(1) == items.drop_first());
    }
}

/// Nothing that is brought to a queue gets lost: of what it held and what was brought,
/// all is in the queue afterwards or was handed out.
pub proof fn nothing_gets_lost<T>(items: Seq<T>, limit: nat, policy: DropPolicy, item: T)
    requires
        1 <= limit,
        items.len() <= limit,
    ensures
        ({
            let after = after_offer(items, limit, policy, item);
            items.push(item) == (match offer_outcome(items, limit, policy, item) {
                Offer::Queued => after,
                Offer::ReplacedOldest(oldest) => seq![oldest] + after,
                Offer::Dropped(newest) => after.push(newest),
                Offer::Full(back) => after.push(back),
            })
        }),
{
    if items.len() >= limit {
        assert(seq![items[0]] + items.drop_first().push(item) =~= items.push(item));
    }
}

/// A full queue that drops the newest, or blocks, stays as it is.
pub proof fn a_full_queue_keeps_what_it_has<T>(
    items: Seq<T>,
    limit: nat,
    policy: DropPolicy,
    item: T,
)
    requires
        items.len() >= limit,
        policy != DropPolicy::DropOldest,
    ensures
        after_offer(items, limit, policy, item) == items,
{
}

/// A queue with room takes every item at its end, whatever its policy. A full one hands
/// back what it does not keep: the new item, or its oldest where that makes room.
pub proof fn offers_are_answered_by_the_room<T>(
    items: Seq<T>,
    limit: nat,
    policy: DropPolicy,
    item: T,
)
    ensures
        items.len() < limit ==> after_offer(items, limit, policy, item) == items.push(item)
            && offer_outcome(items, limit, policy, item) == Offer::<T>::Queued,
        items.len() >= limit && items.len() > 0 && policy == DropPolicy::DropOldest ==> after_offer(
            items,
            limit,
            policy,
            item,
        ) == items.push(item).drop_first() && offer_outcome(items, limit, policy, item)
            == Offer::<T>::ReplacedOldest(items.first()),
        items.len() >= limit && policy == DropPolicy::DropNewest ==> offer_outcome(
            items,
            limit,
            policy,
            item,
        ) == Offer::<T>::Dropped(item),
        items.len() >= limit && policy == DropPolicy::Block ==> offer_outcome(
            items,
            limit,
            policy,
            item,
        ) == Offer::<T>::Full(item),
{
    if items.len() > 0 {
        assert(items.push(item).drop_first() == items.drop_first().push(item));
    }
}

/// A policy keeps its name when a pipeline is started.
pub proof fn policies_keep_their_names(policy: frontend::DropPolicy)
    ensures
        runtime_policy(policy) == DropPolicy::Block <==> policy == frontend::DropPolicy::Block,
        runtime_policy(policy) == DropPolicy::DropOldest <==> policy
            == frontend::DropPolicy::DropOldest,
        runtime_policy(policy) == DropPolicy::DropNewest <==> policy
            == frontend::DropPolicy::DropNewest,
{
}

/// What a sink's queue holds after a payload was offered: the payload at the end where
/// there was room or room was made, and else what it held before.
pub proof fn sinks_keep_what_they_are_offered(
    before: SinkQueue<MediaPayload>,
    after: SinkQueue<MediaPayload>,
    payload: MediaPayload,
)
    requires
        was_offered(before, after, payload),
        before.items().len() > 0,
    ensures
        after.limit() == before.limit(),
        after.policy() == before.policy(),
        before.items().len() < before.limit() ==> after.items() == before.items().push(payload),
        before.items().len() >= before.limit() && before.policy() == DropPolicy::DropOldest
            ==> after.items() == before.items().push(payload).drop_first(),
        before.items().len() >= before.limit() && before.policy() != DropPolicy::DropOldest
            ==> after.items() == before.items(),
{
    offers_are_answered_by_the_room(before.items(), before.limit(), before.policy(), payload);
}

/// What was offered to a queue with room comes out of it, first what came first.
pub proof fn items_come_out_as_they_went_in<T>(
    queue: &mut SinkQueue<T>,
    item: T,
    outcome: Offer<T>,
)
    requires
        call_ensures(SinkQueue::<T>::offer, (queue, item), outcome),
    ensures
        old(queue).items().len() < old(queue).limit() ==> outcome == Offer::<T>::Queued
            && final(queue).items() == old(queue).items().push(item),
        old(queue).items().len() >= old(queue).limit() && old(queue).policy() == DropPolicy::Block
            ==> outcome == Offer::<T>::Full(item) && final(queue).items() == old(queue).items(),
        old(queue).items().len() >= old(queue).limit() && old(queue).policy()
            == DropPolicy::DropNewest ==> outcome == Offer::<T>::Dropped(item)
            && final(queue).items() == old(queue).items(),
        old(queue).items().len() >= old(queue).limit() && old(queue).items().len() > 0
            && old(queue).policy() == DropPolicy::DropOldest ==> final(queue).items() == old(
            queue,
        ).items().push(item).drop_first(),
{
    offers_are_answered_by_the_room(
        old(queue).items(),
        old(queue).limit(),
        old(queue).policy(),
        item,
    );
}

/// What is taken from a queue is what waited longest.
pub proof fn the_oldest_is_taken_first<T>(queue: &mut SinkQueue<T>, taken: Option<T>)
    requires
        call_ensures(SinkQueue::<T>::take, (queue,), taken),
    ensures
        taken matches Some(item) ==> old(queue).items() == seq![item] + final(queue).items(),
        taken is None <==> old(queue).items().len() == 0,
{
    if let Some(item) = taken {
        assert(old(queue).items() == seq![item] + old(queue).items().drop_first());
    }
}

} // verus!
