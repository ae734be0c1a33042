//! The dispatcher: the one owner of the registry. It applies commands one at
//! a time, in the order in which they are handed to it, and decides for each
//! published message which subscribers it is offered to.

use crate::broker::{Command, CommandView, Qos};
use crate::channel::{enqueue, DeliveryHandle};
use crate::registry::{subscribers, without, Registry, Subscription};
use vstd::prelude::*;

verus! {

/// The filtering policy: a published message is offered to a subscription
/// exactly when the publisher or the subscriber asked for `Low`.
///
/// Every other pairing delivers nothing: two `Medium` sides, and any pairing
/// with a `High` side and no `Low` side. `Medium` and `High` are levels in
/// name only: neither brings a stronger delivery with it, and `High` does not
/// override. Whoever expects a ladder of guarantees should note that there
/// is none.
pub open spec fn delivers(publisher: Qos, subscriber: Qos) -> bool {
    publisher == Qos::Low || subscriber == Qos::Low
}

/// The positions in `subscriptions`, in rising order, of those that a publish
/// at level `qos` is offered to.
pub open spec fn recipients(subscriptions: Seq<Subscription>, qos: Qos) -> Seq<int>
    decreases subscriptions.len(),
{
    if subscriptions.len() == 0 {
        Seq::empty()
    } else {
        let rest = recipients(subscriptions.drop_last(), qos);
        if delivers(qos, subscriptions.last().qos) {
            rest.push(subscriptions.len() - 1)
        } else {
            rest
        }
    }
}

/// One offer of a message to a subscriber's queue, and whether the queue took
/// it. `subscriber` is the subscription's position in the entry of the topic.
#[derive(Debug, PartialEq, Eq, Clone, Copy, Structural)]
pub struct Delivery {
    pub subscriber: usize,
    pub accepted: bool,
}

/// The positions that the entries of `report` name, in order.
pub open spec fn targets(report: Seq<Delivery>) -> Seq<int> {
    Seq::new(report.len(), |k: int| report[k].subscriber as int)
}

/// For each of the first `count` positions, whether `report` holds an offer
/// to it that was refused.
pub open spec fn refused(report: Seq<Delivery>, count: nat) -> Seq<bool> {
    Seq::new(
        count,
        |p: int|
            exists|k: int|
                0 <= k < report.len() && (#[trigger] report[k]).subscriber == p
                    && !report[k].accepted,
    )
}

/// The positions that a command is offered to in `registry`: those of
/// `recipients` for a publish, none for a subscribe.
pub open spec fn offered(registry: Map<Seq<char>, Seq<Subscription>>, command: CommandView) -> Seq<
    int,
> {
    match command {
        CommandView::Publish { topic, message, qos } => recipients(
            subscribers(registry, topic),
            qos,
        ),
        CommandView::Subscribe { topic, qos } => Seq::empty(),
    }
}

/// The registry after a command: a subscribe that carries a handle appends
/// one subscription to the entry of its topic; a subscribe without a handle
/// and a publish change nothing.
pub open spec fn apply(
    registry: Map<Seq<char>, Seq<Subscription>>,
    command: CommandView,
    handle: Option<DeliveryHandle>,
) -> Map<Seq<char>, Seq<Subscription>> {
    match (command, handle) {
        (CommandView::Subscribe { topic, qos }, Some(handle)) => registry.insert(
            topic,
            subscribers(registry, topic).push(Subscription { handle, qos }),
        ),
        _ => registry,
    }
}

/// One offer as a subscriber's queue sees it: the pair that is put on the
/// queue behind `handle`.
pub struct Offer {
    pub handle: DeliveryHandle,
    pub topic: Seq<char>,
    pub message: Seq<char>,
}

/// The offers that a publish makes when it goes to these positions of its
/// topic's entry: to each in turn, the published pair for the handle found
/// there. A subscribe makes none.
pub open spec fn offers_at(
    positions: Seq<int>,
    registry: Map<Seq<char>, Seq<Subscription>>,
    command: CommandView,
) -> Seq<Offer> {
    match command {
        CommandView::Publish { topic, message, qos } => Seq::new(
            positions.len(),
            |k: int|
                Offer { handle: subscribers(registry, topic)[positions[k]].handle, topic, message },
        ),
        CommandView::Subscribe { topic, qos } => Seq::empty(),
    }
}

/// The offers that a command causes in `registry`, in the order in which they
/// are made: for a publish, one to each position of `offered`.
pub open spec fn fan_out(registry: Map<Seq<char>, Seq<Subscription>>, command: CommandView) -> Seq<
    Offer,
> {
    offers_at(offered(registry, command), registry, command)
}

/// The registry after a sequence of commands, each with the handle it came
/// with, and all the offers made on the way, oldest first.
pub open spec fn run(
    registry: Map<Seq<char>, Seq<Subscription>>,
    inputs: Seq<(CommandView, Option<DeliveryHandle>)>,
) -> (Map<Seq<char>, Seq<Subscription>>, Seq<Offer>)
    decreases inputs.len(),
{
    if inputs.len() == 0 {
        (registry, Seq::empty())
    } else {
        let (before, trace) = run(registry, inputs.drop_last());
        let (command, handle) = inputs.last();
        (apply(before, command, handle), trace + fan_out(before, command))
    }
}

/// Decides whether a publish at level `publisher` is offered to a
/// subscription at level `subscriber`.
pub fn should_deliver(publisher: Qos, subscriber: Qos) -> (offer: bool)
    ensures
        offer == delivers(publisher, subscriber),
{
    publisher == Qos::Low || subscriber == Qos::Low
}

/// The dispatch engine with its registry.
pub struct Dispatcher {
    registry: Registry,
}

impl View for Dispatcher {
    type V = Map<Seq<char>, Seq<Subscription>>;

    closed spec fn view(&self) -> Map<Seq<char>, Seq<Subscription>> {
        self.registry@
    }
}

impl Dispatcher {
    /// A dispatcher that knows no topic.
    pub fn new() -> (dispatcher: Dispatcher)
        ensures
            dispatcher@ == Map::<Seq<char>, Seq<Subscription>>::empty(),
    {
        Dispatcher { registry: Registry::new() }
    }

    /// The subscriptions registered for `topic`, oldest first.
    pub fn subscriptions(&self, topic: &str) -> (found: &[Subscription])
        ensures
            found@ == subscribers(self@, topic@),
    {
        self.registry.lookup(topic)
    }

    /// Registers one more subscription for `topic`. A handle that is already
    /// registered for the topic is registered again, and then receives each
    /// matching message once per registration.
    pub fn subscribe(&mut self, topic: String, qos: Qos, handle: DeliveryHandle)
        ensures
            final(self)@ == apply(
                old(self)@,
                CommandView::Subscribe { topic: topic@, qos },
                Some(handle),
            ),
    {
        self.registry.register(topic, Subscription { handle, qos });
    }

    /// Offers `(topic, message)` to every subscription of `topic` that the
    /// policy admits, oldest first, and reports each offer. A refused offer
    /// is recorded and the fan-out goes on with the next subscription,
    /// whatever the queues answer. A topic without subscriptions yields an
    /// empty report.
    pub fn publish(&self, topic: &str, message: &str, qos: Qos) -> (report: Vec<Delivery>)
        ensures
            targets(report@) == recipients(subscribers(self@, topic@), qos),
            offers_at(
                targets(report@),
                self@,
                CommandView::Publish { topic: topic@, message: message@, qos },
            ) == fan_out(self@, CommandView::Publish { topic: topic@, message: message@, qos }),
    {
        let subscriptions = self.registry.lookup(topic);
        let mut report: Vec<Delivery> = Vec::new();
        let mut i: usize = 0;
        while i < subscriptions.len()
            invariant
                i <= subscriptions@.len(),
                targets(report@) == recipients(subscriptions@.take(i as int), qos),
            decreases subscriptions@.len() - i,
        {
            proof {
                assert(subscriptions@.take(i + 1).drop_last() =~= subscriptions@.take(i as int));
            }
            if should_deliver(qos, subscriptions[i].qos) {
                let accepted = enqueue(
                    &subscriptions[i].handle,
                    topic.to_owned(),
                    message.to_owned(),
                );
                report.push(Delivery { subscriber: i, accepted });
            }
            i = i + 1;
        }
        proof {
            assert(subscriptions@.take(i as int) =~= subscriptions@);
        }
        report
    }

    /// Applies one command. `handle` is the delivery handle of the connection
    /// that sent it; only a subscribe uses it, and a subscribe that comes
    /// without one is dropped.
    pub fn dispatch(&mut self, command: Command, handle: Option<DeliveryHandle>) -> (report: Vec<
        Delivery,
    >)
        ensures
            final(self)@ == apply(old(self)@, command@, handle),
            targets(report@) == offered(old(self)@, command@),
            offers_at(targets(report@), old(self)@, command@) == fan_out(old(self)@, command@),
    {
        match command {
            Command::Subscribe { topic, qos } => {
                match handle {
                    Some(handle) => {
                        self.subscribe(topic, qos, handle);
                    },
                    None => {},
                }
                Vec::new()
            },
            Command::Publish { topic, message, qos } => self.publish(
                topic.as_str(),
                message.as_str(),
                qos,
            ),
        }
    }

    /// Forgets the subscriptions of `topic` to which `report` holds a refused
    /// offer, and returns how many were forgotten. It is meant to be called
    /// with the report of a publish to `topic`, before any other command: a
    /// queue refuses only once it is closed, and a closed queue takes nothing
    /// ever again, so what is forgotten would have received nothing more.
    /// Without this call refused subscriptions stay in the registry.
    pub fn reap(&mut self, topic: &str, report: &Vec<Delivery>) -> (removed: usize)
        ensures
            final(self)@ == (if old(self)@.contains_key(topic@) {
                old(self)@.insert(
                    topic@,
                    without(old(self)@[topic@], refused(report@, old(self)@[topic@].len())),
                )
            } else {
                old(self)@
            }),
            removed == subscribers(old(self)@, topic@).len() - subscribers(
                final(self)@,
                topic@,
            ).len(),
    {
        let count: usize = self.registry.lookup(topic).len();
        let mut flagged: Vec<bool> = Vec::new();
        while flagged.len() < count
            invariant
                flagged@.len() <= count,
                forall|p: int| 0 <= p < flagged@.len() ==> !flagged@[p],
            decreases count - flagged@.len(),
        {
            flagged.push(false);
        }
        let mut k: usize = 0;
        while k < report.len()
            invariant
                k <= report@.len(),
                flagged@.len() == count,
                forall|p: int|
                    0 <= p < count ==> (#[trigger] flagged@[p] <==> exists|j: int|
                        0 <= j < k && (#[trigger] report@[j]).subscriber == p
                            && !report@[j].accepted),
            decreases report@.len() - k,
        {
            let delivery = report[k];
            if !delivery.accepted && delivery.subscriber < count {
                flagged.set(delivery.subscriber, true);
            }
            k = k + 1;
        }
        proof {
            assert(flagged@ =~= refused(report@, count as nat));
        }
        self.registry.remove_flagged(topic, &flagged)
    }
}

} // verus!
