//! What holds of the dispatcher whatever the registry holds and whatever the
//! commands are, stated over the model that its contracts use.

use crate::broker::{CommandView, Qos};
use crate::channel::DeliveryHandle;
use crate::dispatch::{apply, delivers, fan_out, recipients, run, Offer};
use crate::registry::{is_flagged, subscribers, without, Subscription};
use crate::text::{
    is_word, lemma_split_single_word, lemma_split_word_then_space, split_whitespace,
};
use vstd::prelude::*;

verus! {

/// The policy's table: an offer is made exactly when one side is `Low`. Two
/// `Medium` sides get nothing, and neither does a pair with a `High` side
/// and no `Low` side.
pub proof fn law_policy_table(publisher: Qos, subscriber: Qos)
    ensures
        delivers(publisher, subscriber) <==> (subscriber == Qos::Low || publisher == Qos::Low),
        publisher == Qos::Medium && subscriber == Qos::Medium ==> !delivers(publisher, subscriber),
        (publisher == Qos::High || subscriber == Qos::High) && publisher != Qos::Low && subscriber
            != Qos::Low ==> !delivers(publisher, subscriber),
{
}

/// The recipients of a publish are exactly the positions whose subscription
/// the policy admits, each once and in registration order.
pub proof fn law_recipients_are_the_admitted(subscriptions: Seq<Subscription>, qos: Qos)
    ensures
        forall|k: int|
            0 <= k < recipients(subscriptions, qos).len() ==> 0 <= #[trigger] recipients(
                subscriptions,
                qos,
            )[k] < subscriptions.len(),
        forall|j: int, k: int|
            0 <= j < k < recipients(subscriptions, qos).len() ==> recipients(subscriptions, qos)[j]
                < recipients(subscriptions, qos)[k],
        forall|p: int|
            0 <= p < subscriptions.len() ==> (recipients(subscriptions, qos).contains(p)
                <==> delivers(qos, #[trigger] subscriptions[p].qos)),
    decreases subscriptions.len(),
{
    let all = recipients(subscriptions, qos);
    if subscriptions.len() > 0 {
        let front = subscriptions.drop_last();
        let rest = recipients(front, qos);
        let last = subscriptions.len() - 1;
        law_recipients_are_the_admitted(front, qos);
        assert forall|p: int| 0 <= p < subscriptions.len() implies (all.contains(p) <==> delivers(
            qos,
            #[trigger] subscriptions[p].qos,
        )) by {
            if p < last {
                assert(front[p] == subscriptions[p]);
                if rest.contains(p) {
                    let k = choose|k: int| 0 <= k < rest.len() && rest[k] == p;
                    assert(all[k] == p);
                }
            } else if delivers(qos, subscriptions[p].qos) {
                assert(all[rest.len() as int] == p);
            }
        }
    }
}

/// A publish at `Low` is offered to every subscription of the topic.
pub proof fn law_low_publish_reaches_all(subscriptions: Seq<Subscription>)
    ensures
        recipients(subscriptions, Qos::Low) == Seq::new(subscriptions.len(), |p: int| p),
    decreases subscriptions.len(),
{
    if subscriptions.len() > 0 {
        law_low_publish_reaches_all(subscriptions.drop_last());
    }
}

/// A publish to a topic without subscriptions offers nothing to anyone and
/// leaves the registry as it was.
pub proof fn law_publish_without_subscribers_is_silent(
    registry: Map<Seq<char>, Seq<Subscription>>,
    topic: Seq<char>,
    message: Seq<char>,
    qos: Qos,
    handle: Option<DeliveryHandle>,
)
    requires
        subscribers(registry, topic).len() == 0,
    ensures
        fan_out(registry, CommandView::Publish { topic, message, qos }) == Seq::<Offer>::empty(),
        apply(registry, CommandView::Publish { topic, message, qos }, handle) == registry,
{
}

/// One more subscription adds one offer at the end of each publish that the
/// policy lets through to it, and changes no other offer.
pub proof fn law_subscription_adds_one_offer(
    registry: Map<Seq<char>, Seq<Subscription>>,
    topic: Seq<char>,
    qos: Qos,
    handle: DeliveryHandle,
    message: Seq<char>,
    level: Qos,
)
    ensures
        fan_out(
            apply(registry, CommandView::Subscribe { topic, qos }, Some(handle)),
            CommandView::Publish { topic, message, qos: level },
        ) == fan_out(registry, CommandView::Publish { topic, message, qos: level }) + (if delivers(
            level,
            qos,
        ) {
            seq![Offer { handle, topic, message }]
        } else {
            Seq::empty()
        }),
{
    let before = subscribers(registry, topic);
    let after = subscribers(
        apply(registry, CommandView::Subscribe { topic, qos }, Some(handle)),
        topic,
    );
    assert(after.drop_last() =~= before);
    law_recipients_are_the_admitted(before, level);
}

/// Subscribing the same handle to the same topic twice is not folded into
/// one: each publish that the policy lets through is then offered to that
/// handle twice more than before.
pub proof fn law_double_subscription_is_served_twice(
    registry: Map<Seq<char>, Seq<Subscription>>,
    topic: Seq<char>,
    qos: Qos,
    handle: DeliveryHandle,
    message: Seq<char>,
    level: Qos,
)
    ensures
        ({
            let subscribe = CommandView::Subscribe { topic, qos };
            let publish = CommandView::Publish { topic, message, qos: level };
            let once = apply(registry, subscribe, Some(handle));
            let twice = apply(once, subscribe, Some(handle));
            let offer = Offer { handle, topic, message };
            fan_out(twice, publish) == fan_out(registry, publish) + (if delivers(level, qos) {
                seq![offer, offer]
            } else {
                Seq::empty()
            })
        }),
{
    let once = apply(registry, CommandView::Subscribe { topic, qos }, Some(handle));
    law_subscription_adds_one_offer(registry, topic, qos, handle, message, level);
    law_subscription_adds_one_offer(once, topic, qos, handle, message, level);
}

/// Every offer of a publish carries the published topic and message and goes
/// to a handle that is subscribed to that topic.
pub proof fn law_offers_go_to_subscribers_of_the_topic(
    registry: Map<Seq<char>, Seq<Subscription>>,
    topic: Seq<char>,
    message: Seq<char>,
    qos: Qos,
)
    ensures
        forall|k: int|
            0 <= k < fan_out(registry, CommandView::Publish { topic, message, qos }).len() ==> {
                let offer = #[trigger] fan_out(
                    registry,
                    CommandView::Publish { topic, message, qos },
                )[k];
                &&& offer.topic == topic
                &&& offer.message == message
                &&& exists|p: int|
                    0 <= p < subscribers(registry, topic).len() && (#[trigger] subscribers(
                        registry,
                        topic,
                    )[p]).handle == offer.handle
            },
{
    law_recipients_are_the_admitted(subscribers(registry, topic), qos);
}

/// A publish to one topic reaches no subscriber of another: a handle that is
/// not subscribed to `topic` is offered nothing by a publish to it, whatever
/// else it is subscribed to.
pub proof fn law_publish_reaches_no_other_topic(
    registry: Map<Seq<char>, Seq<Subscription>>,
    topic: Seq<char>,
    message: Seq<char>,
    qos: Qos,
    handle: DeliveryHandle,
)
    requires
        forall|p: int|
            0 <= p < subscribers(registry, topic).len() ==> (#[trigger] subscribers(
                registry,
                topic,
            )[p]).handle != handle,
    ensures
        forall|k: int|
            0 <= k < fan_out(registry, CommandView::Publish { topic, message, qos }).len() ==> (
            #[trigger] fan_out(registry, CommandView::Publish { topic, message, qos })[k]).handle
                != handle,
{
    law_offers_go_to_subscribers_of_the_topic(registry, topic, message, qos);
}

/// What is subscribed to one topic has no part in a publish to another: a
/// subscribe to `other` changes no offer of a publish to `topic`.
pub proof fn law_topics_are_isolated(
    registry: Map<Seq<char>, Seq<Subscription>>,
    topic: Seq<char>,
    other: Seq<char>,
    qos: Qos,
    handle: Option<DeliveryHandle>,
    message: Seq<char>,
    level: Qos,
)
    requires
        topic != other,
    ensures
        fan_out(
            apply(registry, CommandView::Subscribe { topic: other, qos }, handle),
            CommandView::Publish { topic, message, qos: level },
        ) == fan_out(registry, CommandView::Publish { topic, message, qos: level }),
{
}

/// Commands only ever add: after any command every topic still has the
/// subscriptions it had, in their order, at the front of its entry, and an
/// entry that exists is never without the subscription that created it.
pub proof fn law_commands_keep_subscriptions(
    registry: Map<Seq<char>, Seq<Subscription>>,
    command: CommandView,
    handle: Option<DeliveryHandle>,
    topic: Seq<char>,
)
    ensures
        registry.contains_key(topic) ==> apply(registry, command, handle).contains_key(topic),
        subscribers(registry, topic).is_prefix_of(
            subscribers(apply(registry, command, handle), topic),
        ),
        !registry.contains_key(topic) && apply(registry, command, handle).contains_key(topic)
            ==> subscribers(apply(registry, command, handle), topic).len() == 1,
{
}

/// Commands take effect in the order in which they are handed over: running
/// one batch after another is running the two as one sequence, and the
/// offers of the first batch all come before those of the second.
pub proof fn law_commands_apply_in_order(
    registry: Map<Seq<char>, Seq<Subscription>>,
    first: Seq<(CommandView, Option<DeliveryHandle>)>,
    second: Seq<(CommandView, Option<DeliveryHandle>)>,
)
    ensures
        run(registry, first + second).0 == run(run(registry, first).0, second).0,
        run(registry, first + second).1 == run(registry, first).1 + run(
            run(registry, first).0,
            second,
        ).1,
    decreases second.len(),
{
    if second.len() > 0 {
        let front = second.drop_last();
        law_commands_apply_in_order(registry, first, front);
        assert((first + second).drop_last() =~= first + front);
    }
}

/// A subscriber at `Low` that subscribes and then sees two publishes to its
/// topic is offered the first message before the second.
pub proof fn law_messages_arrive_in_publish_order(
    registry: Map<Seq<char>, Seq<Subscription>>,
    topic: Seq<char>,
    handle: DeliveryHandle,
    earlier: Seq<char>,
    later: Seq<char>,
)
    ensures
        ({
            let inputs = seq![
                (CommandView::Subscribe { topic, qos: Qos::Low }, Some(handle)),
                (CommandView::Publish { topic, message: earlier, qos: Qos::Low }, None),
                (CommandView::Publish { topic, message: later, qos: Qos::Low }, None),
            ];
            let trace = run(registry, inputs).1;
            let count = subscribers(registry, topic).len() as int;
            &&& trace.len() == 2 * (count + 1)
            &&& trace[count] == Offer { handle, topic, message: earlier }
            &&& trace[2 * count + 1] == Offer { handle, topic, message: later }
        }),
{
    let subscribe = (CommandView::Subscribe { topic, qos: Qos::Low }, Some(handle));
    let first = (CommandView::Publish { topic, message: earlier, qos: Qos::Low }, None);
    let second = (CommandView::Publish { topic, message: later, qos: Qos::Low }, None);
    let inputs = seq![subscribe, first, second];
    let subscribed = apply(registry, subscribe.0, subscribe.1);
    let entry = subscribers(subscribed, topic);
    law_low_publish_reaches_all(entry);

    let none = Seq::<(CommandView, Option<DeliveryHandle>)>::empty();
    assert(inputs.drop_last() =~= seq![subscribe, first]);
    assert(inputs.drop_last().drop_last() =~= seq![subscribe]);
    assert(seq![subscribe].drop_last() =~= none);
    assert(run(registry, none) == (registry, Seq::<Offer>::empty()));
    assert(run(registry, seq![subscribe]).1 =~= Seq::<Offer>::empty());
    assert(run(registry, seq![subscribe, first]).1 =~= fan_out(subscribed, first.0));
}

/// Flags that mark nothing remove nothing.
pub proof fn law_nothing_flagged_nothing_removed(
    subscriptions: Seq<Subscription>,
    flagged: Seq<bool>,
)
    requires
        forall|p: int| 0 <= p < flagged.len() ==> !flagged[p],
    ensures
        without(subscriptions, flagged) == subscriptions,
    decreases subscriptions.len(),
{
    if subscriptions.len() > 0 {
        law_nothing_flagged_nothing_removed(subscriptions.drop_last(), flagged);
    }
}

/// Removing the flagged subscriptions keeps exactly the others, in their
/// order: `origin` gives, for each subscription that is left, the position
/// it had before.
pub proof fn law_removal_keeps_the_rest_in_order(
    subscriptions: Seq<Subscription>,
    flagged: Seq<bool>,
) -> (origin: Seq<int>)
    ensures
        origin.len() == without(subscriptions, flagged).len(),
        forall|k: int|
            0 <= k < origin.len() ==> {
                &&& 0 <= #[trigger] origin[k] < subscriptions.len()
                &&& !is_flagged(flagged, origin[k])
                &&& without(subscriptions, flagged)[k] == subscriptions[origin[k]]
            },
        forall|j: int, k: int| 0 <= j < k < origin.len() ==> origin[j] < origin[k],
        forall|p: int|
            0 <= p < subscriptions.len() && !is_flagged(flagged, p) ==> origin.contains(p),
    decreases subscriptions.len(),
{
    if subscriptions.len() == 0 {
        Seq::empty()
    } else {
        let front = subscriptions.drop_last();
        let last = subscriptions.len() - 1;
        let before = law_removal_keeps_the_rest_in_order(front, flagged);
        let origin = if is_flagged(flagged, last) {
            before
        } else {
            before.push(last)
        };
        assert forall|p: int|
            0 <= p < subscriptions.len() && !is_flagged(flagged, p) implies origin.contains(
            p,
        ) by {
            if p < last {
                let k = choose|k: int| 0 <= k < before.len() && before[k] == p;
                assert(origin[k] == p);
            } else {
                assert(origin[before.len() as int] == p);
            }
        }
        origin
    }
}

/// The broker's level that a client's level stands for.
pub open spec fn relayed_qos(qos: crate::client::Qos) -> Qos {
    match qos {
        crate::client::Qos::Low => Qos::Low,
        crate::client::Qos::Medium => Qos::Medium,
        crate::client::Qos::High => Qos::High,
    }
}

/// The digit that the client writes for a level is read by the broker as
/// that level.
proof fn lemma_digit_is_read_back(qos: crate::client::Qos)
    ensures
        crate::broker::qos_of(seq![crate::client::digit_of(qos)]) == relayed_qos(qos),
{
    reveal_strlit("1");
    reveal_strlit("2");
    let written = seq![crate::client::digit_of(qos)];
    assert("1"@ =~= seq!['1']);
    assert("2"@ =~= seq!['2']);
    assert(written[0] == crate::client::digit_of(qos));
}

/// A request that the client writes for a subscribe or a publish is read by
/// the broker as the same command, provided that the topic and the message
/// are each one word.
pub proof fn law_requests_survive_the_wire(command: crate::client::CommandView)
    requires
        command matches crate::client::CommandView::Subscribe { topic, qos } ==> is_word(topic),
        command matches crate::client::CommandView::Publish { topic, message, qos } ==> is_word(
            topic,
        ) && is_word(message),
    ensures
        command matches crate::client::CommandView::Subscribe { topic, qos }
            ==> crate::broker::request_of(
            split_whitespace(crate::client::wire_form(command)->0),
        ) == Ok::<CommandView, crate::broker::RequestError>(
            CommandView::Subscribe { topic, qos: relayed_qos(qos) },
        ),
        command matches crate::client::CommandView::Publish { topic, message, qos }
            ==> crate::broker::request_of(
            split_whitespace(crate::client::wire_form(command)->0),
        ) == Ok::<CommandView, crate::broker::RequestError>(
            CommandView::Publish { topic, message, qos: relayed_qos(qos) },
        ),
{
    reveal_strlit("SUBSCRIBE ");
    reveal_strlit("SUBSCRIBE");
    reveal_strlit("PUBLISH ");
    reveal_strlit("PUBLISH");
    match command {
        crate::client::CommandView::Subscribe { topic, qos } => {
            let verb = "SUBSCRIBE"@;
            let level = seq![crate::client::digit_of(qos)];
            let line = crate::client::wire_form(command)->0;
            assert(line =~= verb + seq![' '] + (topic + seq![' '] + level));
            assert(is_word(verb));
            lemma_split_word_then_space(verb, topic + seq![' '] + level);
            lemma_split_word_then_space(topic, level);
            lemma_split_single_word(level);
            assert(split_whitespace(line) =~= seq![verb, topic, level]);
            lemma_digit_is_read_back(qos);
        },
        crate::client::CommandView::Publish { topic, message, qos } => {
            let verb = "PUBLISH"@;
            let level = seq![crate::client::digit_of(qos)];
            let line = crate::client::wire_form(command)->0;
            assert(line =~= verb + seq![' '] + (topic + seq![' '] + (message + seq![' '] + level)));
            assert(is_word(verb));
            lemma_split_word_then_space(verb, topic + seq![' '] + (message + seq![' '] + level));
            lemma_split_word_then_space(topic, message + seq![' '] + level);
            lemma_split_word_then_space(message, level);
            lemma_split_single_word(level);
            assert(split_whitespace(line) =~= seq![verb, topic, message, level]);
            assert(verb[0] != "SUBSCRIBE"@[0]);
            lemma_digit_is_read_back(qos);
        },
        crate::client::CommandView::Help => {},
    }
}

/// A delivery that the broker writes is taken apart by the client into the
/// topic and the message it was made of, provided that the topic holds no
/// space.
pub proof fn law_deliveries_survive_the_wire(topic: Seq<char>, message: Seq<char>)
    requires
        forall|k: int| 0 <= k < topic.len() ==> topic[k] != ' ',
    ensures
        crate::client::delivery_parts(crate::broker::delivery_text(topic, message)) == (
            topic,
            message,
        ),
{
    crate::client::lemma_first_space_is(
        crate::broker::delivery_text(topic, message),
        topic.len() as int,
    );
}

} // verus!
