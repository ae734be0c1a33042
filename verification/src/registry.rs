//! The subscriber registry: for each topic, the subscriptions registered for
//! it, in the order in which they were registered.

use crate::broker::Qos;
use crate::channel::DeliveryHandle;
use vstd::hash_map::StringHashMap;
use vstd::prelude::*;

verus! {

/// One registration: where deliveries go, and the level that was asked for.
#[derive(Debug)]
pub struct Subscription {
    pub handle: DeliveryHandle,
    pub qos: Qos,
}

/// The subscriptions that `registry` holds for `topic`; none where the topic
/// has no entry.
pub open spec fn subscribers(
    registry: Map<Seq<char>, Seq<Subscription>>,
    topic: Seq<char>,
) -> Seq<Subscription> {
    if registry.contains_key(topic) {
        registry[topic]
    } else {
        Seq::empty()
    }
}

/// Whether `flagged` marks position `p`. A position beyond its end is not
/// marked.
pub open spec fn is_flagged(flagged: Seq<bool>, p: int) -> bool {
    0 <= p < flagged.len() && flagged[p]
}

/// `subscriptions` without those at the positions that `flagged` marks; the
/// rest keep their order.
pub open spec fn without(subscriptions: Seq<Subscription>, flagged: Seq<bool>) -> Seq<
    Subscription,
>
    decreases subscriptions.len(),
{
    if subscriptions.len() == 0 {
        Seq::empty()
    } else {
        let rest = without(subscriptions.drop_last(), flagged);
        if is_flagged(flagged, subscriptions.len() - 1) {
            rest
        } else {
            rest.push(subscriptions.last())
        }
    }
}

/// Topic entries, each a sequence of subscriptions in registration order.
///
/// `index` gives each known topic its place in `slots`.
pub struct Registry {
    index: StringHashMap<usize>,
    slots: Vec<Vec<Subscription>>,
}

impl View for Registry {
    type V = Map<Seq<char>, Seq<Subscription>>;

    closed spec fn view(&self) -> Map<Seq<char>, Seq<Subscription>> {
        Map::new(
            |topic: Seq<char>| self.index@.contains_key(topic),
            |topic: Seq<char>| self.slots@[self.index@[topic] as int]@,
        )
    }
}

impl Registry {
    /// Every topic has a slot of its own.
    #[verifier::type_invariant]
    spec fn well_formed(self) -> bool {
        &&& forall|topic: Seq<char>| #[trigger]
            self.index@.contains_key(topic) ==> self.index@[topic] < self.slots@.len()
        &&& forall|a: Seq<char>, b: Seq<char>|
            #![trigger self.index@[a], self.index@[b]]
            self.index@.contains_key(a) && self.index@.contains_key(b) && self.index@[a]
                == self.index@[b] ==> a == b
    }

    /// A registry without topics.
    pub fn new() -> (registry: Registry)
        ensures
            registry@ == Map::<Seq<char>, Seq<Subscription>>::empty(),
    {
        let registry = Registry { index: StringHashMap::new(), slots: Vec::new() };
        registry
    }

    /// Appends `subscription` to the entry of `topic`, and creates the entry
    /// where there is none.
    pub fn register(&mut self, topic: String, subscription: Subscription)
        ensures
            final(self)@ == old(self)@.insert(
                topic@,
                subscribers(old(self)@, topic@).push(subscription),
            ),
    {
        proof {
            use_type_invariant(&*self);
        }
        let ghost before = *self;
        let mut index: StringHashMap<usize> = StringHashMap::new();
        let mut slots: Vec<Vec<Subscription>> = Vec::new();
        std::mem::swap(&mut index, &mut self.index);
        std::mem::swap(&mut slots, &mut self.slots);
        let known: Option<usize> = match index.get(topic.as_str()) {
            Some(at) => Some(*at),
            None => None,
        };
        match known {
            Some(at) => {
                slots[at].push(subscription);
            },
            None => {
                let at: usize = slots.len();
                slots.push(vec![subscription]);
                index.insert(topic, at);
            },
        }
        self.slots = slots;
        self.index = index;
        proof {
            // Every other topic has a slot of its own, which was not touched.
            assert forall|t: Seq<char>| #[trigger]
                self@.contains_key(t) && t != topic@ implies self@[t] == before@[t] by {
                assert(before.index@[t] != self.index@[topic@]);
            }
            let entry = subscribers(before@, topic@).push(subscription);
            assert(self@[topic@] =~= entry);
            assert(self@ =~= before@.insert(topic@, entry));
        }
    }

    /// Removes from the entry of `topic` the subscriptions at the positions
    /// that `flagged` marks, and returns how many were removed. The entry
    /// itself stays, even when it is left empty.
    pub fn remove_flagged(&mut self, topic: &str, flagged: &Vec<bool>) -> (removed: usize)
        ensures
            final(self)@ == (if old(self)@.contains_key(topic@) {
                old(self)@.insert(topic@, without(old(self)@[topic@], flagged@))
            } else {
                old(self)@
            }),
            removed == subscribers(old(self)@, topic@).len() - subscribers(
                final(self)@,
                topic@,
            ).len(),
    {
        proof {
            use_type_invariant(&*self);
        }
        let ghost before = *self;
        let known: Option<usize> = match self.index.get(topic) {
            Some(at) => Some(*at),
            None => None,
        };
        match known {
            None => 0,
            Some(at) => {
                let mut index: StringHashMap<usize> = StringHashMap::new();
                let mut slots: Vec<Vec<Subscription>> = Vec::new();
                std::mem::swap(&mut index, &mut self.index);
                std::mem::swap(&mut slots, &mut self.slots);
                let mut entry: Vec<Subscription> = Vec::new();
                std::mem::swap(&mut entry, &mut slots[at]);
                let ghost all = entry@;
                let total: usize = entry.len();
                let mut kept: Vec<Subscription> = Vec::new();
                let mut i: usize = 0;
                for subscription in it: entry
                    invariant
                        it.seq() == all,
                        all.len() == total,
                        i == it.index(),
                        kept@ == without(all.take(i as int), flagged@),
                        kept@.len() <= i,
                {
                    proof {
                        assert(all.take(i + 1).drop_last() =~= all.take(i as int));
                    }
                    if !(i < flagged.len() && flagged[i]) {
                        kept.push(subscription);
                    }
                    i = i + 1;
                }
                proof {
                    assert(all.take(i as int) =~= all);
                }
                let removed: usize = total - kept.len();
                std::mem::swap(&mut kept, &mut slots[at]);
                self.slots = slots;
                self.index = index;
                proof {
                    // Every other topic has a slot of its own, which was not touched.
                    assert forall|t: Seq<char>| #[trigger]
                        self@.contains_key(t) && t != topic@ implies self@[t] == before@[t] by {
                        assert(before.index@[t] != before.index@[topic@]);
                    }
                    assert(self@ =~= before@.insert(
                        topic@,
                        without(before@[topic@], flagged@),
                    ));
                }
                removed
            },
        }
    }

    /// The subscriptions registered for `topic`, oldest first.
    pub fn lookup(&self, topic: &str) -> (found: &[Subscription])
        ensures
            found@ == subscribers(self@, topic@),
    {
        proof {
            use_type_invariant(self);
        }
        match self.index.get(topic) {
            Some(at) => self.slots[*at].as_slice(),
            None => &[],
        }
    }
}

} // verus!
