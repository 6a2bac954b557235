//! The broker's subscription table and fan-out.
//!
//! The table is touched only by the broker's own drain loop, one message at a
//! time, so it needs no locking.
use crate::message::{InternalMessage, Payload, SystemSignal};
use crate::reactor::Route;
use vstd::prelude::*;

verus! {

/// The subscribers of `type_tag`, in the order in which they subscribed.
pub open spec fn fan_out_spec(subs: Seq<(u64, u64)>, type_tag: u64) -> Seq<u64>
    decreases subs.len(),
{
    if subs.len() == 0 {
        Seq::empty()
    } else if subs.last().0 == type_tag {
        fan_out_spec(subs.drop_last(), type_tag).push(subs.last().1)
    } else {
        fan_out_spec(subs.drop_last(), type_tag)
    }
}

/// Where a payload goes in the broker: a request is published, a
/// subscription change applied, and a plain message has nowhere to go.
pub open spec fn broker_route_spec<B>(p: Payload<B>) -> Route {
    match p {
        Payload::BrokerRequest { type_tag, .. } => Route::Publish(type_tag),
        Payload::Internal(msg) => Route::Control(msg),
        Payload::Signal(SystemSignal::Terminate) => Route::Terminate,
        Payload::Message { .. } => Route::Unhandled,
    }
}

/// Where `payload` goes in the broker.
pub fn broker_route<B>(payload: &Payload<B>) -> (r: Route)
    ensures
        r == broker_route_spec(*payload),
{
    match payload {
        Payload::BrokerRequest { type_tag, .. } => Route::Publish(*type_tag),
        Payload::Internal(msg) => Route::Control(*msg),
        Payload::Signal(SystemSignal::Terminate) => Route::Terminate,
        Payload::Message { .. } => Route::Unhandled,
    }
}

/// `subs` without the pair `(type_tag, subscriber)`.
pub open spec fn without(subs: Seq<(u64, u64)>, pair: (u64, u64)) -> Seq<(u64, u64)> {
    subs.filter(|p: (u64, u64)| p != pair)
}

/// Subscriptions, as (type tag, subscriber key) pairs in subscription order.
pub struct Broker {
    key: u64,
    subscriptions: Vec<(u64, u64)>,
}

impl View for Broker {
    type V = Seq<(u64, u64)>;

    closed spec fn view(&self) -> Seq<(u64, u64)> {
        self.subscriptions@
    }
}

proof fn lemma_fan_out_members(subs: Seq<(u64, u64)>, type_tag: u64, s: u64)
    ensures
        fan_out_spec(subs, type_tag).contains(s) <==> subs.contains((type_tag, s)),
    decreases subs.len(),
{
    if subs.len() > 0 {
        lemma_fan_out_members(subs.drop_last(), type_tag, s);
        let rest = fan_out_spec(subs.drop_last(), type_tag);
        if subs.contains((type_tag, s)) {
            let i = choose|i: int| 0 <= i < subs.len() && subs[i] == (type_tag, s);
            if i < subs.len() - 1 {
                assert(subs.drop_last()[i] == (type_tag, s));
            }
        }
        if subs.drop_last().contains((type_tag, s)) {
            let i = choose|i: int|
                0 <= i < subs.drop_last().len() && subs.drop_last()[i] == (type_tag, s);
            assert(subs[i] == (type_tag, s));
        }
        if subs.last().0 == type_tag {
            assert(rest.push(subs.last().1).last() == subs.last().1);
            if rest.push(subs.last().1).contains(s) {
                let i = choose|i: int|
                    0 <= i < rest.push(subs.last().1).len() && rest.push(subs.last().1)[i] == s;
                if i < rest.len() {
                    assert(rest[i] == s);
                }
            }
            if rest.contains(s) {
                let i = choose|i: int| 0 <= i < rest.len() && rest[i] == s;
                assert(rest.push(subs.last().1)[i] == s);
            }
        }
    }
}

proof fn lemma_fan_out_distinct(subs: Seq<(u64, u64)>, type_tag: u64)
    requires
        subs.no_duplicates(),
    ensures
        fan_out_spec(subs, type_tag).no_duplicates(),
    decreases subs.len(),
{
    if subs.len() > 0 {
        let init = subs.drop_last();
        assert(init.no_duplicates()) by {
            assert forall|i: int, j: int| 0 <= i < j < init.len() implies init[i] != init[j] by {
                assert(init[i] == subs[i] && init[j] == subs[j]);
            }
        }
        lemma_fan_out_distinct(init, type_tag);
        if subs.last().0 == type_tag {
            let rest = fan_out_spec(init, type_tag);
            let s = subs.last().1;
            lemma_fan_out_members(init, type_tag, s);
            if init.contains((type_tag, s)) {
                let i = choose|i: int| 0 <= i < init.len() && init[i] == (type_tag, s);
                assert(subs[i] == subs[subs.len() - 1]);
            }
            assert(!rest.contains(s));
            let r = rest.push(s);
            assert forall|i: int, j: int| 0 <= i < j < r.len() implies r[i] != r[j] by {
                if j == r.len() - 1 {
                    assert(r[i] == rest[i]);
                    assert(rest.contains(rest[i]));
                } else {
                    assert(r[i] == rest[i] && r[j] == rest[j]);
                }
            }
        }
    }
}

impl Broker {
    /// No subscription is recorded twice.
    pub open spec fn wf(&self) -> bool {
        self@.no_duplicates()
    }

    /// A broker, known to others by `key`, with no subscriptions.
    pub fn new(key: u64) -> (r: Broker)
        ensures
            r.wf(),
            r@ == Seq::<(u64, u64)>::empty(),
            r.key_spec() == key,
    {
        Broker { key, subscriptions: Vec::new() }
    }

    pub closed spec fn key_spec(&self) -> u64 {
        self.key
    }

    pub fn key(&self) -> (r: u64)
        ensures
            r == self.key_spec(),
    {
        self.key
    }

    fn position(&self, pair: (u64, u64)) -> (r: Option<usize>)
        ensures
            r matches Some(i) ==> i < self@.len() && self@[i as int] == pair,
            r is None ==> !self@.contains(pair),
    {
        let mut i: usize = 0;
        while i < self.subscriptions.len()
            invariant
                0 <= i <= self@.len(),
                forall|j: int| 0 <= j < i ==> self@[j] != pair,
            decreases self@.len() - i,
        {
            if self.subscriptions[i].0 == pair.0 && self.subscriptions[i].1 == pair.1 {
                return Some(i);
            }
            i += 1;
        }
        None
    }

    /// Whether `subscriber` receives broker requests of type `type_tag`.
    pub fn is_subscribed(&self, type_tag: u64, subscriber: u64) -> (r: bool)
        ensures
            r == self@.contains((type_tag, subscriber)),
    {
        self.position((type_tag, subscriber)).is_some()
    }

    /// Adds `subscriber` to the subscribers of `type_tag`; subscribing twice
    /// is the same as subscribing once.
    pub fn subscribe(&mut self, type_tag: u64, subscriber: u64)
        requires
            old(self).wf(),
        ensures
            final(self).wf(),
            final(self).key_spec() == old(self).key_spec(),
            old(self)@.contains((type_tag, subscriber)) ==> final(self)@ == old(self)@,
            !old(self)@.contains((type_tag, subscriber)) ==> final(self)@ == old(self)@.push(
                (type_tag, subscriber),
            ),
    {
        if self.position((type_tag, subscriber)).is_none() {
            let ghost old_v = self@;
            self.subscriptions.push((type_tag, subscriber));
            proof {
                let v = self@;
                assert forall|i: int, j: int| 0 <= i < j < v.len() implies v[i] != v[j] by {
                    if j == v.len() - 1 {
                        assert(v[i] == old_v[i]);
                        assert(old_v.contains(old_v[i]));
                    }
                }
            }
        }
    }

    /// Removes `subscriber` from the subscribers of `type_tag`.
    pub fn unsubscribe(&mut self, type_tag: u64, subscriber: u64)
        requires
            old(self).wf(),
        ensures
            final(self).wf(),
            final(self).key_spec() == old(self).key_spec(),
            final(self)@ == without(old(self)@, (type_tag, subscriber)),
    {
        let pair = (type_tag, subscriber);
        let ghost old_v = self@;
        match self.position(pair) {
            None => {
                proof {
                    lemma_filter_keeps_all(old_v, pair);
                }
            },
            Some(i) => {
                self.subscriptions.remove(i);
                proof {
                    lemma_remove_unique(old_v, i as int, pair);
                    let v = self@;
                    assert forall|a: int, b: int| 0 <= a < b < v.len() implies v[a] != v[b] by {
                        let a2 = if a < i { a } else { a + 1 };
                        let b2 = if b < i { b } else { b + 1 };
                        assert(v[a] == old_v[a2] && v[b] == old_v[b2]);
                    }
                }
            },
        }
    }

    /// Applies a subscription change.
    pub fn apply(&mut self, msg: InternalMessage)
        requires
            old(self).wf(),
        ensures
            final(self).wf(),
            final(self).key_spec() == old(self).key_spec(),
            msg matches InternalMessage::Subscribe { type_tag, subscriber } ==> (if old(self)@.contains(
                (type_tag, subscriber),
            ) {
                final(self)@ == old(self)@
            } else {
                final(self)@ == old(self)@.push((type_tag, subscriber))
            }),
            msg matches InternalMessage::Unsubscribe { type_tag, subscriber } ==> final(self)@
                == without(old(self)@, (type_tag, subscriber)),
    {
        match msg {
            InternalMessage::Subscribe { type_tag, subscriber } => self.subscribe(type_tag, subscriber),
            InternalMessage::Unsubscribe { type_tag, subscriber } => self.unsubscribe(
                type_tag,
                subscriber,
            ),
        }
    }

    /// The subscribers to hand a broker request of type `type_tag` on to:
    /// each exactly once, in subscription order.
    pub fn fan_out(&self, type_tag: u64) -> (r: Vec<u64>)
        ensures
            r@ == fan_out_spec(self@, type_tag),
    {
        let mut out: Vec<u64> = Vec::new();
        let mut i: usize = 0;
        while i < self.subscriptions.len()
            invariant
                0 <= i <= self@.len(),
                out@ == fan_out_spec(self@.subrange(0, i as int), type_tag),
            decreases self@.len() - i,
        {
            proof {
                let next = self@.subrange(0, i + 1);
                assert(next.drop_last() =~= self@.subrange(0, i as int));
                assert(next.last() == self@[i as int]);
            }
            if self.subscriptions[i].0 == type_tag {
                out.push(self.subscriptions[i].1);
            }
            i += 1;
        }
        assert(self@.subrange(0, self@.len() as int) =~= self@);
        out
    }
}

proof fn lemma_filter_keeps_all(s: Seq<(u64, u64)>, pair: (u64, u64))
    requires
        !s.contains(pair),
    ensures
        without(s, pair) == s,
    decreases s.len(),
{
    reveal(Seq::filter);
    if s.len() > 0 {
        assert(!s.drop_last().contains(pair)) by {
            if s.drop_last().contains(pair) {
                let i = choose|i: int| 0 <= i < s.drop_last().len() && s.drop_last()[i] == pair;
                assert(s[i] == pair);
            }
        }
        lemma_filter_keeps_all(s.drop_last(), pair);
        assert(s.last() != pair) by {
            assert(s[s.len() - 1] == s.last());
        }
        assert(s.drop_last().push(s.last()) =~= s);
    }
}

proof fn lemma_remove_unique(s: Seq<(u64, u64)>, i: int, pair: (u64, u64))
    requires
        s.no_duplicates(),
        0 <= i < s.len(),
        s[i] == pair,
    ensures
        without(s, pair) == s.remove(i),
    decreases s.len(),
{
    reveal(Seq::filter);
    let init = s.drop_last();
    assert(init.no_duplicates()) by {
        assert forall|a: int, b: int| 0 <= a < b < init.len() implies init[a] != init[b] by {
            assert(init[a] == s[a] && init[b] == s[b]);
        }
    }
    if i == s.len() - 1 {
        assert(!init.contains(pair)) by {
            if init.contains(pair) {
                let j = choose|j: int| 0 <= j < init.len() && init[j] == pair;
                assert(s[j] == s[i]);
            }
        }
        lemma_filter_keeps_all(init, pair);
        assert(s.remove(i) =~= init);
    } else {
        lemma_remove_unique(init, i, pair);
        assert(s.last() != pair) by {
            assert(s[s.len() - 1] != s[i]);
        }
        assert(init.remove(i).push(s.last()) =~= s.remove(i));
    }
}

/// Broker fan-out: every subscriber of a type receives a published request of
/// that type exactly once, and nobody else receives it.
pub proof fn lemma_fan_out_exactly_once(subs: Seq<(u64, u64)>, type_tag: u64, s: u64)
    requires
        subs.no_duplicates(),
    ensures
        fan_out_spec(subs, type_tag).no_duplicates(),
        fan_out_spec(subs, type_tag).contains(s) <==> subs.contains((type_tag, s)),
{
    lemma_fan_out_distinct(subs, type_tag);
    lemma_fan_out_members(subs, type_tag, s);
}

/// Subscribing makes a subscriber receive the type's requests exactly once;
/// unsubscribing stops them.
pub proof fn lemma_subscribe_then_fan_out(subs: Seq<(u64, u64)>, type_tag: u64, s: u64)
    requires
        subs.no_duplicates(),
    ensures
        ({
            let after = if subs.contains((type_tag, s)) { subs } else { subs.push((type_tag, s)) };
            &&& fan_out_spec(after, type_tag).contains(s)
            &&& fan_out_spec(after, type_tag).no_duplicates()
        }),
        !fan_out_spec(without(subs, (type_tag, s)), type_tag).contains(s),
{
    let after = if subs.contains((type_tag, s)) { subs } else { subs.push((type_tag, s)) };
    assert(after.no_duplicates()) by {
        if !subs.contains((type_tag, s)) {
            assert forall|i: int, j: int| 0 <= i < j < after.len() implies after[i] != after[j] by {
                if j == after.len() - 1 {
                    assert(after[i] == subs[i]);
                    assert(subs.contains(subs[i]));
                }
            }
        }
    }
    assert(after.contains((type_tag, s))) by {
        if !subs.contains((type_tag, s)) {
            assert(after[after.len() - 1] == (type_tag, s));
        }
    }
    lemma_fan_out_exactly_once(after, type_tag, s);
    let rest = without(subs, (type_tag, s));
    lemma_without_excludes(subs, (type_tag, s));
    lemma_fan_out_members(rest, type_tag, s);
}

proof fn lemma_without_excludes(s: Seq<(u64, u64)>, pair: (u64, u64))
    ensures
        !without(s, pair).contains(pair),
    decreases s.len(),
{
    reveal(Seq::filter);
    if s.len() > 0 {
        lemma_without_excludes(s.drop_last(), pair);
        let rest = without(s.drop_last(), pair);
        if s.last() != pair {
            assert(without(s, pair) == rest.push(s.last()));
            if rest.push(s.last()).contains(pair) {
                let i = choose|i: int| 0 <= i < rest.push(s.last()).len() && rest.push(s.last())[i] == pair;
                if i < rest.len() {
                    assert(rest[i] == pair);
                }
            }
        } else {
            assert(without(s, pair) == rest);
        }
    }
}

} // verus!
