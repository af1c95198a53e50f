//! The subscription registry.
//!
//! A [`MessageBus`] stores the endpoints (at most one per topic, consulted by
//! point-to-point `Send`) and the pattern subscriptions (many per topic,
//! consulted by fan-out `Publish`). The registry is mutated only by the
//! scheduler interpreting yielded commands, never by a running handler
//! directly.
//!
//! Both stores keep their entries in insertion order, which makes the
//! iteration order consulted by `Publish` deterministic for a fixed registry
//! state. Replacing an entry (registering or subscribing over an existing
//! key) moves it to the end of that order.

use vstd::prelude::*;
use vstd::string::StringExecFns;
use crate::actor::Actor;
use crate::matching::pattern_matches;
use crate::matching::topic_matches;
use crate::subscription::Subscription;

verus! {

/// Some entry of `eps` is stored under `topic`.
pub open spec fn has_topic<H>(eps: Seq<Subscription<H>>, topic: Seq<char>) -> bool {
    exists|i: int| 0 <= i < eps.len() && eps[i].topic@ == topic
}

/// The position of the entry of `eps` stored under `topic`. Meaningful only
/// when `has_topic(eps, topic)` holds and topics are unique.
pub open spec fn topic_index<H>(eps: Seq<Subscription<H>>, topic: Seq<char>) -> int {
    choose|i: int| 0 <= i < eps.len() && eps[i].topic@ == topic
}

/// Some entry of `subs` has the identity `key`.
pub open spec fn has_key<H>(subs: Seq<Subscription<H>>, key: (Seq<char>, Seq<char>)) -> bool {
    exists|i: int| 0 <= i < subs.len() && subs[i].key() == key
}

/// The position of the entry of `subs` with identity `key`. Meaningful only
/// when `has_key(subs, key)` holds and keys are unique.
pub open spec fn key_index<H>(subs: Seq<Subscription<H>>, key: (Seq<char>, Seq<char>)) -> int {
    choose|i: int| 0 <= i < subs.len() && subs[i].key() == key
}

/// No two entries share a topic: at most one endpoint per topic.
pub open spec fn unique_topics<H>(eps: Seq<Subscription<H>>) -> bool {
    forall|i: int, j: int| 0 <= i < j < eps.len() ==> eps[i].topic@ != eps[j].topic@
}

/// No two entries share a `(topic, handler_id)` key: a subscription is
/// uniquely addressable by its identity.
pub open spec fn unique_keys<H>(subs: Seq<Subscription<H>>) -> bool {
    forall|i: int, j: int| 0 <= i < j < subs.len() ==> subs[i].key() != subs[j].key()
}

/// The effect of `register` on the endpoint store: the entry under the
/// subscription's topic, if any, is replaced; the new entry stands at the end
/// of the iteration order.
pub open spec fn spec_register<H>(
    eps: Seq<Subscription<H>>,
    sub: Subscription<H>,
) -> Seq<Subscription<H>> {
    if has_topic(eps, sub.topic@) {
        eps.remove(topic_index(eps, sub.topic@)).push(sub)
    } else {
        eps.push(sub)
    }
}

/// The effect of `deregister` on the endpoint store: the entry under `topic`
/// is removed if present; a no-op otherwise.
pub open spec fn spec_deregister<H>(
    eps: Seq<Subscription<H>>,
    topic: Seq<char>,
) -> Seq<Subscription<H>> {
    if has_topic(eps, topic) {
        eps.remove(topic_index(eps, topic))
    } else {
        eps
    }
}

/// The effect of `subscribe` on the subscription store: the entry with the
/// subscription's key, if any, is replaced; the new entry stands at the end
/// of the iteration order.
pub open spec fn spec_subscribe<H>(
    subs: Seq<Subscription<H>>,
    sub: Subscription<H>,
) -> Seq<Subscription<H>> {
    if has_key(subs, sub.key()) {
        subs.remove(key_index(subs, sub.key())).push(sub)
    } else {
        subs.push(sub)
    }
}

/// The effect of `remove_subscription` on the subscription store: the entry
/// with identity `key` is removed if present; a no-op otherwise.
pub open spec fn spec_unsubscribe<H>(
    subs: Seq<Subscription<H>>,
    key: (Seq<char>, Seq<char>),
) -> Seq<Subscription<H>> {
    if has_key(subs, key) {
        subs.remove(key_index(subs, key))
    } else {
        subs
    }
}

/// When topics are unique, the index of a matching entry is the index of
/// *the* entry under that topic.
pub proof fn lemma_topic_index_unique<H>(eps: Seq<Subscription<H>>, topic: Seq<char>, i: int)
    requires
        unique_topics(eps),
        0 <= i < eps.len(),
        eps[i].topic@ == topic,
    ensures
        has_topic(eps, topic),
        topic_index(eps, topic) == i,
{
    assert(has_topic(eps, topic));
    let c = topic_index(eps, topic);
    if c < i {
        assert(eps[c].topic@ != eps[i].topic@);
    } else if i < c {
        assert(eps[i].topic@ != eps[c].topic@);
    }
}

/// When keys are unique, the index of a matching entry is the index of *the*
/// entry with that key.
pub proof fn lemma_key_index_unique<H>(
    subs: Seq<Subscription<H>>,
    key: (Seq<char>, Seq<char>),
    i: int,
)
    requires
        unique_keys(subs),
        0 <= i < subs.len(),
        subs[i].key() == key,
    ensures
        has_key(subs, key),
        key_index(subs, key) == i,
{
    assert(has_key(subs, key));
    let c = key_index(subs, key);
    if c < i {
        assert(subs[c].key() != subs[i].key());
    } else if i < c {
        assert(subs[i].key() != subs[c].key());
    }
}

/// Removing an entry keeps topics unique, and removes the only entry under
/// its topic.
pub proof fn lemma_unique_topics_remove<H>(eps: Seq<Subscription<H>>, i: int)
    requires
        unique_topics(eps),
        0 <= i < eps.len(),
    ensures
        unique_topics(eps.remove(i)),
        !has_topic(eps.remove(i), eps[i].topic@),
{
    eps.remove_ensures(i);
    let r = eps.remove(i);
    assert forall|k: int, l: int| 0 <= k < l < r.len() implies r[k].topic@ != r[l].topic@ by {
        let k0: int = if k < i { k } else { k + 1 };
        let l0: int = if l < i { l } else { l + 1 };
        assert(r[k] == eps[k0] && r[l] == eps[l0]);
        assert(eps[k0].topic@ != eps[l0].topic@);
    }
    assert forall|k: int| 0 <= k < r.len() implies r[k].topic@ != eps[i].topic@ by {
        let k0: int = if k < i { k } else { k + 1 };
        assert(r[k] == eps[k0]);
        if k0 < i {
            assert(eps[k0].topic@ != eps[i].topic@);
        } else {
            assert(eps[i].topic@ != eps[k0].topic@);
        }
    }
}

/// Appending an entry under a fresh topic keeps topics unique.
pub proof fn lemma_unique_topics_push<H>(eps: Seq<Subscription<H>>, sub: Subscription<H>)
    requires
        unique_topics(eps),
        !has_topic(eps, sub.topic@),
    ensures
        unique_topics(eps.push(sub)),
{
    let r = eps.push(sub);
    assert forall|k: int, l: int| 0 <= k < l < r.len() implies r[k].topic@ != r[l].topic@ by {
        if l < eps.len() {
            assert(r[k] == eps[k] && r[l] == eps[l]);
        } else {
            assert(r[k] == eps[k] && r[l] == sub);
            assert(!(0 <= k < eps.len() && eps[k].topic@ == sub.topic@));
        }
    }
}

/// Removing an entry keeps keys unique, and removes the only entry with its
/// key.
pub proof fn lemma_unique_keys_remove<H>(subs: Seq<Subscription<H>>, i: int)
    requires
        unique_keys(subs),
        0 <= i < subs.len(),
    ensures
        unique_keys(subs.remove(i)),
        !has_key(subs.remove(i), subs[i].key()),
{
    subs.remove_ensures(i);
    let r = subs.remove(i);
    assert forall|k: int, l: int| 0 <= k < l < r.len() implies r[k].key() != r[l].key() by {
        let k0: int = if k < i { k } else { k + 1 };
        let l0: int = if l < i { l } else { l + 1 };
        assert(r[k] == subs[k0] && r[l] == subs[l0]);
        assert(subs[k0].key() != subs[l0].key());
    }
    assert forall|k: int| 0 <= k < r.len() implies r[k].key() != subs[i].key() by {
        let k0: int = if k < i { k } else { k + 1 };
        assert(r[k] == subs[k0]);
        if k0 < i {
            assert(subs[k0].key() != subs[i].key());
        } else {
            assert(subs[i].key() != subs[k0].key());
        }
    }
}

/// Appending an entry with a fresh key keeps keys unique.
pub proof fn lemma_unique_keys_push<H>(subs: Seq<Subscription<H>>, sub: Subscription<H>)
    requires
        unique_keys(subs),
        !has_key(subs, sub.key()),
    ensures
        unique_keys(subs.push(sub)),
{
    let r = subs.push(sub);
    assert forall|k: int, l: int| 0 <= k < l < r.len() implies r[k].key() != r[l].key() by {
        if l < subs.len() {
            assert(r[k] == subs[k] && r[l] == subs[l]);
        } else {
            assert(r[k] == subs[k] && r[l] == sub);
            assert(!(0 <= k < subs.len() && subs[k].key() == sub.key()));
        }
    }
}

/// Registering keeps the endpoint store well-formed.
pub proof fn lemma_register_preserves_unique<H>(eps: Seq<Subscription<H>>, sub: Subscription<H>)
    requires
        unique_topics(eps),
    ensures
        unique_topics(spec_register(eps, sub)),
{
    if has_topic(eps, sub.topic@) {
        let i = topic_index(eps, sub.topic@);
        assert(0 <= i < eps.len() && eps[i].topic@ == sub.topic@);
        lemma_unique_topics_remove(eps, i);
        lemma_unique_topics_push(eps.remove(i), sub);
    } else {
        lemma_unique_topics_push(eps, sub);
    }
}

/// Deregistering keeps the endpoint store well-formed.
pub proof fn lemma_deregister_preserves_unique<H>(eps: Seq<Subscription<H>>, topic: Seq<char>)
    requires
        unique_topics(eps),
    ensures
        unique_topics(spec_deregister(eps, topic)),
{
    if has_topic(eps, topic) {
        let i = topic_index(eps, topic);
        assert(0 <= i < eps.len() && eps[i].topic@ == topic);
        lemma_unique_topics_remove(eps, i);
    }
}

/// Subscribing keeps the subscription store well-formed.
pub proof fn lemma_subscribe_preserves_unique<H>(subs: Seq<Subscription<H>>, sub: Subscription<H>)
    requires
        unique_keys(subs),
    ensures
        unique_keys(spec_subscribe(subs, sub)),
{
    if has_key(subs, sub.key()) {
        let i = key_index(subs, sub.key());
        assert(0 <= i < subs.len() && subs[i].key() == sub.key());
        lemma_unique_keys_remove(subs, i);
        lemma_unique_keys_push(subs.remove(i), sub);
    } else {
        lemma_unique_keys_push(subs, sub);
    }
}

/// Unsubscribing keeps the subscription store well-formed.
pub proof fn lemma_unsubscribe_preserves_unique<H>(
    subs: Seq<Subscription<H>>,
    key: (Seq<char>, Seq<char>),
)
    requires
        unique_keys(subs),
    ensures
        unique_keys(spec_unsubscribe(subs, key)),
{
    if has_key(subs, key) {
        let i = key_index(subs, key);
        assert(0 <= i < subs.len() && subs[i].key() == key);
        lemma_unique_keys_remove(subs, i);
    }
}

/// The subscriptions of `subs` whose topic the pattern matches, in iteration
/// order. `Publish` delivers to exactly these, in exactly this order.
pub open spec fn matching_subs<H>(
    subs: Seq<Subscription<H>>,
    pattern: Seq<char>,
) -> Seq<Subscription<H>>
    decreases subs.len(),
{
    if subs.len() == 0 {
        Seq::empty()
    } else {
        let rest = matching_subs(subs.drop_first(), pattern);
        if pattern_matches(pattern, subs[0].topic@) {
            seq![subs[0]] + rest
        } else {
            rest
        }
    }
}

/// No more subscriptions match than are stored.
pub proof fn lemma_matching_subs_len<H>(subs: Seq<Subscription<H>>, pattern: Seq<char>)
    ensures
        matching_subs(subs, pattern).len() <= subs.len(),
    decreases subs.len(),
{
    if subs.len() > 0 {
        lemma_matching_subs_len(subs.drop_first(), pattern);
    }
}

/// Extending the scanned prefix of the store by one entry extends the
/// selection by that entry exactly when the pattern matches its topic.
pub proof fn lemma_matching_subs_step<H>(subs: Seq<Subscription<H>>, pattern: Seq<char>, i: int)
    requires
        0 <= i < subs.len(),
    ensures
        matching_subs(subs.take(i + 1), pattern) == if pattern_matches(
            pattern,
            subs[i].topic@,
        ) {
            matching_subs(subs.take(i), pattern).push(subs[i])
        } else {
            matching_subs(subs.take(i), pattern)
        },
    decreases i,
{
    if i == 0 {
        assert(subs.take(0) =~= Seq::<Subscription<H>>::empty());
        assert(subs.take(1).drop_first() =~= Seq::<Subscription<H>>::empty());
        assert(subs.take(1)[0] == subs[0]);
        if pattern_matches(pattern, subs[0].topic@) {
            assert(seq![subs[0]] + Seq::<Subscription<H>>::empty() =~= Seq::<
                Subscription<H>,
            >::empty().push(subs[0]));
        }
    } else {
        lemma_matching_subs_step(subs.drop_first(), pattern, i - 1);
        assert(subs.take(i + 1).drop_first() =~= subs.drop_first().take(i));
        assert(subs.take(i).drop_first() =~= subs.drop_first().take(i - 1));
        assert(subs.take(i + 1)[0] == subs[0]);
        assert(subs.take(i)[0] == subs[0]);
        assert(subs.drop_first()[i - 1] == subs[i]);
        if pattern_matches(pattern, subs[0].topic@) && pattern_matches(pattern, subs[i].topic@) {
            assert(seq![subs[0]] + matching_subs(subs.drop_first().take(i - 1), pattern).push(
                subs[i],
            ) =~= (seq![subs[0]] + matching_subs(subs.drop_first().take(i - 1), pattern)).push(
                subs[i],
            ));
        }
    }
}

/// The selection over a prefix of the store is a prefix of the selection
/// over the whole store.
pub proof fn lemma_matching_subs_prefix<H>(subs: Seq<Subscription<H>>, pattern: Seq<char>, i: int)
    requires
        0 <= i <= subs.len(),
    ensures
        matching_subs(subs.take(i), pattern).len() <= matching_subs(subs, pattern).len(),
        forall|k: int|
            0 <= k < matching_subs(subs.take(i), pattern).len() ==> matching_subs(subs, pattern)[k]
                == matching_subs(subs.take(i), pattern)[k],
    decreases subs.len() - i,
{
    if i == subs.len() {
        assert(subs.take(i) =~= subs);
    } else {
        lemma_matching_subs_step(subs, pattern, i);
        lemma_matching_subs_prefix(subs, pattern, i + 1);
    }
}

/// The registry: endpoints keyed by topic, subscriptions keyed by
/// `(topic, handler_id)`. The two stores are independent; they are consulted
/// by disjoint commands.
pub struct MessageBus<H> {
    endpoints: Vec<Subscription<H>>,
    subscriptions: Vec<Subscription<H>>,
}

impl<H> MessageBus<H> {
    /// The endpoint store, in iteration order.
    pub closed spec fn eps(&self) -> Seq<Subscription<H>> {
        self.endpoints@
    }

    /// The subscription store, in iteration order.
    pub closed spec fn subs(&self) -> Seq<Subscription<H>> {
        self.subscriptions@
    }

    /// Well-formedness: at most one endpoint per topic, and at most one
    /// subscription per `(topic, handler_id)` key. Established by `new` and
    /// preserved by every mutator.
    pub open spec fn wf(&self) -> bool {
        unique_topics(self.eps()) && unique_keys(self.subs())
    }

    /// An empty registry.
    pub fn new() -> (r: Self)
        ensures
            r.eps() == Seq::<Subscription<H>>::empty(),
            r.subs() == Seq::<Subscription<H>>::empty(),
            r.wf(),
    {
        MessageBus { endpoints: Vec::new(), subscriptions: Vec::new() }
    }

    /// The position of the endpoint stored under `topic`, if any.
    fn find_topic(&self, topic: &String) -> (r: Option<usize>)
        ensures
            match r {
                Some(i) => 0 <= i < self.eps().len() && self.eps()[i as int].topic@ == topic@,
                None => !has_topic(self.eps(), topic@),
            },
    {
        let n: usize = self.endpoints.len();
        let mut i: usize = 0;
        while i < n
            invariant
                n == self.eps().len(),
                0 <= i <= n,
                forall|j: int| 0 <= j < i ==> self.eps()[j].topic@ != topic@,
            decreases n - i,
        {
            if self.endpoints[i].topic == *topic {
                return Some(i);
            }
            i = i + 1;
        }
        None
    }

    /// The position of the subscription with key `(topic, handler_id)`, if
    /// any.
    fn find_key(&self, topic: &String, handler_id: &String) -> (r: Option<usize>)
        ensures
            match r {
                Some(i) => 0 <= i < self.subs().len() && self.subs()[i as int].key() == (
                    topic@,
                    handler_id@,
                ),
                None => !has_key(self.subs(), (topic@, handler_id@)),
            },
    {
        let n: usize = self.subscriptions.len();
        let mut i: usize = 0;
        while i < n
            invariant
                n == self.subs().len(),
                0 <= i <= n,
                forall|j: int| 0 <= j < i ==> self.subs()[j].key() != (topic@, handler_id@),
            decreases n - i,
        {
            if self.subscriptions[i].topic == *topic && self.subscriptions[i].handler_id
                == *handler_id {
                return Some(i);
            }
            i = i + 1;
        }
        None
    }

    /// Install `subscription` as the endpoint of its topic. An endpoint
    /// already held under that topic is replaced; no error is signalled.
    pub fn register(&mut self, subscription: Subscription<H>)
        requires
            old(self).wf(),
        ensures
            final(self).wf(),
            final(self).eps() == spec_register(old(self).eps(), subscription),
            final(self).subs() == old(self).subs(),
    {
        let ghost pre = self.eps();
        let ghost t = subscription.topic@;
        match self.find_topic(&subscription.topic) {
            Some(i) => {
                proof {
                    lemma_topic_index_unique(pre, t, i as int);
                    lemma_register_preserves_unique(pre, subscription);
                }
                self.endpoints.remove(i);
                self.endpoints.push(subscription);
            }
            None => {
                proof {
                    lemma_register_preserves_unique(pre, subscription);
                }
                self.endpoints.push(subscription);
            }
        }
    }

    /// Remove the endpoint stored under `topic`, if any; a no-op otherwise.
    /// Tasks already created from that endpoint are unaffected: the handler
    /// instance is owned by its task.
    pub fn deregister(&mut self, topic: &str)
        requires
            old(self).wf(),
        ensures
            final(self).wf(),
            final(self).eps() == spec_deregister(old(self).eps(), topic@),
            final(self).subs() == old(self).subs(),
    {
        let ghost pre = self.eps();
        let key: String = topic.to_owned();
        match self.find_topic(&key) {
            Some(i) => {
                proof {
                    lemma_topic_index_unique(pre, topic@, i as int);
                    lemma_deregister_preserves_unique(pre, topic@);
                }
                self.endpoints.remove(i);
            }
            None => {}
        }
    }

    /// Add `subscription` to the fan-out set. A subscription with the same
    /// `(topic, handler_id)` key is replaced: the newer handler factory
    /// supersedes.
    pub fn subscribe(&mut self, subscription: Subscription<H>)
        requires
            old(self).wf(),
        ensures
            final(self).wf(),
            final(self).subs() == spec_subscribe(old(self).subs(), subscription),
            final(self).eps() == old(self).eps(),
    {
        let ghost pre = self.subs();
        let ghost k = subscription.key();
        match self.find_key(&subscription.topic, &subscription.handler_id) {
            Some(i) => {
                proof {
                    lemma_key_index_unique(pre, k, i as int);
                    lemma_subscribe_preserves_unique(pre, subscription);
                }
                self.subscriptions.remove(i);
                self.subscriptions.push(subscription);
            }
            None => {
                proof {
                    lemma_subscribe_preserves_unique(pre, subscription);
                }
                self.subscriptions.push(subscription);
            }
        }
    }

    /// Delete the subscription identified by `(topic, handler_id)`, if any;
    /// a no-op otherwise.
    pub fn remove_subscription(&mut self, topic: &str, handler_id: &str)
        requires
            old(self).wf(),
        ensures
            final(self).wf(),
            final(self).subs() == spec_unsubscribe(old(self).subs(), (topic@, handler_id@)),
            final(self).eps() == old(self).eps(),
    {
        let ghost pre = self.subs();
        let t: String = topic.to_owned();
        let h: String = handler_id.to_owned();
        match self.find_key(&t, &h) {
            Some(i) => {
                proof {
                    lemma_key_index_unique(pre, (topic@, handler_id@), i as int);
                    lemma_unsubscribe_preserves_unique(pre, (topic@, handler_id@));
                }
                self.subscriptions.remove(i);
            }
            None => {}
        }
    }

    /// The text of the endpoint lines of the registry's description: one
    /// line per endpoint, `<topic>: <subscription>`, insertion order.
    pub open spec fn endpoints_desc(eps: Seq<Subscription<H>>) -> Seq<char>
        decreases eps.len(),
    {
        if eps.len() == 0 {
            Seq::empty()
        } else {
            Self::endpoints_desc(eps.drop_last()) + eps.last().topic@ + ": "@ + eps.last().desc()
                + "\n"@
        }
    }

    /// The text of the subscription lines of the registry's description: one
    /// line per subscription, `<subscription>: <topic>`, insertion order.
    pub open spec fn subscriptions_desc(subs: Seq<Subscription<H>>) -> Seq<char>
        decreases subs.len(),
    {
        if subs.len() == 0 {
            Seq::empty()
        } else {
            Self::subscriptions_desc(subs.drop_last()) + subs.last().desc() + ": "@
                + subs.last().topic@ + "\n"@
        }
    }

    /// A human-readable description of the registry contents: every endpoint
    /// and every subscription, one per line.
    pub fn describe(&self) -> (r: String)
        ensures
            r@ == "MessageBus\nendpoints:\n"@ + Self::endpoints_desc(self.eps())
                + "subscriptions:\n"@ + Self::subscriptions_desc(self.subs()),
    {
        let mut s = "MessageBus\nendpoints:\n".to_owned();
        let e_len: usize = self.endpoints.len();
        let mut i: usize = 0;
        proof {
            assert(self.eps().take(0) =~= Seq::<Subscription<H>>::empty());
            assert(s@ =~= "MessageBus\nendpoints:\n"@ + Self::endpoints_desc(self.eps().take(0)));
        }
        while i < e_len
            invariant
                e_len == self.eps().len(),
                0 <= i <= e_len,
                s@ == "MessageBus\nendpoints:\n"@ + Self::endpoints_desc(
                    self.eps().take(i as int),
                ),
            decreases e_len - i,
        {
            s.append(self.endpoints[i].topic.as_str());
            s.append(": ");
            let line = self.endpoints[i].describe();
            s.append(line.as_str());
            s.append("\n");
            proof {
                assert(self.eps().take(i as int + 1).drop_last() =~= self.eps().take(i as int));
                assert(self.eps().take(i as int + 1).last() == self.eps()[i as int]);
                assert(s@ =~= "MessageBus\nendpoints:\n"@ + Self::endpoints_desc(
                    self.eps().take(i as int + 1),
                ));
            }
            i = i + 1;
        }
        proof {
            assert(self.eps().take(e_len as int) =~= self.eps());
        }
        let ghost head = s@;
        s.append("subscriptions:\n");
        let s_len: usize = self.subscriptions.len();
        let mut j: usize = 0;
        proof {
            assert(self.subs().take(0) =~= Seq::<Subscription<H>>::empty());
            assert(s@ =~= head + "subscriptions:\n"@ + Self::subscriptions_desc(
                self.subs().take(0),
            ));
        }
        while j < s_len
            invariant
                s_len == self.subs().len(),
                0 <= j <= s_len,
                s@ == head + "subscriptions:\n"@ + Self::subscriptions_desc(
                    self.subs().take(j as int),
                ),
            decreases s_len - j,
        {
            let line = self.subscriptions[j].describe();
            s.append(line.as_str());
            s.append(": ");
            s.append(self.subscriptions[j].topic.as_str());
            s.append("\n");
            proof {
                assert(self.subs().take(j as int + 1).drop_last() =~= self.subs().take(j as int));
                assert(self.subs().take(j as int + 1).last() == self.subs()[j as int]);
                assert(s@ =~= head + "subscriptions:\n"@ + Self::subscriptions_desc(
                    self.subs().take(j as int + 1),
                ));
            }
            j = j + 1;
        }
        proof {
            assert(self.subs().take(s_len as int) =~= self.subs());
            assert(s@ =~= "MessageBus\nendpoints:\n"@ + Self::endpoints_desc(self.eps())
                + "subscriptions:\n"@ + Self::subscriptions_desc(self.subs()));
        }
        s
    }

    /// How many endpoints are registered.
    pub fn endpoint_count(&self) -> (n: usize)
        ensures
            n == self.eps().len(),
    {
        self.endpoints.len()
    }

    /// How many subscriptions are held.
    pub fn subscription_count(&self) -> (n: usize)
        ensures
            n == self.subs().len(),
    {
        self.subscriptions.len()
    }

    /// The endpoint stored under `topic`, if any: exactly the one entry of
    /// the endpoint store holding that topic.
    pub fn endpoint_at(&self, topic: &str) -> (r: Option<&Subscription<H>>)
        requires
            self.wf(),
        ensures
            match r {
                Some(s) => has_topic(self.eps(), topic@) && *s == self.eps()[topic_index(
                    self.eps(),
                    topic@,
                )],
                None => !has_topic(self.eps(), topic@),
            },
    {
        let key: String = topic.to_owned();
        match self.find_topic(&key) {
            Some(i) => {
                proof {
                    lemma_topic_index_unique(self.eps(), topic@, i as int);
                }
                Some(&self.endpoints[i])
            }
            None => None,
        }
    }

    /// Whether an endpoint is held under `topic`.
    pub fn contains_endpoint(&self, topic: &str) -> (r: bool)
        ensures
            r == has_topic(self.eps(), topic@),
    {
        let key: String = topic.to_owned();
        match self.find_topic(&key) {
            Some(_) => true,
            None => false,
        }
    }

    /// The `n`-th subscription whose topic `pattern` matches, counted in
    /// iteration order from zero; `None` when fewer than `n + 1`
    /// subscriptions match.
    pub fn nth_matching(&self, pattern: &str, n: usize) -> (r: Option<&Subscription<H>>)
        ensures
            match r {
                Some(s) => n < matching_subs(self.subs(), pattern@).len() && *s == matching_subs(
                    self.subs(),
                    pattern@,
                )[n as int],
                None => matching_subs(self.subs(), pattern@).len() <= n,
            },
    {
        let len: usize = self.subscriptions.len();
        let mut i: usize = 0;
        let mut count: usize = 0;
        while i < len
            invariant
                len == self.subs().len(),
                0 <= i <= len,
                count == matching_subs(self.subs().take(i as int), pattern@).len(),
                count <= n,
            decreases len - i,
        {
            let is_match = topic_matches(pattern, self.subscriptions[i].topic.as_str());
            proof {
                lemma_matching_subs_step(self.subs(), pattern@, i as int);
            }
            if is_match {
                if count == n {
                    proof {
                        lemma_matching_subs_prefix(self.subs(), pattern@, i as int + 1);
                    }
                    return Some(&self.subscriptions[i]);
                }
                count = count + 1;
            }
            i = i + 1;
        }
        proof {
            assert(self.subs().take(len as int) =~= self.subs());
        }
        None
    }

    /// The `(topic, handler_id)` keys of the subscriptions `pattern`
    /// matches, in the order `Publish` would deliver to them.
    pub fn matching_keys(&self, pattern: &str) -> (r: Vec<(String, String)>)
        ensures
            r@.len() == matching_subs(self.subs(), pattern@).len(),
            forall|k: int|
                0 <= k < r@.len() ==> (r@[k].0@, r@[k].1@) == matching_subs(
                    self.subs(),
                    pattern@,
                )[k].key(),
    {
        let len: usize = self.subscriptions.len();
        let mut out: Vec<(String, String)> = Vec::new();
        let mut i: usize = 0;
        while i < len
            invariant
                len == self.subs().len(),
                0 <= i <= len,
                out@.len() == matching_subs(self.subs().take(i as int), pattern@).len(),
                forall|k: int|
                    0 <= k < out@.len() ==> (out@[k].0@, out@[k].1@) == matching_subs(
                        self.subs().take(i as int),
                        pattern@,
                    )[k].key(),
            decreases len - i,
        {
            let is_match = topic_matches(pattern, self.subscriptions[i].topic.as_str());
            proof {
                lemma_matching_subs_step(self.subs(), pattern@, i as int);
            }
            if is_match {
                let t = self.subscriptions[i].topic.clone();
                let h = self.subscriptions[i].handler_id.clone();
                out.push((t, h));
            }
            i = i + 1;
        }
        proof {
            assert(self.subs().take(len as int) =~= self.subs());
        }
        out
    }

    /// Whether a subscription with key `(topic, handler_id)` is held.
    pub fn contains_subscription(&self, topic: &str, handler_id: &str) -> (r: bool)
        ensures
            r == has_key(self.subs(), (topic@, handler_id@)),
    {
        let t: String = topic.to_owned();
        let h: String = handler_id.to_owned();
        match self.find_key(&t, &h) {
            Some(_) => true,
            None => false,
        }
    }
}

impl<H> Default for MessageBus<H> {
    /// An empty registry, as `new` builds it.
    fn default() -> (r: Self)
        ensures
            r.eps() == Seq::<Subscription<H>>::empty(),
            r.subs() == Seq::<Subscription<H>>::empty(),
            r.wf(),
    {
        MessageBus::new()
    }
}

impl<H: Actor> MessageBus<H> {
    /// A fresh handler instance made by the factory of the endpoint stored
    /// under `topic`: `Some` exactly when such an endpoint is held. The
    /// selection comes from [`MessageBus::endpoint_at`]; of the instance
    /// itself nothing can be said, since `Actor::fresh` is handler code the
    /// bus assumes nothing about.
    pub fn fresh_endpoint_actor(&self, topic: &str) -> (r: Option<H>)
        requires
            self.wf(),
        ensures
            (r is Some) == has_topic(self.eps(), topic@),
    {
        match self.endpoint_at(topic) {
            Some(sub) => Some(sub.actor_fn.fresh()),
            None => None,
        }
    }
}

} // verus!
