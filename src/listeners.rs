//! The topic registry: which subscribers hear which notifications.
use serde_json::Value;
use std::sync::Arc;
use vstd::prelude::*;

verus! {

/// `tokio::sync::mpsc::UnboundedSender`, the sending side of a subscriber's conduit.
#[verifier::external_type_specification]
#[verifier::external_body]
#[verifier::reject_recursive_types(T)]
pub struct ExUnboundedSender<T>(tokio::sync::mpsc::UnboundedSender<T>);

/// The sending side of one subscriber's conduit: a shared handle to each raw
/// notification payload goes through it.
pub type Subscriber = tokio::sync::mpsc::UnboundedSender<Arc<Value>>;

/// Relies on `tokio::sync::mpsc::UnboundedSender::send`: it never waits, and
/// fails only when the receiving side is closed or dropped.
#[verifier::external_body]
fn deliver(s: &Subscriber, event: Arc<Value>) -> (ok: bool) {
    s.send(event).is_ok()
}

/// Relies on `Arc::clone`: a second handle to the same payload.
#[verifier::external_body]
fn share(event: &Arc<Value>) -> (r: Arc<Value>)
    ensures
        r == *event,
{
    Arc::clone(event)
}

/// One offer of `event` to each of `subs`, in order.
pub open spec fn offers(subs: Seq<Subscriber>, event: Arc<Value>) -> Seq<(Subscriber, Arc<Value>)> {
    Seq::new(subs.len(), |i: int| (subs[i], event))
}

/// The items of `s` whose outcome in `ok` (same position) is `true`, in order.
pub open spec fn kept<T>(s: Seq<T>, ok: Seq<bool>) -> Seq<T>
    decreases s.len(),
{
    if s.len() == 0 {
        Seq::empty()
    } else {
        let rest = kept(s.drop_last(), ok.drop_last());
        if ok[s.len() - 1] {
            rest.push(s.last())
        } else {
            rest
        }
    }
}

/// The number of `true` outcomes.
pub open spec fn count_true(ok: Seq<bool>) -> nat
    decreases ok.len(),
{
    if ok.len() == 0 {
        0
    } else {
        count_true(ok.drop_last()) + if ok.last() { 1nat } else { 0nat }
    }
}

pub proof fn lemma_kept_len<T>(s: Seq<T>, ok: Seq<bool>)
    requires
        s.len() == ok.len(),
    ensures
        kept(s, ok).len() == count_true(ok),
        kept(s, ok).len() <= s.len(),
    decreases s.len(),
{
    if s.len() > 0 {
        lemma_kept_len(s.drop_last(), ok.drop_last());
    }
}

proof fn lemma_kept_step<T>(s: Seq<T>, ok: Seq<bool>, n: int, b: bool)
    requires
        0 <= n < s.len(),
        ok.len() == n,
    ensures
        kept(s.take(n + 1), ok.push(b)) == if b {
            kept(s.take(n), ok).push(s[n])
        } else {
            kept(s.take(n), ok)
        },
{
    assert(s.take(n + 1).drop_last() =~= s.take(n));
    assert(ok.push(b).drop_last() =~= ok);
}

/// One topic and its live subscribers, in the order they registered.
struct Topic {
    name: String,
    subscribers: Vec<Subscriber>,
}

spec fn names_unique(t: Seq<Topic>) -> bool {
    forall|i: int, j: int| 0 <= i < j < t.len() ==> t[i].name@ != t[j].name@
}

spec fn has_topic(t: Seq<Topic>, n: Seq<char>) -> bool {
    exists|i: int| 0 <= i < t.len() && t[i].name@ == n
}

/// The topics read as a map from name to subscribers.
spec fn registry_of(t: Seq<Topic>) -> Map<Seq<char>, Seq<Subscriber>> {
    Map::new(
        |n: Seq<char>| has_topic(t, n),
        |n: Seq<char>| t[choose|i: int| 0 <= i < t.len() && t[i].name@ == n].subscribers@,
    )
}

proof fn lemma_registry_at(t: Seq<Topic>, i: int)
    requires
        names_unique(t),
        0 <= i < t.len(),
    ensures
        registry_of(t).contains_key(t[i].name@),
        registry_of(t)[t[i].name@] == t[i].subscribers@,
{
    let n = t[i].name@;
    assert(has_topic(t, n));
    let j = choose|j: int| 0 <= j < t.len() && t[j].name@ == n;
    if j != i {
        if j < i {
            assert(t[j].name@ != t[i].name@);
        } else {
            assert(t[i].name@ != t[j].name@);
        }
    }
}

proof fn lemma_registry_update(t: Seq<Topic>, i: int, x: Topic)
    requires
        names_unique(t),
        0 <= i < t.len(),
        x.name@ == t[i].name@,
    ensures
        names_unique(t.update(i, x)),
        registry_of(t.update(i, x)) =~= registry_of(t).insert(x.name@, x.subscribers@),
{
    let u = t.update(i, x);
    assert(names_unique(u)) by {
        assert forall|a: int, b: int| 0 <= a < b < u.len() implies u[a].name@ != u[b].name@ by {
            assert(t[a].name@ != t[b].name@);
        }
    }
    assert forall|n: Seq<char>| #[trigger] registry_of(u).contains_key(n) <==> registry_of(t).insert(x.name@, x.subscribers@).contains_key(n) by {
        if has_topic(u, n) {
            let j = choose|j: int| 0 <= j < u.len() && u[j].name@ == n;
            assert(t[j].name@ == n);
        }
        if has_topic(t, n) {
            let j = choose|j: int| 0 <= j < t.len() && t[j].name@ == n;
            assert(u[j].name@ == n);
        }
        assert(u[i].name@ == x.name@);
    }
    assert forall|n: Seq<char>| #[trigger] registry_of(u).contains_key(n) implies registry_of(u)[n] == registry_of(t).insert(x.name@, x.subscribers@)[n] by {
        let j = choose|j: int| 0 <= j < u.len() && u[j].name@ == n;
        lemma_registry_at(u, j);
        if j != i {
            lemma_registry_at(t, j);
        }
    }
}

proof fn lemma_registry_push(t: Seq<Topic>, x: Topic)
    requires
        names_unique(t),
        !has_topic(t, x.name@),
    ensures
        names_unique(t.push(x)),
        registry_of(t.push(x)) =~= registry_of(t).insert(x.name@, x.subscribers@),
{
    let u = t.push(x);
    assert(names_unique(u)) by {
        assert forall|a: int, b: int| 0 <= a < b < u.len() implies u[a].name@ != u[b].name@ by {
            if b == t.len() {
                assert(u[a] == t[a]);
            }
        }
    }
    assert forall|n: Seq<char>| #[trigger] registry_of(u).contains_key(n) <==> registry_of(t).insert(x.name@, x.subscribers@).contains_key(n) by {
        if has_topic(u, n) && n != x.name@ {
            let j = choose|j: int| 0 <= j < u.len() && u[j].name@ == n;
            assert(t[j].name@ == n);
        }
        if has_topic(t, n) {
            let j = choose|j: int| 0 <= j < t.len() && t[j].name@ == n;
            assert(u[j].name@ == n);
        }
        assert(u[t.len() as int].name@ == x.name@);
    }
    assert forall|n: Seq<char>| #[trigger] registry_of(u).contains_key(n) implies registry_of(u)[n] == registry_of(t).insert(x.name@, x.subscribers@)[n] by {
        let j = choose|j: int| 0 <= j < u.len() && u[j].name@ == n;
        lemma_registry_at(u, j);
        if j < t.len() {
            lemma_registry_at(t, j);
        }
    }
}

/// Subscribers of each topic. A topic appears on its first subscription; a
/// subscriber leaves when a delivery to it fails because its receiving side
/// is gone.
pub struct EventListeners {
    topics: Vec<Topic>,
    offered: Ghost<Seq<(Subscriber, Arc<Value>)>>,
}

impl EventListeners {
    pub closed spec fn wf(&self) -> bool {
        names_unique(self.topics@)
    }

    /// The registered topics, each with its subscribers in registration order.
    pub closed spec fn registry(&self) -> Map<Seq<char>, Seq<Subscriber>> {
        registry_of(self.topics@)
    }

    /// Every offer so far, in order: the subscriber, and the shared handle to
    /// the payload that was handed to it.
    pub closed spec fn offered(&self) -> Seq<(Subscriber, Arc<Value>)> {
        self.offered@
    }

    /// The subscribers of topic `name`; none for an unknown topic.
    pub open spec fn subscribers(&self, name: Seq<char>) -> Seq<Subscriber> {
        if self.registry().contains_key(name) {
            self.registry()[name]
        } else {
            Seq::empty()
        }
    }

    /// A registry with no topic.
    pub fn new() -> (r: Self)
        ensures
            r.wf(),
            r.registry() == Map::<Seq<char>, Seq<Subscriber>>::empty(),
            r.offered() == Seq::<(Subscriber, Arc<Value>)>::empty(),
    {
        let r = EventListeners { topics: Vec::new(), offered: Ghost(Seq::empty()) };
        assert(r.registry() =~= Map::<Seq<char>, Seq<Subscriber>>::empty());
        r
    }

    fn find(&self, name: &String) -> (r: Option<usize>)
        requires
            self.wf(),
        ensures
            match r {
                Some(i) => i < self.topics@.len() && self.topics@[i as int].name@ == name@,
                None => !has_topic(self.topics@, name@),
            },
    {
        let mut i: usize = 0;
        while i < self.topics.len()
            invariant
                0 <= i <= self.topics@.len(),
                forall|j: int| 0 <= j < i ==> self.topics@[j].name@ != name@,
            decreases self.topics@.len() - i,
        {
            if self.topics[i].name == *name {
                return Some(i);
            }
            i += 1;
        }
        None
    }

    /// Registers `sender` as the newest subscriber of topic `event_name`,
    /// creating the topic when it has none.
    pub fn add_listener(&mut self, event_name: &str, sender: Subscriber)
        requires
            old(self).wf(),
        ensures
            final(self).wf(),
            final(self).registry() == old(self).registry().insert(
                event_name@,
                old(self).subscribers(event_name@).push(sender),
            ),
            final(self).offered() == old(self).offered(),
    {
        let name = event_name.to_owned();
        match self.find(&name) {
            Some(i) => {
                proof { lemma_registry_at(self.topics@, i as int); }
                let mut topic = self.topics.remove(i);
                topic.subscribers.push(sender);
                self.topics.insert(i, topic);
                proof {
                    assert(self.topics@ =~= old(self).topics@.update(i as int, topic));
                    lemma_registry_update(old(self).topics@, i as int, topic);
                }
            },
            None => {
                let topic = Topic { name, subscribers: vec![sender] };
                proof {
                    assert(!old(self).registry().contains_key(event_name@));
                    assert(topic.subscribers@ =~= Seq::<Subscriber>::empty().push(sender));
                    lemma_registry_push(self.topics@, topic);
                }
                self.topics.push(topic);
            },
        }
    }

    /// Offers `event` (the same shared handle) to every subscriber of topic
    /// `event_name`, in registration order, and returns the outcome of each
    /// offer. Those whose offer failed are removed; the others stay, in the
    /// same order. An unknown topic gets no offer and stays unknown.
    pub fn dispatch(&mut self, event_name: &str, event: Arc<Value>) -> (outcomes: Vec<bool>)
        requires
            old(self).wf(),
        ensures
            final(self).wf(),
            outcomes@.len() == old(self).subscribers(event_name@).len(),
            old(self).registry().contains_key(event_name@) ==> final(self).registry()
                == old(self).registry().insert(
                event_name@,
                kept(old(self).subscribers(event_name@), outcomes@),
            ),
            !old(self).registry().contains_key(event_name@) ==> final(self).registry()
                == old(self).registry(),
            final(self).offered() == old(self).offered() + offers(
                old(self).subscribers(event_name@),
                event,
            ),
    {
        let name = event_name.to_owned();
        match self.find(&name) {
            None => {
                let outcomes: Vec<bool> = Vec::new();
                assert(self.offered@ =~= old(self).offered@ + offers(old(self).subscribers(event_name@), event));
                outcomes
            },
            Some(t) => {
                proof { lemma_registry_at(self.topics@, t as int); }
                let mut topic = self.topics.remove(t);
                let ghost orig = topic.subscribers@;
                let mut outcomes: Vec<bool> = Vec::new();
                let mut i: usize = 0;
                while i < topic.subscribers.len()
                    invariant
                        topic.name@ == event_name@,
                        outcomes@.len() <= orig.len(),
                        i == kept(orig.take(outcomes@.len() as int), outcomes@).len(),
                        topic.subscribers@ == kept(orig.take(outcomes@.len() as int), outcomes@) + orig.skip(
                            outcomes@.len() as int,
                        ),
                        self.offered@ == old(self).offered@ + offers(orig.take(outcomes@.len() as int), event),
                        self.topics@ == old(self).topics@.remove(t as int),
                        t < old(self).topics@.len(),
                    decreases topic.subscribers@.len() - i,
                {
                    let ghost n = outcomes@.len() as int;
                    proof {
                        assert(topic.subscribers@[i as int] == orig[n]);
                    }
                    self.offered = Ghost(self.offered@.push((topic.subscribers@[i as int], event)));
                    proof {
                        assert(offers(orig.take(n + 1), event) =~= offers(orig.take(n), event).push((orig[n], event)));
                        assert(self.offered@ =~= old(self).offered@ + offers(orig.take(n + 1), event));
                    }
                    let ok = deliver(&topic.subscribers[i], share(&event));
                    proof { lemma_kept_step(orig, outcomes@, n, ok); }
                    outcomes.push(ok);
                    if ok {
                        i += 1;
                    } else {
                        topic.subscribers.remove(i);
                    }
                    proof {
                        let k = kept(orig.take(n + 1), outcomes@);
                        assert(topic.subscribers@ =~= k + orig.skip(n + 1));
                    }
                }
                proof {
                    lemma_kept_len(orig.take(outcomes@.len() as int), outcomes@);
                    assert(outcomes@.len() == orig.len());
                    assert(orig.take(orig.len() as int) =~= orig);
                    assert(topic.subscribers@ =~= kept(orig, outcomes@));
                    assert(old(self).subscribers(event_name@) == orig);
                }
                self.topics.insert(t, topic);
                proof {
                    assert(self.topics@ =~= old(self).topics@.update(t as int, topic));
                    lemma_registry_update(old(self).topics@, t as int, topic);
                }
                outcomes
            },
        }
    }

    /// The number of live subscribers of topic `event_name`.
    pub fn subscriber_count(&self, event_name: &str) -> (r: usize)
        requires
            self.wf(),
        ensures
            r == self.subscribers(event_name@).len(),
    {
        let name = event_name.to_owned();
        match self.find(&name) {
            Some(i) => {
                proof { lemma_registry_at(self.topics@, i as int); }
                self.topics[i].subscribers.len()
            },
            None => 0,
        }
    }
}

} // verus!
