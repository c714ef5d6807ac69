//! Properties of the runtime that span several calls, proved from the
//! contracts of `Session`.
use crate::listeners::{count_true, kept, lemma_kept_len, offers, Subscriber};
use crate::error::CdpError;
use crate::session::{Reply, Routed, Session, Slot};
use serde_json::Value;
use std::sync::Arc;
use vstd::prelude::*;

verus! {

/// One operation of a connection took `pre` to `post`: a command went out,
/// a command was refused, a subscriber came, a frame was handled, or the
/// connection ended.
pub open spec fn step(pre: Session, post: Session) -> bool {
    ||| exists|id: u64, slot: Slot| Session::began(pre, post, id, slot)
    ||| post == pre
    ||| exists|topic: Seq<char>, sub: Subscriber| Session::subscribed(pre, post, topic, sub)
    ||| exists|r: Routed| Session::routed(pre, post, r)
    ||| exists|n: nat| Session::ended(pre, post, n)
}

/// Consecutive states of one connection.
pub open spec fn is_trace(trace: Seq<Session>) -> bool {
    forall|k: int| 0 <= k < trace.len() - 1 ==> step(#[trigger] trace[k], trace[k + 1])
}

proof fn lemma_step_keeps_counter(pre: Session, post: Session)
    requires
        step(pre, post),
    ensures
        pre.next_id() <= post.next_id(),
{
    if exists|id: u64, slot: Slot| Session::began(pre, post, id, slot) {
        let (id, slot) = choose|id: u64, slot: Slot| Session::began(pre, post, id, slot);
    } else if exists|topic: Seq<char>, sub: Subscriber| Session::subscribed(pre, post, topic, sub) {
        let (t, s) = choose|topic: Seq<char>, sub: Subscriber| Session::subscribed(pre, post, topic, sub);
    } else if exists|r: Routed| Session::routed(pre, post, r) {
        let r = choose|r: Routed| Session::routed(pre, post, r);
    } else if exists|n: nat| Session::ended(pre, post, n) {
        let n = choose|n: nat| Session::ended(pre, post, n);
    }
}

proof fn lemma_counter_monotone(trace: Seq<Session>, i: int, j: int)
    requires
        is_trace(trace),
        0 <= i <= j < trace.len(),
    ensures
        trace[i].next_id() <= trace[j].next_id(),
    decreases j - i,
{
    if i < j {
        lemma_counter_monotone(trace, i, j - 1);
        assert(step(trace[j - 1], trace[j]));
        lemma_step_keeps_counter(trace[j - 1], trace[j]);
    }
}

/// Ids issued by one connection strictly increase: of two commands sent in
/// turn, the later one has the larger id, and it is not pending when issued.
pub proof fn lemma_ids_strictly_increase(
    trace: Seq<Session>,
    i: int,
    a: u64,
    slot_a: Slot,
    j: int,
    b: u64,
    slot_b: Slot,
)
    requires
        is_trace(trace),
        forall|k: int| 0 <= k < trace.len() ==> (#[trigger] trace[k]).wf(),
        0 <= i < j < trace.len() - 1,
        Session::began(trace[i], trace[i + 1], a, slot_a),
        Session::began(trace[j], trace[j + 1], b, slot_b),
    ensures
        a < b,
        !trace[j].slots().contains_key(b),
{
    lemma_counter_monotone(trace, i + 1, j);
    let s = trace[j];
    assert(s.wf());
    if s.slots().contains_key(b) {
        s.table().lemma_ids_below_next(b);
    }
}

/// However many commands are in flight and in whatever order their replies
/// come, every completion so far went to the slot issued under its own id,
/// and no id completed twice: no reply ever reaches another command.
pub proof fn lemma_no_cross_resolution(s: Session)
    requires
        s.wf(),
    ensures
        forall|i: int|
            0 <= i < s.settled().len() ==> s.issued().contains_key((#[trigger] s.settled()[i]).0)
                && s.issued()[s.settled()[i].0] == s.settled()[i].1,
        forall|i: int, j: int|
            0 <= i < j < s.settled().len() ==> (#[trigger] s.settled()[i]).0 != (
            #[trigger] s.settled()[j]).0,
{
}

/// A reply settles the command sent with its own id and no other: the slot
/// filed under that id receives that reply, and leaves the table, so a second
/// reply with the same id settles nothing; every other pending command keeps
/// its own slot and receives nothing.
pub proof fn lemma_reply_settles_only_its_own(pre: Session, post: Session, id: u64, reply: Reply)
    requires
        pre.wf(),
        Session::settles(pre, post, id, reply),
    ensures
        post.settled() == pre.settled().push((id, pre.slots()[id], reply)),
        !post.slots().contains_key(id),
        forall|k: u64|
            k != id && pre.slots().contains_key(k) ==> post.slots().contains_key(k)
                && #[trigger] post.slots()[k] == pre.slots()[k],
        forall|later: Session| !Session::routed(post, later, Routed::Resolved(id)),
{
}

/// When the connection ends with K commands pending, all K are settled, each
/// in its own slot and with `ConnectionClosed`, and nothing else is;
/// afterwards no command can be filed, so none is left waiting, whatever
/// happens next.
pub proof fn lemma_end_settles_every_pending(pre: Session, post: Session, swept: nat)
    requires
        pre.wf(),
        Session::ended(pre, post, swept),
    ensures
        swept == pre.slots().len(),
        post.settled().len() == pre.settled().len() + swept,
        forall|k: u64|
            #[trigger] pre.slots().contains_key(k) ==> exists|i: int|
                pre.settled().len() <= i < post.settled().len() && post.settled()[i] == (
                    k,
                    pre.slots()[k],
                    Err::<Option<Value>, CdpError>(CdpError::ConnectionClosed),
                ),
        post.slots() == Map::<u64, Slot>::empty(),
        forall|later: Session, id: u64, slot: Slot| !Session::began(post, later, id, slot),
        forall|later: Session|
            step(post, later) ==> !later.is_open() && later.slots() == Map::<u64, Slot>::empty(),
{
    assert forall|k: u64| #[trigger] pre.slots().contains_key(k) implies exists|i: int|
        pre.settled().len() <= i < post.settled().len() && post.settled()[i] == (
            k,
            pre.slots()[k],
            Err::<Option<Value>, CdpError>(CdpError::ConnectionClosed),
        ) by {
        let i = choose|i: int| pre.settled().len() <= i < post.settled().len() && post.settled()[i].0 == k;
        let (k2, slot, reply) = post.settled()[i];
        assert(pre.slots()[k2] == slot);
    }
    assert forall|later: Session| step(post, later) implies !later.is_open() && later.slots()
        == Map::<u64, Slot>::empty() by {
        if exists|id: u64, slot: Slot| Session::began(post, later, id, slot) {
            let (id, slot) = choose|id: u64, slot: Slot| Session::began(post, later, id, slot);
        } else if exists|topic: Seq<char>, sub: Subscriber| Session::subscribed(post, later, topic, sub) {
            let (t, s) = choose|topic: Seq<char>, sub: Subscriber| Session::subscribed(post, later, topic, sub);
        } else if exists|r: Routed| Session::routed(post, later, r) {
            let r = choose|r: Routed| Session::routed(post, later, r);
            if let Routed::Resolved(id) = r {
                assert(post.slots().remove(id) =~= Map::<u64, Slot>::empty());
            }
        } else if exists|n: nat| Session::ended(post, later, n) {
            let n = choose|n: nat| Session::ended(post, later, n);
        }
    }
}

/// A subscriber registered on a topic before a notification on it is handed
/// that notification: the notification is offered, once and in order, to
/// each subscriber of the moment, the newest of whom is that subscriber.
pub proof fn lemma_earlier_subscriber_is_offered(
    s0: Session,
    s1: Session,
    sub: Subscriber,
    s2: Session,
    topic: String,
    outcomes: Vec<bool>,
)
    requires
        s0.wf(),
        Session::subscribed(s0, s1, topic@, sub),
        Session::routed(s1, s2, Routed::Notified { topic, outcomes }),
    ensures
        outcomes@.len() == s1.subscribers(topic@).len(),
        s2.events().offered().len() == s1.events().offered().len() + outcomes@.len(),
        s2.events().offered()[s2.events().offered().len() - 1].0 == sub,
        exists|event: Arc<Value>|
            s2.events().offered() == s1.events().offered() + offers(s1.subscribers(topic@), event),
{
    let event = choose|event: Arc<Value>|
        s2.events().offered() == s1.events().offered() + offers(s1.subscribers(topic@), event);
    let subs = s1.subscribers(topic@);
    assert(subs[subs.len() - 1] == sub);
    assert(s2.events().offered()[s2.events().offered().len() - 1] == offers(subs, event)[subs.len() - 1]);
}

/// A subscriber registered after a notification gets nothing from it: that
/// notification was offered only to the subscribers of its moment, and
/// registering replays nothing.
pub proof fn lemma_later_subscriber_misses_earlier(
    s0: Session,
    topic: String,
    outcomes: Vec<bool>,
    s1: Session,
    sub: Subscriber,
    s2: Session,
)
    requires
        s0.wf(),
        Session::routed(s0, s1, Routed::Notified { topic, outcomes }),
        Session::subscribed(s1, s2, topic@, sub),
        !s0.subscribers(topic@).contains(sub),
    ensures
        s2.events().offered() == s1.events().offered(),
        forall|i: int|
            s0.events().offered().len() <= i < s2.events().offered().len() ==> (
            #[trigger] s2.events().offered()[i]).0 != sub,
        s2.subscribers(topic@).last() == sub,
{
    let event = choose|event: Arc<Value>|
        s1.events().offered() == s0.events().offered() + offers(s0.subscribers(topic@), event);
    let b = s0.events().offered().len() as int;
    assert forall|i: int| b <= i < s2.events().offered().len() implies (
        #[trigger] s2.events().offered()[i]).0 != sub by {
        let subs = s0.subscribers(topic@);
        assert(s2.events().offered()[i] == offers(subs, event)[i - b]);
        assert(subs.contains(subs[i - b]));
    }
}

/// A notification on a topic that nobody subscribed to is offered to no one
/// and creates no topic.
pub proof fn lemma_unknown_topic_reaches_nobody(
    pre: Session,
    post: Session,
    topic: String,
    outcomes: Vec<bool>,
)
    requires
        pre.wf(),
        Session::routed(pre, post, Routed::Notified { topic, outcomes }),
        !pre.events().registry().contains_key(topic@),
    ensures
        outcomes@.len() == 0,
        post.events().offered() == pre.events().offered(),
        post.events().registry() == pre.events().registry(),
        post.slots() == pre.slots(),
{
    let event = choose|event: Arc<Value>|
        post.events().offered() == pre.events().offered() + offers(pre.subscribers(topic@), event);
    assert(post.events().offered() =~= pre.events().offered());
}

proof fn lemma_count_true_below(ok: Seq<bool>, i: int)
    requires
        0 <= i < ok.len(),
        !ok[i],
    ensures
        count_true(ok) < ok.len(),
    decreases ok.len(),
{
    lemma_count_true_at_most(ok.drop_last());
    if i < ok.len() - 1 {
        lemma_count_true_below(ok.drop_last(), i);
    }
}

proof fn lemma_count_true_at_most(ok: Seq<bool>)
    ensures
        count_true(ok) <= ok.len(),
    decreases ok.len(),
{
    if ok.len() > 0 {
        lemma_count_true_at_most(ok.drop_last());
    }
}

/// A subscriber whose offer failed because its receiving side is gone leaves
/// the topic; the dispatch reports no error, the topic stays, and the other
/// subscribers stay in order.
pub proof fn lemma_gone_subscriber_is_pruned(
    pre: Session,
    post: Session,
    topic: String,
    outcomes: Vec<bool>,
    i: int,
)
    requires
        pre.wf(),
        Session::routed(pre, post, Routed::Notified { topic, outcomes }),
        0 <= i < outcomes@.len(),
        !outcomes@[i],
    ensures
        post.events().registry().contains_key(topic@),
        post.subscribers(topic@) == kept(pre.subscribers(topic@), outcomes@),
        post.subscribers(topic@).len() < pre.subscribers(topic@).len(),
{
    let subs = pre.subscribers(topic@);
    assert(pre.events().registry().contains_key(topic@));
    lemma_kept_len(subs, outcomes@);
    lemma_count_true_below(outcomes@, i);
}

} // verus!
