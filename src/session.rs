//! The state that the transport loop and the callers share: pending commands,
//! subscribers, and whether the connection still runs. Every decision of the
//! runtime is a method here; the loop only moves frames.
use crate::envelope::{command_frame, command_text, parse_frame, reply_of_frame, Envelope};
use crate::json::{member_str_of, member_u64_of, parses_as_json};
use crate::error::CdpError;
use crate::json::null_value;
use crate::listeners::{kept, offers, EventListeners, Subscriber};
use crate::pending::{holds_id, lemma_table_at, table_of, PendingTable};
use serde_json::Value;
use std::sync::Arc;
use vstd::prelude::*;

verus! {

/// `tokio::sync::oneshot::Sender`, a single-use completion slot.
#[verifier::external_type_specification]
#[verifier::external_body]
#[verifier::reject_recursive_types(T)]
pub struct ExOneshotSender<T>(tokio::sync::oneshot::Sender<T>);

/// What a command resolves with: its reply payload (absent when the peer sent
/// none), or why it failed.
pub type Reply = Result<Option<Value>, CdpError>;

/// The single-use completion slot of one command.
pub type Slot = tokio::sync::oneshot::Sender<Reply>;

/// Relies on `tokio::sync::oneshot::Sender::send`: hands the reply to the
/// waiting receiver; when that receiver is gone the reply comes back, and is
/// dropped.
#[verifier::external_body]
fn complete(slot: Slot, reply: Reply) {
    let _ = slot.send(reply);
}

/// What handling one inbound frame did.
pub enum Routed {
    /// The reply went to the command sent with this id.
    Resolved(u64),
    /// A reply for an id that nobody waits for; dropped.
    UnknownId(u64),
    /// A notification on `topic` was offered to each of its subscribers;
    /// `outcomes` holds, in registration order, whether each offer went through.
    Notified { topic: String, outcomes: Vec<bool> },
    /// Not JSON, or neither a reply nor a notification; dropped.
    Discarded,
}

/// What the pending table, the completions and the issued ids agree on: a
/// closed session has nothing pending; ids were issued below the counter; a
/// pending slot is the one issued under its id; a completion used the slot
/// issued under its id, which is no longer pending; and no id completes twice.
pub open spec fn ledger_ok(
    table: PendingTable<Slot>,
    open: bool,
    settled: Seq<(u64, Slot, Reply)>,
    issued: Map<u64, Slot>,
) -> bool {
    &&& !open ==> table.slots() == Map::<u64, Slot>::empty()
    &&& forall|k: u64| #[trigger] issued.contains_key(k) ==> k < table.next_id()
    &&& forall|k: u64|
        #[trigger] table.slots().contains_key(k) ==> issued.contains_key(k) && issued[k]
            == table.slots()[k]
    &&& forall|i: int|
        0 <= i < settled.len() ==> {
            let k = (#[trigger] settled[i]).0;
            &&& issued.contains_key(k)
            &&& issued[k] == settled[i].1
            &&& !table.slots().contains_key(k)
        }
    &&& forall|i: int, j: int|
        0 <= i < j < settled.len() ==> (#[trigger] settled[i]).0 != (#[trigger] settled[j]).0
}

/// What the transport loop met on the connection.
pub enum Inbound {
    /// A text frame.
    Text(String),
    /// A binary, ping, pong or other non-text frame.
    Control,
    /// The peer closed the connection, or the inbound stream ended.
    Closed,
    /// Reading or writing failed.
    Failed,
    /// Every caller is gone and the outbound queue is drained.
    Finished,
}

/// What the transport loop does next.
pub enum LoopStep {
    /// A text frame was handled; keep running.
    Handled(Routed),
    /// A frame that carries nothing for the runtime; keep running.
    Ignored,
    /// The connection is over; this many pending commands were failed.
    Stopped(usize),
}

/// Shared state of one connection.
pub struct Session {
    pending: PendingTable<Slot>,
    listeners: EventListeners,
    open: bool,
    settled: Ghost<Seq<(u64, Slot, Reply)>>,
    issued: Ghost<Map<u64, Slot>>,
}

impl Session {
    /// The pending-request table.
    pub closed spec fn table(&self) -> PendingTable<Slot> {
        self.pending
    }

    /// The topic registry.
    pub closed spec fn events(&self) -> EventListeners {
        self.listeners
    }

    /// The connection still runs.
    pub closed spec fn is_open(&self) -> bool {
        self.open
    }

    /// Every completion so far, in order: the id, the slot that was filed
    /// under it, and the reply handed to that slot.
    pub closed spec fn settled(&self) -> Seq<(u64, Slot, Reply)> {
        self.settled@
    }

    /// Every id issued so far, with the slot filed under it.
    pub closed spec fn issued(&self) -> Map<u64, Slot> {
        self.issued@
    }

    /// The slots in flight, by id.
    pub open spec fn slots(&self) -> Map<u64, Slot> {
        self.table().slots()
    }

    /// The id that the next command receives.
    pub open spec fn next_id(&self) -> u64 {
        self.table().next_id()
    }

    /// The subscribers of `topic`, in registration order.
    pub open spec fn subscribers(&self, topic: Seq<char>) -> Seq<Subscriber> {
        self.events().subscribers(topic)
    }

    /// The table and the registry are well formed, and the table agrees with
    /// the completions and the issued ids.
    pub open spec fn wf(&self) -> bool {
        &&& self.table().wf()
        &&& self.events().wf()
        &&& ledger_ok(self.table(), self.is_open(), self.settled(), self.issued())
    }

    /// `post` is `pre` after a command went out under `id` with `slot`.
    pub open spec fn began(pre: Session, post: Session, id: u64, slot: Slot) -> bool {
        &&& pre.is_open() && pre.next_id() < u64::MAX
        &&& id == pre.next_id()
        &&& post.next_id() == id + 1
        &&& post.slots() == pre.slots().insert(id, slot)
        &&& post.events().registry() == pre.events().registry()
        &&& post.is_open()
        &&& post.settled() == pre.settled()
        &&& post.issued() == pre.issued().insert(id, slot)
        &&& post.events().offered() == pre.events().offered()
    }

    /// `post` is `pre` after `sub` subscribed to `topic`.
    pub open spec fn subscribed(pre: Session, post: Session, topic: Seq<char>, sub: Subscriber) -> bool {
        &&& post.events().registry() == pre.events().registry().insert(
            topic,
            pre.subscribers(topic).push(sub),
        )
        &&& post.table() == pre.table()
        &&& post.is_open() == pre.is_open()
        &&& post.settled() == pre.settled()
        &&& post.issued() == pre.issued()
        &&& post.events().offered() == pre.events().offered()
    }

    /// `post` is `pre` after one inbound frame was handled with result `r`.
    pub open spec fn routed(pre: Session, post: Session, r: Routed) -> bool {
        &&& post.next_id() == pre.next_id()
        &&& post.issued() == pre.issued()
        &&& post.is_open() == pre.is_open()
        &&& match r {
            Routed::Resolved(id) => {
                &&& pre.slots().contains_key(id)
                &&& post.slots() == pre.slots().remove(id)
                &&& post.events().registry() == pre.events().registry()
                &&& post.settled().len() == pre.settled().len() + 1
                &&& post.settled().drop_last() == pre.settled()
                &&& post.settled().last().0 == id
                &&& post.settled().last().1 == pre.slots()[id]
                &&& post.events().offered() == pre.events().offered()
            },
            Routed::UnknownId(id) => {
                &&& !pre.slots().contains_key(id)
                &&& post.slots() == pre.slots()
                &&& post.events().registry() == pre.events().registry()
                &&& post.settled() == pre.settled()
                &&& post.events().offered() == pre.events().offered()
            },
            Routed::Notified { topic, outcomes } => {
                &&& post.slots() == pre.slots()
                &&& post.settled() == pre.settled()
                &&& outcomes@.len() == pre.subscribers(topic@).len()
                &&& exists|event: Arc<Value>|
                    post.events().offered() == pre.events().offered() + offers(
                        pre.subscribers(topic@),
                        event,
                    )
                &&& if pre.events().registry().contains_key(topic@) {
                    post.events().registry() == pre.events().registry().insert(
                        topic@,
                        kept(pre.subscribers(topic@), outcomes@),
                    )
                } else {
                    post.events().registry() == pre.events().registry()
                }
            },
            Routed::Discarded => {
                &&& post.slots() == pre.slots()
                &&& post.events().registry() == pre.events().registry()
                &&& post.settled() == pre.settled()
                &&& post.events().offered() == pre.events().offered()
            },
        }
    }

    /// `post` is `pre` after the reply `reply` to the command sent with `id`
    /// went to the slot filed under `id`.
    pub open spec fn settles(pre: Session, post: Session, id: u64, reply: Reply) -> bool {
        &&& Session::routed(pre, post, Routed::Resolved(id))
        &&& post.settled() == pre.settled().push((id, pre.slots()[id], reply))
    }

    /// `post` is `pre` after the connection ended and `swept` pending commands
    /// were failed with `ConnectionClosed`: each pending id was settled once,
    /// with its own slot, and nothing else was.
    pub open spec fn ended(pre: Session, post: Session, swept: nat) -> bool {
        &&& !post.is_open()
        &&& post.slots() == Map::<u64, Slot>::empty()
        &&& swept == pre.slots().len()
        &&& post.next_id() == pre.next_id()
        &&& post.issued() == pre.issued()
        &&& post.events().registry() == pre.events().registry()
        &&& post.events().offered() == pre.events().offered()
        &&& post.settled().len() == pre.settled().len() + swept
        &&& post.settled().subrange(0, pre.settled().len() as int) == pre.settled()
        &&& forall|i: int|
            pre.settled().len() <= i < post.settled().len() ==> {
                let (k, slot, reply) = #[trigger] post.settled()[i];
                &&& pre.slots().contains_key(k)
                &&& pre.slots()[k] == slot
                &&& reply == Err::<Option<Value>, CdpError>(CdpError::ConnectionClosed)
            }
        &&& forall|k: u64|
            #[trigger] pre.slots().contains_key(k) ==> exists|i: int|
                pre.settled().len() <= i < post.settled().len() && post.settled()[i].0 == k
    }

    /// A running session with nothing pending and no topic; the first id is 1.
    pub fn new() -> (r: Self)
        ensures
            r.wf(),
            r.is_open(),
            r.next_id() == 1,
            r.slots() == Map::<u64, Slot>::empty(),
            r.events().registry() == Map::<Seq<char>, Seq<Subscriber>>::empty(),
            r.settled() == Seq::<(u64, Slot, Reply)>::empty(),
            r.issued() == Map::<u64, Slot>::empty(),
    {
        Session {
            pending: PendingTable::new(),
            listeners: EventListeners::new(),
            open: true,
            settled: Ghost(Seq::empty()),
            issued: Ghost(Map::empty()),
        }
    }

    /// Whether the connection still runs.
    pub fn running(&self) -> (r: bool)
        ensures
            r == self.is_open(),
    {
        self.open
    }

    /// The number of commands in flight.
    pub fn pending_count(&self) -> (r: usize)
        requires
            self.wf(),
        ensures
            r == self.slots().len(),
    {
        self.pending.len()
    }

    /// The id that the next command receives.
    pub fn peek_next_id(&self) -> (r: u64)
        ensures
            r == self.next_id(),
    {
        self.pending.peek_next_id()
    }

    /// The number of live subscribers of `topic`.
    pub fn subscriber_count(&self, topic: &str) -> (r: usize)
        requires
            self.wf(),
        ensures
            r == self.subscribers(topic@).len(),
    {
        self.listeners.subscriber_count(topic)
    }

    /// Files `slot` under the next id, before anything is sent, and returns
    /// that id with the text of the command to send. A session whose
    /// connection has ended, or that has issued every id, refuses with
    /// `ConnectionClosed` and files nothing.
    pub fn begin_command(
        &mut self,
        method: &str,
        params_json: &str,
        session_id: Option<&str>,
        slot: Slot,
    ) -> (r: Result<(u64, String), CdpError>)
        requires
            old(self).wf(),
        ensures
            final(self).wf(),
            match r {
                Ok((id, frame)) => {
                    &&& Session::began(*old(self), *final(self), id, slot)
                    &&& frame@ == command_text(
                        id,
                        method@,
                        params_json@,
                        match session_id {
                            Some(s) => Some(s@),
                            None => None,
                        },
                    )
                },
                Err(e) => {
                    &&& e is ConnectionClosed
                    &&& !(old(self).is_open() && old(self).next_id() < u64::MAX)
                    &&& *final(self) == *old(self)
                },
            },
    {
        if !self.open || self.pending.exhausted() {
            return Err(CdpError::ConnectionClosed);
        }
        let ghost filed = slot;
        let id = self.pending.register(slot);
        self.issued = Ghost(self.issued@.insert(id, filed));
        let frame = command_frame(id, method, params_json, session_id);
        Ok((id, frame))
    }

    /// Registers `sender` as a new subscriber of `topic`. Topics outlive the
    /// connection: after it ends they stay, and hear nothing.
    pub fn subscribe(&mut self, topic: &str, sender: Subscriber)
        requires
            old(self).wf(),
        ensures
            final(self).wf(),
            Session::subscribed(*old(self), *final(self), topic@, sender),
    {
        self.listeners.add_listener(topic, sender);
    }

    /// Acts on one classified frame: a reply goes to the slot filed under its
    /// id, which leaves the table; a notification is offered to every current
    /// subscriber of its topic.
    pub fn route(&mut self, envelope: Envelope) -> (r: Routed)
        requires
            old(self).wf(),
        ensures
            final(self).wf(),
            Session::routed(*old(self), *final(self), r),
            match envelope {
                Envelope::CommandResult { id, reply } => (r == Routed::Resolved(id) && Session::settles(
                    *old(self),
                    *final(self),
                    id,
                    reply,
                )) || r == Routed::UnknownId(id),
                Envelope::Notification { method, params } => r matches Routed::Notified { topic, .. }
                    && topic@ == method@ && exists|event: Arc<Value>|
                    final(self).events().offered() == old(self).events().offered() + offers(
                        old(self).subscribers(method@),
                        event,
                    ) && (params matches Some(p) ==> event == p),
                Envelope::Unrecognized => r is Discarded && *final(self) == *old(self),
            },
    {
        match envelope {
            Envelope::CommandResult { id, reply } => match self.pending.take(id) {
                Some(slot) => {
                    proof {
                        assert(Map::<u64, Slot>::empty().remove(id) =~= Map::<u64, Slot>::empty());
                    }
                    let ghost entry = (id, slot, reply);
                    self.settled = Ghost(self.settled@.push(entry));
                    proof {
                        let pre = *old(self);
                        let st = self.settled@;
                        assert(st.drop_last() =~= pre.settled@);
                        assert forall|i: int| 0 <= i < st.len() implies {
                            let k = (#[trigger] st[i]).0;
                            &&& self.issued@.contains_key(k)
                            &&& self.issued@[k] == st[i].1
                            &&& !self.slots().contains_key(k)
                        } by {
                            if i < pre.settled@.len() {
                                assert(st[i] == pre.settled@[i]);
                            }
                        }
                        assert forall|i: int, j: int| 0 <= i < j < st.len() implies (#[trigger] st[i]).0
                            != (#[trigger] st[j]).0 by {
                            if j == st.len() - 1 {
                                assert(st[i] == pre.settled@[i]);
                            } else {
                                assert(st[i] == pre.settled@[i]);
                                assert(st[j] == pre.settled@[j]);
                            }
                        }
                    }
                    complete(slot, reply);
                    Routed::Resolved(id)
                },
                None => {
                    proof {
                        assert(old(self).slots().remove(id) =~= old(self).slots());
                    }
                    Routed::UnknownId(id)
                },
            },
            Envelope::Notification { method, params } => {
                let payload = match params {
                    Some(p) => p,
                    None => null_value(),
                };
                let outcomes = self.listeners.dispatch(method.as_str(), Arc::new(payload));
                Routed::Notified { topic: method, outcomes }
            },
            Envelope::Unrecognized => Routed::Discarded,
        }
    }

    /// What handling the text frame `text` did: a frame with an id settles
    /// the command sent with it, with the reply that the frame carries, or
    /// finds none waiting; else a frame with a method notifies that topic;
    /// anything else, text that is not JSON included, is discarded.
    pub open spec fn handled_frame(text: Seq<char>, post: Session, r: Routed) -> bool {
        match member_u64_of(text, "id"@) {
            Some(k) => (r == Routed::Resolved(k) && reply_of_frame(text, post.settled().last().2))
                || r == Routed::UnknownId(k),
            None => match member_str_of(text, "method"@) {
                Some(m) => r matches Routed::Notified { topic, .. } && topic@ == m,
                None => r is Discarded,
            },
        }
    }

    /// Handles one inbound text frame.
    pub fn handle_text(&mut self, text: &str) -> (r: Routed)
        requires
            old(self).wf(),
        ensures
            final(self).wf(),
            Session::routed(*old(self), *final(self), r),
            Session::handled_frame(text@, *final(self), r),
            !parses_as_json(text@) ==> r is Discarded && *final(self) == *old(self),
    {
        let envelope = parse_frame(text);
        self.route(envelope)
    }

    /// Ends the session: every pending command resolves with
    /// `ConnectionClosed`, and none can be filed afterwards. Returns how many
    /// were pending.
    pub fn close(&mut self) -> (swept: usize)
        requires
            old(self).wf(),
        ensures
            final(self).wf(),
            Session::ended(*old(self), *final(self), swept as nat),
    {
        self.open = false;
        let mut drained = self.pending.drain();
        let ghost orig = drained@;
        let ghost before = self.settled@;
        let ghost emptied = self.pending;
        let swept = drained.len();
        while drained.len() > 0
            invariant
                !self.open,
                self.pending == emptied,
                self.listeners == old(self).listeners,
                self.issued == old(self).issued,
                drained@ == orig.take(drained@.len() as int),
                drained@.len() <= orig.len(),
                self.settled@.len() == before.len() + (orig.len() - drained@.len()),
                self.settled@.subrange(0, before.len() as int) == before,
                forall|t: int|
                    0 <= t < orig.len() - drained@.len() ==> #[trigger] self.settled@[before.len() + t] == (
                        orig[orig.len() - 1 - t].0,
                        orig[orig.len() - 1 - t].1,
                        Err::<Option<Value>, CdpError>(CdpError::ConnectionClosed),
                    ),
            decreases drained@.len(),
        {
            let ghost n = drained@.len() as int;
            let (k, slot) = drained.pop().unwrap();
            let ghost entry = (k, slot, Err::<Option<Value>, CdpError>(CdpError::ConnectionClosed));
            let ghost prev = self.settled@;
            self.settled = Ghost(self.settled@.push(entry));
            proof {
                assert(orig[n - 1] == (k, slot));
                assert(drained@ =~= orig.take(n - 1));
                assert(self.settled@.subrange(0, before.len() as int) =~= prev.subrange(0, before.len() as int));
                assert forall|t: int| 0 <= t < orig.len() - drained@.len() implies #[trigger] self.settled@[before.len() + t] == (
                    orig[orig.len() - 1 - t].0,
                    orig[orig.len() - 1 - t].1,
                    Err::<Option<Value>, CdpError>(CdpError::ConnectionClosed),
                ) by {
                    if t < orig.len() - n {
                        assert(self.settled@[before.len() + t] == prev[before.len() + t]);
                    }
                }
            }
            complete(slot, Err(CdpError::ConnectionClosed));
        }
        proof {
            let pre = *old(self);
            let st = self.settled@;
            let m = orig.len() as int;
            let b = before.len() as int;
            assert(pre.slots() == table_of(orig));
            assert(self.slots() == Map::<u64, Slot>::empty());
            assert forall|i: int| b <= i < st.len() implies {
                let (k, slot, reply) = #[trigger] st[i];
                &&& pre.slots().contains_key(k)
                &&& pre.slots()[k] == slot
                &&& reply == Err::<Option<Value>, CdpError>(CdpError::ConnectionClosed)
            } by {
                let t = i - b;
                assert(st[b + t] == st[i]);
                lemma_table_at(orig, m - 1 - t);
            }
            assert forall|k: u64| #[trigger] pre.slots().contains_key(k) implies exists|i: int|
                b <= i < st.len() && st[i].0 == k by {
                assert(holds_id(orig, k));
                let j = choose|j: int| 0 <= j < orig.len() && orig[j].0 == k;
                let t = m - 1 - j;
                assert(st[b + t].0 == k);
            }
            assert forall|i: int| 0 <= i < st.len() implies {
                let k = (#[trigger] st[i]).0;
                &&& self.issued@.contains_key(k)
                &&& self.issued@[k] == st[i].1
                &&& !self.slots().contains_key(k)
            } by {
                if i < b {
                    assert(st[i] == before[i]);
                } else {
                    let t = i - b;
                    assert(st[b + t] == st[i]);
                    lemma_table_at(orig, m - 1 - t);
                }
            }
            assert forall|i: int, j: int| 0 <= i < j < st.len() implies (#[trigger] st[i]).0
                != (#[trigger] st[j]).0 by {
                if j < b {
                    assert(st[i] == before[i]);
                    assert(st[j] == before[j]);
                } else if i < b {
                    assert(st[i] == before[i]);
                    let t = j - b;
                    assert(st[b + t] == st[j]);
                    lemma_table_at(orig, m - 1 - t);
                } else {
                    let ti = i - b;
                    let tj = j - b;
                    assert(st[b + ti] == st[i]);
                    assert(st[b + tj] == st[j]);
                    assert(orig[m - 1 - tj].0 < orig[m - 1 - ti].0);
                }
            }
            assert(st.subrange(0, b) =~= before);
        }
        swept
    }

    /// Decides on one event of the transport loop: a text frame is handled,
    /// a non-text frame is ignored, and anything that ends the connection
    /// ends the session.
    pub fn on_inbound(&mut self, event: Inbound) -> (r: LoopStep)
        requires
            old(self).wf(),
        ensures
            final(self).wf(),
            match event {
                Inbound::Text(text) => r matches LoopStep::Handled(x) && Session::routed(
                    *old(self),
                    *final(self),
                    x,
                ) && Session::handled_frame(text@, *final(self), x),
                Inbound::Control => r is Ignored && *final(self) == *old(self),
                _ => r matches LoopStep::Stopped(n) && Session::ended(*old(self), *final(self), n as nat),
            },
    {
        match event {
            Inbound::Text(text) => LoopStep::Handled(self.handle_text(text.as_str())),
            Inbound::Control => LoopStep::Ignored,
            _ => LoopStep::Stopped(self.close()),
        }
    }
}

} // verus!
