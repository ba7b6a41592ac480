//! Mailboxes with a bound, and the bus that delivers messages to them.

use crate::bus_store::{kept_after, Entries, BusStore};
use crate::fleet::message::{dedup_key, is_mergeable, messages, BusMessage, MessageKind, MessageModel, WorkerEvent};
use crate::fleet::wait_graph::AgentId;
use crate::json::Json;
use crate::table::Table;
use crate::text::{copy_str, decimal, decimal_text, texts};
use vstd::prelude::*;

verus! {

/// What happens to a message where the mailbox is full.
#[derive(Debug, Clone, Copy, PartialEq, Eq, Structural)]
pub enum OverflowPolicy {
    /// Progress messages are dropped; all others are reported as not delivered.
    DropMergeable,
    /// Every message is reported as not delivered.
    Reject,
}

/// What became of a message that was accepted.
#[derive(Debug, Clone, Copy, PartialEq, Eq, Structural)]
pub enum PushOutcome {
    Pushed,
    /// Dropped by policy, not delivered.
    Dropped,
}

/// Why a message was not delivered.
#[derive(Debug, PartialEq, Eq)]
pub enum BusError {
    MailboxFull(usize),
    UnknownAgent(AgentId),
    /// A critical message could not be kept.
    Persist(String),
}

impl BusError {
    /// The message of the error.
    pub open spec fn message_of(self) -> Seq<char> {
        match self {
            BusError::MailboxFull(cap) => "mailbox full (capacity "@ + decimal(cap as nat) + ")"@,
            BusError::UnknownAgent(id) => "unknown agent `"@ + id@ + "`"@,
            BusError::Persist(reason) => "总线消息持久化失败："@ + reason@,
        }
    }

    /// The message of the error.
    pub fn message(&self) -> (r: String)
        ensures
            r@ == self.message_of(),
    {
        match self {
            BusError::MailboxFull(cap) => {
                let mut s = copy_str("mailbox full (capacity ");
                let n = decimal_text(*cap as u64);
                s.append(n.as_str());
                s.append(")");
                s
            },
            BusError::UnknownAgent(id) => {
                let mut s = copy_str("unknown agent `");
                s.append(id.as_str());
                s.append("`");
                s
            },
            BusError::Persist(reason) => {
                let mut s = copy_str("总线消息持久化失败：");
                s.append(reason.as_str());
                s
            },
        }
    }
}

/// A queue of messages with a bound.
pub struct Mailbox {
    pub capacity: usize,
    pub queue: Vec<BusMessage>,
}

/// The bound and the messages that wait.
pub struct MailboxModel {
    pub capacity: nat,
    pub queue: Seq<MessageModel>,
}

impl View for Mailbox {
    type V = MailboxModel;

    open spec fn view(&self) -> MailboxModel {
        MailboxModel { capacity: self.capacity as nat, queue: messages(self.queue@) }
    }
}

impl MailboxModel {
    /// There is room for a message.
    pub open spec fn has_room(self) -> bool {
        self.queue.len() < self.capacity
    }

    /// The mailbox after a message came in.
    pub open spec fn pushed(self, m: MessageModel) -> MailboxModel {
        if self.has_room() {
            MailboxModel { capacity: self.capacity, queue: self.queue.push(m) }
        } else {
            self
        }
    }

    /// What is answered to a message.
    pub open spec fn answer(self, m: MessageModel, policy: OverflowPolicy) -> Result<PushOutcome, BusError> {
        if self.has_room() {
            Ok(PushOutcome::Pushed)
        } else if policy is DropMergeable && m.kind is Progress {
            Ok(PushOutcome::Dropped)
        } else {
            Err(BusError::MailboxFull(self.capacity as usize))
        }
    }
}

impl Mailbox {
    /// There is room for at least one message, and never more wait than there
    /// is room for.
    pub open spec fn wf(self) -> bool {
        1 <= self.capacity && self.queue@.len() <= self.capacity
    }

    /// An empty mailbox; a bound of zero counts as one.
    pub fn new(capacity: usize) -> (r: Mailbox)
        ensures
            r.wf(),
            r.capacity == (if capacity == 0 { 1 } else { capacity }),
            r.queue@.len() == 0,
    {
        Mailbox { capacity: if capacity == 0 { 1 } else { capacity }, queue: Vec::new() }
    }

    pub fn capacity(&self) -> (r: usize)
        ensures
            r == self.capacity,
    {
        self.capacity
    }

    /// The number of messages that wait.
    pub fn len(&self) -> (r: usize)
        ensures
            r == self.queue@.len(),
    {
        self.queue.len()
    }

    pub fn is_empty(&self) -> (r: bool)
        ensures
            r == (self.queue@.len() == 0),
    {
        self.queue.is_empty()
    }

    /// Puts a message at the end where there is room; else the policy decides
    /// whether it is dropped or reported.
    pub fn push(&mut self, msg: BusMessage, policy: OverflowPolicy) -> (r: Result<PushOutcome, BusError>)
        requires
            old(self).wf(),
        ensures
            final(self).wf(),
            final(self)@ == old(self)@.pushed(msg@),
            final(self).capacity == old(self).capacity,
            old(self)@.has_room() ==> final(self).queue@ == old(self).queue@.push(msg),
            !old(self)@.has_room() ==> final(self).queue@ == old(self).queue@,
            r == old(self)@.answer(msg@, policy),
    {
        let ghost before = self.queue@;
        if self.queue.len() < self.capacity {
            self.queue.push(msg);
            assert(messages(self.queue@) =~= messages(before).push(msg@));
            return Ok(PushOutcome::Pushed);
        }
        match policy {
            OverflowPolicy::DropMergeable => {
                if is_mergeable(msg.kind) {
                    return Ok(PushOutcome::Dropped);
                }
            },
            OverflowPolicy::Reject => {},
        }
        Err(BusError::MailboxFull(self.capacity))
    }

    /// Takes all messages out, in the order in which they came in.
    pub fn drain(&mut self) -> (r: Vec<BusMessage>)
        requires
            old(self).wf(),
        ensures
            final(self).wf(),
            final(self).capacity == old(self).capacity,
            final(self).queue@.len() == 0,
            r@ == old(self).queue@,
    {
        let mut taken: Vec<BusMessage> = Vec::new();
        std::mem::swap(&mut taken, &mut self.queue);
        taken
    }
}

/// The mailboxes of the registered agents, the number of the next message and
/// the store for the messages that have to survive a restart.
pub struct AgentBus {
    pub mailboxes: Table<Mailbox>,
    pub next_id: u64,
    pub store: Option<BusStore>,
}

/// The mailboxes as the agents' names lead to them.
pub open spec fn boxes_model(m: Map<Seq<char>, Mailbox>) -> Map<Seq<char>, MailboxModel> {
    m.map_values(|b: Mailbox| b@)
}

/// The kept messages after another one came in.
pub open spec fn store_after(store: Option<BusStore>, m: MessageModel) -> Option<Entries> {
    match store {
        Some(s) => if s.keeps(m.kind) {
            Some(kept_after(s.entries(), dedup_key(m), m))
        } else {
            Some(s.entries())
        },
        None => None,
    }
}

/// The kept messages.
pub open spec fn store_entries(store: Option<BusStore>) -> Option<Entries> {
    match store {
        Some(s) => Some(s.entries()),
        None => None,
    }
}

/// The rules of the store and its count of damaged lines are the same.
pub open spec fn same_rules(before: Option<BusStore>, after: Option<BusStore>) -> bool {
    match (before, after) {
        (Some(b), Some(a)) => a.policy == b.policy && a.bad_lines == b.bad_lines,
        (None, None) => true,
        _ => false,
    }
}

/// The number after `n`; after the greatest comes zero.
pub open spec fn following(n: u64) -> u64 {
    if n == u64::MAX {
        0u64
    } else {
        (n + 1) as u64
    }
}

impl AgentBus {
    /// No agent has two mailboxes, and every mailbox and the store are sound.
    pub open spec fn wf(self) -> bool {
        &&& self.mailboxes.wf()
        &&& forall|i: int| 0 <= i < self.mailboxes.entries@.len() ==> (#[trigger] self.mailboxes.entries@[i]).1.wf()
        &&& self.store matches Some(s) ==> s.wf()
    }

    /// The mailboxes by name.
    pub open spec fn boxes(self) -> Map<Seq<char>, MailboxModel> {
        boxes_model(self.mailboxes@)
    }

    /// A bus without agents and without a store.
    pub fn new() -> (r: AgentBus)
        ensures
            r.wf(),
            r.boxes() == Map::<Seq<char>, MailboxModel>::empty(),
            r.mailboxes.keys().len() == 0,
            r.next_id == 0,
            r.store is None,
    {
        let r = AgentBus { mailboxes: Table::new(), next_id: 0, store: None };
        assert(r.boxes() =~= Map::<Seq<char>, MailboxModel>::empty());
        r
    }

    /// Has the bus keep its messages in `store` from now on.
    pub fn attach_store(&mut self, store: BusStore)
        requires
            old(self).wf(),
            store.wf(),
        ensures
            final(self).wf(),
            final(self).mailboxes == old(self).mailboxes,
            final(self).next_id == old(self).next_id,
            final(self).store == Some(store),
    {
        self.store = Some(store);
    }

    /// The number of kept messages.
    pub fn store_len(&self) -> (r: usize)
        ensures
            r == (match self.store {
                Some(s) => s.entries().len(),
                None => 0,
            }),
    {
        match &self.store {
            Some(s) => s.len(),
            None => 0,
        }
    }

    /// Gives an agent an empty mailbox, in place of the one it had.
    pub fn register(&mut self, id: &str, capacity: usize)
        requires
            old(self).wf(),
        ensures
            final(self).wf(),
            final(self).boxes() == old(self).boxes().insert(
                id@,
                MailboxModel { capacity: (if capacity == 0 { 1nat } else { capacity as nat }), queue: seq![] },
            ),
            final(self).next_id == old(self).next_id,
            final(self).store == old(self).store,
    {
        let ghost before = *self;
        let fresh = Mailbox::new(capacity);
        assert(fresh@.queue =~= seq![]);
        self.mailboxes.insert(copy_str(id), fresh);
        proof {
            assert(self.boxes() =~= before.boxes().insert(id@, fresh@));
            self.boxes_stay_sound(before, id@, fresh);
        }
    }

    /// Where one mailbox was replaced by a sound one, all are sound.
    proof fn boxes_stay_sound(self, before: AgentBus, id: Seq<char>, b: Mailbox)
        requires
            before.wf(),
            self.mailboxes.wf(),
            b.wf(),
            self.mailboxes@ == before.mailboxes@.insert(id, b),
        ensures
            forall|i: int| 0 <= i < self.mailboxes.entries@.len() ==> (#[trigger] self.mailboxes.entries@[i]).1.wf(),
    {
        assert forall|i: int| 0 <= i < self.mailboxes.entries@.len() implies (#[trigger] self.mailboxes.entries@[i]).1.wf() by {
            self.mailboxes.entry_is_value(i);
            let k = self.mailboxes.entries@[i].0@;
            if k != id {
                before.mailboxes.slot_of_key(k);
                assert(before.mailboxes.entries@[before.mailboxes.slot(k)].1.wf());
            }
        }
    }

    /// Takes the mailbox of an agent away; returns whether it had one.
    pub fn unregister(&mut self, id: &str) -> (r: bool)
        requires
            old(self).wf(),
        ensures
            final(self).wf(),
            final(self).boxes() == old(self).boxes().remove(id@),
            final(self).next_id == old(self).next_id,
            final(self).store == old(self).store,
            r == old(self).boxes().contains_key(id@),
    {
        let ghost before = *self;
        let taken = self.mailboxes.remove(id);
        proof {
            assert(self.boxes() =~= before.boxes().remove(id@));
            assert forall|i: int| 0 <= i < self.mailboxes.entries@.len() implies (#[trigger] self.mailboxes.entries@[i]).1.wf() by {
                self.mailboxes.entry_is_value(i);
                let k = self.mailboxes.entries@[i].0@;
                before.mailboxes.slot_of_key(k);
                assert(before.mailboxes.entries@[before.mailboxes.slot(k)].1.wf());
            }
        }
        taken.is_some()
    }

    /// Whether an agent has a mailbox.
    pub fn contains(&self, id: &str) -> (r: bool)
        requires
            self.wf(),
        ensures
            r == self.boxes().contains_key(id@),
    {
        self.mailboxes.contains(id)
    }

    /// The number of agents with a mailbox.
    pub fn agent_count(&self) -> (r: usize)
        ensures
            r == self.mailboxes.keys().len(),
    {
        self.mailboxes.len()
    }

    /// Hands a message to the mailbox of the agent that it is meant for.
    fn hand_over(&mut self, msg: BusMessage, policy: OverflowPolicy) -> (r: Option<Result<PushOutcome, BusError>>)
        requires
            old(self).wf(),
        ensures
            final(self).wf(),
            final(self).next_id == old(self).next_id,
            final(self).store == old(self).store,
            final(self).mailboxes.keys() == old(self).mailboxes.keys(),
            match r {
                None => !old(self).boxes().contains_key(msg@.to) && final(self).boxes() == old(self).boxes(),
                Some(a) => {
                    &&& old(self).boxes().contains_key(msg@.to)
                    &&& a == old(self).boxes()[msg@.to].answer(msg@, policy)
                    &&& final(self).boxes() == old(self).boxes().insert(
                        msg@.to,
                        old(self).boxes()[msg@.to].pushed(msg@),
                    )
                },
            },
    {
        let ghost before = *self;
        match self.mailboxes.find(msg.to.as_str()) {
            None => None,
            Some(i) => {
                let ghost to = msg@.to;
                let ghost m = msg@;
                assert(self.mailboxes.entries@[i as int].1.wf());
                let mut b = Mailbox::new(1);
                let e = &mut self.mailboxes.entries[i];
                std::mem::swap(&mut b, &mut e.1);
                let ghost taken = b;
                assert(taken == before.mailboxes.entries@[i as int].1);
                let a = b.push(msg, policy);
                let ghost mid = *self;
                assert(mid.mailboxes.wf()) by {
                    assert forall|p: int, q: int| 0 <= p < q < mid.mailboxes.entries@.len() implies #[trigger] mid.mailboxes.entries@[p].0@
                        != #[trigger] mid.mailboxes.entries@[q].0@ by {
                        assert(before.mailboxes.entries@[p].0@ != before.mailboxes.entries@[q].0@);
                    }
                }
                self.mailboxes.set_value(i, b);
                proof {
                    assert(mid.mailboxes.keys() =~= before.mailboxes.keys());
                    let after = self.mailboxes;
                    assert(after@.dom() =~= before.mailboxes@.dom().insert(to));
                    assert forall|k: Seq<char>| #[trigger] after@.contains_key(k) implies after@[k] == before.mailboxes@.insert(
                        to,
                        b,
                    )[k] by {
                        after.slot_of_key(k);
                        before.mailboxes.slot_of_key(k);
                    }
                    assert(after@ =~= before.mailboxes@.insert(to, b));
                    self.boxes_stay_sound(before, to, b);
                    assert(self.boxes() =~= before.boxes().insert(to, before.boxes()[to].pushed(m)));
                }
                Some(a)
            },
        }
    }

    /// Numbers a message and keeps it where its kind has to be kept.
    pub fn stage(&mut self, from: &str, to: &str, kind: MessageKind, correlation_id: &str, payload: Json) -> (r: BusMessage)
        requires
            old(self).wf(),
        ensures
            final(self).wf(),
            r@ == (MessageModel {
                id: old(self).next_id,
                from: from@,
                to: to@,
                kind,
                correlation_id: correlation_id@,
                payload: payload.model(),
            }),
            final(self).next_id == following(old(self).next_id),
            store_entries(final(self).store) == store_after(old(self).store, r@),
            same_rules(old(self).store, final(self).store),
            final(self).mailboxes == old(self).mailboxes,
    {
        let id: u64 = self.next_id;
        self.next_id = if id == u64::MAX {
            0
        } else {
            id + 1
        };
        let msg = BusMessage {
            id,
            from: copy_str(from),
            to: copy_str(to),
            kind,
            correlation_id: copy_str(correlation_id),
            payload,
        };
        self.keep(&msg);
        msg
    }

    fn keep(&mut self, msg: &BusMessage)
        requires
            old(self).wf(),
        ensures
            final(self).wf(),
            final(self).mailboxes == old(self).mailboxes,
            final(self).next_id == old(self).next_id,
            store_entries(final(self).store) == store_after(old(self).store, msg@),
            same_rules(old(self).store, final(self).store),
    {
        let mut store: Option<BusStore> = None;
        std::mem::swap(&mut store, &mut self.store);
        match store {
            Some(s) => {
                let mut s = s;
                if s.should_persist(msg.kind) {
                    s.persist(msg);
                }
                self.store = Some(s);
            },
            None => {},
        }
    }

    /// Delivers a message that was numbered before.
    pub fn deliver(&mut self, msg: BusMessage, policy: OverflowPolicy) -> (r: Result<u64, BusError>)
        requires
            old(self).wf(),
        ensures
            final(self).wf(),
            final(self).next_id == old(self).next_id,
            final(self).store == old(self).store,
            delivered(old(self).boxes(), msg@, policy, final(self).boxes(), r),
    {
        let id: u64 = msg.id;
        let to = msg.to.clone();
        match self.hand_over(msg, policy) {
            None => Err(BusError::UnknownAgent(to)),
            Some(Ok(_)) => Ok(id),
            Some(Err(e)) => Err(e),
        }
    }

    /// Sends a message: it is kept first where its kind has to be kept, then
    /// delivered. An agent without a mailbox and a full mailbox are reported; a
    /// message that is dropped by policy counts as sent.
    pub fn send(
        &mut self,
        from: &str,
        to: &str,
        kind: MessageKind,
        correlation_id: &str,
        payload: Json,
        policy: OverflowPolicy,
    ) -> (r: Result<u64, BusError>)
        requires
            old(self).wf(),
        ensures
            final(self).wf(),
            ({
                let m = MessageModel {
                    id: old(self).next_id,
                    from: from@,
                    to: to@,
                    kind,
                    correlation_id: correlation_id@,
                    payload: payload.model(),
                };
                &&& final(self).next_id == following(old(self).next_id)
                &&& store_entries(final(self).store) == store_after(old(self).store, m)
                &&& same_rules(old(self).store, final(self).store)
                &&& delivered(old(self).boxes(), m, policy, final(self).boxes(), r)
            }),
    {
        let msg = self.stage(from, to, kind, correlation_id, payload);
        self.deliver(msg, policy)
    }

    /// Sends a message to every registered agent; agents whose mailbox is full
    /// are passed over. Returns the agents that got it, in the order of their
    /// registration. It is kept once, as the message to the first of them.
    pub fn broadcast(
        &mut self,
        from: &str,
        topic: &str,
        kind: MessageKind,
        correlation_id: &str,
        payload: Json,
        policy: OverflowPolicy,
    ) -> (r: Vec<AgentId>)
        requires
            old(self).wf(),
        ensures
            final(self).wf(),
            final(self).next_id == following(old(self).next_id),
            same_rules(old(self).store, final(self).store),
            ({
                let m = MessageModel {
                    id: old(self).next_id,
                    from: from@,
                    to: seq![],
                    kind,
                    correlation_id: correlation_id@,
                    payload: payload.model(),
                };
                &&& final(self).boxes() == spread(old(self).boxes(), m)
                &&& texts(r@) == reached(old(self).boxes(), old(self).mailboxes.keys())
                &&& store_entries(final(self).store) == if r@.len() > 0 {
                    store_after(old(self).store, addressed(m, r@[0]@))
                } else {
                    store_entries(old(self).store)
                }
            }),
    {
        let ghost before = *self;
        let id: u64 = self.next_id;
        self.next_id = if id == u64::MAX {
            0
        } else {
            id + 1
        };
        let ghost m = MessageModel {
            id,
            from: from@,
            to: seq![],
            kind,
            correlation_id: correlation_id@,
            payload: payload.model(),
        };
        let ghost keys = before.mailboxes.keys();
        let mut got: Vec<AgentId> = Vec::new();
        let n: usize = self.mailboxes.len();
        for i in 0..n
            invariant
                self.wf(),
                before.wf(),
                n == keys.len(),
                keys == before.mailboxes.keys(),
                self.mailboxes.keys() == keys,
                self.next_id == following(before.next_id),
                self.store == before.store,
                id == before.next_id,
                m == (MessageModel {
                    id,
                    from: from@,
                    to: seq![],
                    kind,
                    correlation_id: correlation_id@,
                    payload: payload.model(),
                }),
                self.boxes().dom() == before.boxes().dom(),
                forall|k: Seq<char>|
                    #[trigger] before.boxes().contains_key(k) ==> self.boxes()[k] == (if before.mailboxes.slot(k) < i {
                        before.boxes()[k].pushed(addressed(m, k))
                    } else {
                        before.boxes()[k]
                    }),
                texts(got@) == reached(before.boxes(), keys.take(i as int)),
        {
            assert(self.mailboxes.keys()[i as int] == self.mailboxes.entries@[i as int].0@);
            let to = self.mailboxes.entries[i].0.clone();
            let msg = BusMessage {
                id,
                from: copy_str(from),
                to: to.clone(),
                kind,
                correlation_id: copy_str(correlation_id),
                payload: payload.clone(),
            };
            let ghost loop_before = *self;
            let ghost k0 = to@;
            proof {
                assert(before.mailboxes.entries@[i as int].0@ == keys[i as int]);
                before.mailboxes.entry_is_value(i as int);
                assert(before.boxes().contains_key(k0));
                assert(msg@ == addressed(m, k0));
                assert(loop_before.boxes()[k0] == before.boxes()[k0]);
            }
            let answer = self.hand_over(msg, policy);
            proof {
                assert(answer is Some);
                assert(self.boxes().dom() =~= before.boxes().dom());
                assert forall|k: Seq<char>| #[trigger] before.boxes().contains_key(k) implies self.boxes()[k] == (if before.mailboxes.slot(k)
                    < i + 1 {
                    before.boxes()[k].pushed(addressed(m, k))
                } else {
                    before.boxes()[k]
                }) by {
                    before.mailboxes.slot_of_key(k);
                    if before.mailboxes.slot(k) == i {
                        assert(k == k0);
                    } else {
                        assert(k != k0);
                    }
                }
                assert(keys.take(i + 1).drop_last() =~= keys.take(i as int));
            }
            let ghost got0 = got@;
            match answer {
                Some(Ok(PushOutcome::Pushed)) => {
                    got.push(to);
                    assert(texts(got@) =~= texts(got0).push(k0));
                },
                _ => {},
            }
        }
        proof {
            assert(keys.take(keys.len() as int) =~= keys);
            assert forall|k: Seq<char>| #[trigger] before.boxes().contains_key(k) implies self.boxes()[k] == spread(
                before.boxes(),
                m,
            )[k] by {
                before.mailboxes.slot_of_key(k);
            }
            assert(self.boxes() =~= spread(before.boxes(), m));
        }
        if got.len() > 0 {
            let representative = BusMessage {
                id,
                from: copy_str(from),
                to: got[0].clone(),
                kind,
                correlation_id: copy_str(correlation_id),
                payload,
            };
            self.keep(&representative);
        }
        got
    }

    /// Delivers the kept messages again, in their order; returns how many found
    /// a mailbox with room.
    pub fn replay_store(&mut self) -> (r: usize)
        requires
            old(self).wf(),
        ensures
            final(self).wf(),
            final(self).next_id == old(self).next_id,
            final(self).store == old(self).store,
            match old(self).store {
                Some(s) => {
                    let ms = s.entries().map_values(|e: (Seq<char>, MessageModel)| e.1);
                    final(self).boxes() == redelivered(old(self).boxes(), ms) && r == redelivered_count(
                        old(self).boxes(),
                        ms,
                    )
                },
                None => final(self).boxes() == old(self).boxes() && r == 0,
            },
    {
        let ghost before = *self;
        let msgs = match &self.store {
            Some(s) => s.replay_messages(),
            None => {
                return 0;
            },
        };
        let ghost ms = messages(msgs@);
        let mut count: usize = 0;
        for i in 0..msgs.len()
            invariant
                self.wf(),
                ms == messages(msgs@),
                self.next_id == before.next_id,
                self.store == before.store,
                self.boxes() == redelivered(before.boxes(), ms.take(i as int)),
                count == redelivered_count(before.boxes(), ms.take(i as int)),
                count <= i,
        {
            proof {
                assert(ms.take(i + 1).drop_last() =~= ms.take(i as int));
                assert(ms.take(i + 1).last() == msgs@[i as int]@);
            }
            match self.hand_over(msgs[i].clone(), OverflowPolicy::Reject) {
                Some(Ok(PushOutcome::Pushed)) => {
                    count += 1;
                },
                _ => {},
            }
        }
        assert(ms.take(ms.len() as int) =~= ms);
        count
    }

    /// Sends an event of a worker to its supervisor; a full mailbox is reported.
    pub fn send_worker_event(&mut self, from: &str, to: &str, event: &WorkerEvent) -> (r: Result<u64, BusError>)
        requires
            old(self).wf(),
        ensures
            final(self).wf(),
            ({
                let m = MessageModel {
                    id: old(self).next_id,
                    from: from@,
                    to: to@,
                    kind: MessageKind::Task,
                    correlation_id: event.correlation_id@,
                    payload: event.json_model(),
                };
                &&& final(self).next_id == following(old(self).next_id)
                &&& store_entries(final(self).store) == store_after(old(self).store, m)
                &&& same_rules(old(self).store, final(self).store)
                &&& delivered(old(self).boxes(), m, OverflowPolicy::Reject, final(self).boxes(), r)
            }),
    {
        self.send(
            from,
            to,
            MessageKind::Task,
            event.correlation_id.as_str(),
            event.to_json(),
            OverflowPolicy::Reject,
        )
    }

    /// Takes the messages of an agent out; none where it has no mailbox.
    pub fn drain(&mut self, id: &str) -> (r: Vec<BusMessage>)
        requires
            old(self).wf(),
        ensures
            final(self).wf(),
            final(self).next_id == old(self).next_id,
            final(self).store == old(self).store,
            if old(self).boxes().contains_key(id@) {
                &&& messages(r@) == old(self).boxes()[id@].queue
                &&& final(self).boxes() == old(self).boxes().insert(
                    id@,
                    MailboxModel { capacity: old(self).boxes()[id@].capacity, queue: seq![] },
                )
            } else {
                r@.len() == 0 && final(self).boxes() == old(self).boxes()
            },
    {
        let ghost before = *self;
        match self.mailboxes.find(id) {
            None => Vec::new(),
            Some(i) => {
                assert(self.mailboxes.entries@[i as int].1.wf());
                let capacity: usize = self.mailboxes.entries[i].1.capacity;
                let mut b = Mailbox::new(capacity);
                let fresh = Mailbox::new(capacity);
                let ghost f = fresh;
                assert(f@.queue =~= seq![]);
                let e = &mut self.mailboxes.entries[i];
                std::mem::swap(&mut b, &mut e.1);
                let ghost mid = *self;
                assert(mid.mailboxes.wf()) by {
                    assert forall|p: int, q: int| 0 <= p < q < mid.mailboxes.entries@.len() implies #[trigger] mid.mailboxes.entries@[p].0@
                        != #[trigger] mid.mailboxes.entries@[q].0@ by {
                        assert(before.mailboxes.entries@[p].0@ != before.mailboxes.entries@[q].0@);
                    }
                }
                self.mailboxes.set_value(i, fresh);
                proof {
                    assert(mid.mailboxes.keys() =~= before.mailboxes.keys());
                    let after = self.mailboxes;
                    assert(after@.dom() =~= before.mailboxes@.dom().insert(id@));
                    assert forall|k: Seq<char>| #[trigger] after@.contains_key(k) implies after@[k] == before.mailboxes@.insert(
                        id@,
                        f,
                    )[k] by {
                        after.slot_of_key(k);
                        before.mailboxes.slot_of_key(k);
                    }
                    assert(after@ =~= before.mailboxes@.insert(id@, f));
                    self.boxes_stay_sound(before, id@, f);
                    assert(self.boxes() =~= before.boxes().insert(id@, f@));
                }
                b.drain()
            },
        }
    }

    /// The number of messages that wait for an agent.
    pub fn pending(&self, id: &str) -> (r: usize)
        requires
            self.wf(),
        ensures
            r == (if self.boxes().contains_key(id@) {
                self.boxes()[id@].queue.len()
            } else {
                0
            }),
    {
        match self.mailboxes.get(id) {
            Some(b) => b.len(),
            None => 0,
        }
    }
}

/// The message `m` with the agent `to` as the one it is meant for.
pub open spec fn addressed(m: MessageModel, to: Seq<char>) -> MessageModel {
    MessageModel { to, ..m }
}

/// The mailboxes after a message came in for every agent.
pub open spec fn spread(boxes: Map<Seq<char>, MailboxModel>, m: MessageModel) -> Map<Seq<char>, MailboxModel> {
    Map::new(|k: Seq<char>| boxes.contains_key(k), |k: Seq<char>| boxes[k].pushed(addressed(m, k)))
}

/// The agents of `keys` that have room in their mailbox.
pub open spec fn reached(boxes: Map<Seq<char>, MailboxModel>, keys: Seq<Seq<char>>) -> Seq<Seq<char>>
    decreases keys.len(),
{
    if keys.len() == 0 {
        seq![]
    } else if boxes[keys.last()].has_room() {
        reached(boxes, keys.drop_last()).push(keys.last())
    } else {
        reached(boxes, keys.drop_last())
    }
}

/// The mailboxes after the messages came in again; those for unknown agents and
/// full mailboxes are passed over.
pub open spec fn redelivered(boxes: Map<Seq<char>, MailboxModel>, ms: Seq<MessageModel>) -> Map<Seq<char>, MailboxModel>
    decreases ms.len(),
{
    if ms.len() == 0 {
        boxes
    } else {
        let front = redelivered(boxes, ms.drop_last());
        let m = ms.last();
        if front.contains_key(m.to) {
            front.insert(m.to, front[m.to].pushed(m))
        } else {
            front
        }
    }
}

/// How many of the messages found a mailbox with room.
pub open spec fn redelivered_count(boxes: Map<Seq<char>, MailboxModel>, ms: Seq<MessageModel>) -> nat
    decreases ms.len(),
{
    if ms.len() == 0 {
        0
    } else {
        let front = redelivered(boxes, ms.drop_last());
        let m = ms.last();
        redelivered_count(boxes, ms.drop_last()) + if front.contains_key(m.to) && front[m.to].has_room() {
            1nat
        } else {
            0nat
        }
    }
}

/// The outcome of a delivery: the mailbox of the agent that the message is
/// meant for takes it in or answers for it; no other mailbox changes.
pub open spec fn delivered(
    before: Map<Seq<char>, MailboxModel>,
    m: MessageModel,
    policy: OverflowPolicy,
    after: Map<Seq<char>, MailboxModel>,
    r: Result<u64, BusError>,
) -> bool {
    if !before.contains_key(m.to) {
        (r matches Err(BusError::UnknownAgent(id)) && id@ == m.to) && after == before
    } else {
        &&& after == before.insert(m.to, before[m.to].pushed(m))
        &&& match before[m.to].answer(m, policy) {
            Ok(_) => r == Ok::<u64, BusError>(m.id),
            Err(e) => r == Err::<u64, BusError>(e),
        }
    }
}

/// A critical message is never lost without a word: whatever the policy, it is
/// put into the mailbox or the sender is told.
pub proof fn critical_is_delivered_or_reported(b: MailboxModel, m: MessageModel, policy: OverflowPolicy)
    requires
        !(m.kind is Progress),
    ensures
        b.answer(m, policy) is Ok ==> b.pushed(m).queue == b.queue.push(m),
        b.answer(m, policy) != Ok::<PushOutcome, BusError>(PushOutcome::Dropped),
{
}

/// What was sent to a registered agent with room is what it takes out next,
/// after the messages that waited before.
pub proof fn sent_is_drained(
    before: Map<Seq<char>, MailboxModel>,
    m: MessageModel,
    policy: OverflowPolicy,
    after: Map<Seq<char>, MailboxModel>,
    r: Result<u64, BusError>,
)
    requires
        delivered(before, m, policy, after, r),
        before.contains_key(m.to),
        before[m.to].has_room(),
    ensures
        r == Ok::<u64, BusError>(m.id),
        after.contains_key(m.to),
        after[m.to].queue == before[m.to].queue.push(m),
{
}

/// Delivering again never takes a message out of a mailbox.
pub proof fn redelivery_keeps_messages(boxes: Map<Seq<char>, MailboxModel>, ms: Seq<MessageModel>, k: Seq<char>)
    requires
        boxes.contains_key(k),
    ensures
        redelivered(boxes, ms).contains_key(k),
        boxes[k].queue.is_prefix_of(redelivered(boxes, ms)[k].queue),
    decreases ms.len(),
{
    if ms.len() > 0 {
        redelivery_keeps_messages(boxes, ms.drop_last(), k);
    }
}

/// A mailbox takes a message exactly while it holds fewer than its capacity, behind
/// those that it holds. A full one is left as it is: progress may be dropped where
/// that is asked for, and everything else is refused with the capacity.
pub proof fn mailboxes_take_what_fits(b: MailboxModel, m: MessageModel, policy: OverflowPolicy)
    ensures
        b.queue.len() < b.capacity ==> b.pushed(m).queue.len() == b.queue.len() + 1 && b.pushed(m).queue.drop_last()
            == b.queue && b.pushed(m).queue.last() == m && b.answer(m, policy) == Ok::<PushOutcome, BusError>(
            PushOutcome::Pushed,
        ),
        b.queue.len() >= b.capacity ==> b.pushed(m) == b,
        b.queue.len() >= b.capacity && policy is DropMergeable && m.kind is Progress ==> b.answer(m, policy) == Ok::<
            PushOutcome,
            BusError,
        >(PushOutcome::Dropped),
        b.queue.len() >= b.capacity && !(policy is DropMergeable && m.kind is Progress) ==> b.answer(m, policy) == Err::<
            PushOutcome,
            BusError,
        >(BusError::MailboxFull(b.capacity as usize)),
        b.pushed(m).capacity == b.capacity,
{
    if b.queue.len() < b.capacity {
        assert(b.pushed(m).queue.drop_last() =~= b.queue);
    }
}

/// A message goes into the mailbox it is addressed to and into no other. Where there
/// is no such mailbox, nothing changes and the sender is told so.
pub proof fn messages_go_where_they_are_sent(
    before: Map<Seq<char>, MailboxModel>,
    m: MessageModel,
    policy: OverflowPolicy,
    after: Map<Seq<char>, MailboxModel>,
    r: Result<u64, BusError>,
    k: Seq<char>,
)
    requires
        delivered(before, m, policy, after, r),
    ensures
        after.dom() == before.dom(),
        before.contains_key(k) && k != m.to ==> after[k] == before[k],
        !before.contains_key(m.to) ==> (r matches Err(BusError::UnknownAgent(id)) && id@ == m.to),
        before.contains_key(m.to) && before[m.to].queue.len() < before[m.to].capacity ==> r == Ok::<u64, BusError>(m.id)
            && after[m.to].queue == before[m.to].queue.push(m),
        before.contains_key(m.to) && before[m.to].queue.len() >= before[m.to].capacity ==> after[m.to] == before[m.to]
            && (r is Ok <==> policy is DropMergeable && m.kind is Progress),
{
    assert(after.dom() =~= before.dom());
}

/// Numbers of messages follow one another.
pub proof fn numbers_follow_each_other(n: u64)
    ensures
        n < u64::MAX ==> following(n) == n + 1,
        following(u64::MAX) == 0,
{
}

/// A message to all goes to every agent with room, addressed to that agent and else
/// the same; the agents with room are exactly those that are reached, in their order.
pub proof fn broadcasts_reach_all_with_room(
    boxes: Map<Seq<char>, MailboxModel>,
    m: MessageModel,
    keys: Seq<Seq<char>>,
    k: Seq<char>,
)
    ensures
        spread(boxes, m).dom() == boxes.dom(),
        boxes.contains_key(k) && boxes[k].queue.len() < boxes[k].capacity ==> ({
            let q = spread(boxes, m)[k].queue;
            &&& q.len() == boxes[k].queue.len() + 1
            &&& q.drop_last() == boxes[k].queue
            &&& q.last().to == k && q.last().from == m.from && q.last().kind == m.kind && q.last().payload == m.payload
                && q.last().correlation_id == m.correlation_id && q.last().id == m.id
        }),
        boxes.contains_key(k) && boxes[k].queue.len() >= boxes[k].capacity ==> spread(boxes, m)[k] == boxes[k],
        reached(boxes, seq![]) == Seq::<Seq<char>>::empty(),
        boxes[k].queue.len() < boxes[k].capacity ==> reached(boxes, keys.push(k)) == reached(boxes, keys).push(k),
        boxes[k].queue.len() >= boxes[k].capacity ==> reached(boxes, keys.push(k)) == reached(boxes, keys),
{
    assert(spread(boxes, m).dom() =~= boxes.dom());
    assert(keys.push(k).drop_last() =~= keys);
    if boxes.contains_key(k) && boxes[k].queue.len() < boxes[k].capacity {
        assert(spread(boxes, m)[k].queue.drop_last() =~= boxes[k].queue);
    }
}

/// What is kept is delivered again message by message, each to the agent that it is
/// for, where that agent is there and has room; so many are counted.
pub proof fn redelivery_goes_message_by_message(boxes: Map<Seq<char>, MailboxModel>, ms: Seq<MessageModel>, m: MessageModel)
    ensures
        redelivered(boxes, seq![]) == boxes && redelivered_count(boxes, seq![]) == 0,
        ({
            let front = redelivered(boxes, ms);
            let all = redelivered(boxes, ms.push(m));
            if front.contains_key(m.to) && front[m.to].queue.len() < front[m.to].capacity {
                &&& all.dom() == front.dom()
                &&& all[m.to].queue == front[m.to].queue.push(m)
                &&& forall|k: Seq<char>| k != m.to && front.contains_key(k) ==> #[trigger] all[k] == front[k]
                &&& redelivered_count(boxes, ms.push(m)) == redelivered_count(boxes, ms) + 1
            } else {
                &&& all == front
                &&& redelivered_count(boxes, ms.push(m)) == redelivered_count(boxes, ms)
            }
        }),
{
    assert(ms.push(m).drop_last() =~= ms);
    let front = redelivered(boxes, ms);
    let all = redelivered(boxes, ms.push(m));
    if front.contains_key(m.to) && front[m.to].queue.len() < front[m.to].capacity {
        assert(all.dom() =~= front.dom());
    } else {
        assert(all =~= front);
    }
}

/// What is sent is kept in the store, where there is one and it keeps messages of
/// this kind, and else nowhere.
pub proof fn sent_messages_are_stored(s: BusStore, m: MessageModel)
    ensures
        store_after(None, m) is None,
        !(m.kind is Progress) || s.policy.persist_progress ==> store_after(Some(s), m) == Some(
            kept_after(s.entries(), dedup_key(m), m),
        ),
        m.kind is Progress && !s.policy.persist_progress ==> store_after(Some(s), m) == Some(s.entries()),
{
}

/// What a bus keeps on disk stays under its rules: a store that is there stays there,
/// and only what it holds changes.
pub proof fn stores_stay_under_their_rules(a: Option<BusStore>, b: Option<BusStore>, c: Option<BusStore>)
    ensures
        same_rules(a, a),
        same_rules(a, b) ==> (a is Some <==> b is Some),
        same_rules(a, b) && same_rules(b, c) ==> same_rules(a, c),
        same_rules(a, b) && (a is Some ==> a->0.committed == b->0.committed) ==> a == b,
{
}

} // verus!
