//! The store of bus messages that have to survive a restart: every message is
//! kept once, in the order of arrival.

use crate::clock::now_text;
use crate::fleet::message::{
    dedup_key, message_dedup_key, messages, BusMessage, MessageKind, MessageModel, CONTROL_PLANE_AGENT,
};
use crate::json::{member, Json, JsonModel};
use crate::remote_step::RemoteStepEvent;
use crate::table::Table;
use crate::text::{blank, copy_str, trimmed};
use vstd::prelude::*;

verus! {

/// Which messages are kept beyond the critical ones.
#[derive(Debug, Clone, Copy, PartialEq, Eq, Structural)]
pub struct BusPersistPolicy {
    /// Whether progress messages are kept.
    pub persist_progress: bool,
}

impl Default for BusPersistPolicy {
    fn default() -> (r: BusPersistPolicy)
        ensures
            !r.persist_progress,
    {
        BusPersistPolicy { persist_progress: false }
    }
}

/// Whether messages of this kind have to be kept: all but progress.
pub fn is_critical(kind: MessageKind) -> (r: bool)
    ensures
        r == !(kind is Progress),
{
    !matches!(kind, MessageKind::Progress)
}

/// A message as the log holds it.
pub struct StoredMessage {
    pub dedup_key: String,
    pub msg: BusMessage,
    pub ts: String,
}

/// A line of the log as it was read.
pub struct LogLine {
    /// The text of the line; `None` where it could not be read.
    pub text: Option<String>,
    /// The message that the text holds, if it holds one.
    pub stored: Option<StoredMessage>,
}

/// What a line of the log contributes.
pub enum LineEffect {
    /// A message under its key.
    Entry(Seq<char>, MessageModel),
    /// A damaged line.
    Damaged,
    /// Nothing.
    Nothing,
}

impl LogLine {
    /// What this line contributes: a line that could not be read or holds no
    /// message is damaged, a blank line says nothing.
    pub open spec fn effect(self) -> LineEffect {
        match self.text {
            None => LineEffect::Damaged,
            Some(t) => if trimmed(t@).len() == 0 {
                LineEffect::Nothing
            } else {
                match self.stored {
                    Some(s) => LineEffect::Entry(s.dedup_key@, s.msg@),
                    None => LineEffect::Damaged,
                }
            },
        }
    }
}

/// A list of kept messages with their keys.
pub type Entries = Seq<(Seq<char>, MessageModel)>;

/// The list holds the key `k`.
pub open spec fn key_kept(es: Entries, k: Seq<char>) -> bool {
    exists|i: int| 0 <= i < es.len() && (#[trigger] es[i]).0 == k
}

/// The list after a message came in under the key `k`: the first one counts.
pub open spec fn kept_after(es: Entries, k: Seq<char>, m: MessageModel) -> Entries {
    if key_kept(es, k) {
        es
    } else {
        es.push((k, m))
    }
}

/// The list after the lines of a log were read.
pub open spec fn kept_after_lines(es: Entries, lines: Seq<LogLine>) -> Entries
    decreases lines.len(),
{
    if lines.len() == 0 {
        es
    } else {
        let front = kept_after_lines(es, lines.drop_last());
        match lines.last().effect() {
            LineEffect::Entry(k, m) => kept_after(front, k, m),
            _ => front,
        }
    }
}

/// The number of damaged lines.
pub open spec fn damaged_lines(lines: Seq<LogLine>) -> nat
    decreases lines.len(),
{
    if lines.len() == 0 {
        0
    } else {
        damaged_lines(lines.drop_last()) + if lines.last().effect() is Damaged {
            1nat
        } else {
            0nat
        }
    }
}

/// The kept messages, with the count of damaged log lines and the policy.
pub struct BusStore {
    pub committed: Table<BusMessage>,
    pub bad_lines: u64,
    pub policy: BusPersistPolicy,
}

impl BusStore {
    /// No key is kept twice.
    pub open spec fn wf(self) -> bool {
        self.committed.wf()
    }

    /// The kept messages with their keys, in the order of arrival.
    pub open spec fn entries(self) -> Entries {
        self.committed.entries@.map_values(|e: (String, BusMessage)| (e.0@, e.1@))
    }

    /// Messages of this kind are kept.
    pub open spec fn keeps(self, kind: MessageKind) -> bool {
        !(kind is Progress) || self.policy.persist_progress
    }

    /// An empty store that keeps the critical messages only.
    pub fn in_memory() -> (r: BusStore)
        ensures
            r.wf(),
            r.entries() == Seq::<(Seq<char>, MessageModel)>::empty(),
            r.bad_lines == 0,
            !r.policy.persist_progress,
    {
        let r = BusStore { committed: Table::new(), bad_lines: 0, policy: BusPersistPolicy { persist_progress: false } };
        assert(r.entries() =~= Seq::<(Seq<char>, MessageModel)>::empty());
        r
    }

    /// A store that starts from the lines of a log.
    pub fn new(lines: Vec<LogLine>) -> (r: BusStore)
        ensures
            r.wf(),
            r.entries() == kept_after_lines(Seq::empty(), lines@),
            r.bad_lines == damaged_lines(lines@),
            !r.policy.persist_progress,
    {
        let mut store = BusStore::in_memory();
        proof {
            damaged_at_most_all(lines@);
            assert(lines.len() <= usize::MAX);
        }
        store.replay(lines);
        store
    }

    /// The same store with another policy.
    pub fn with_policy(self, policy: BusPersistPolicy) -> (r: BusStore)
        ensures
            r == (BusStore { policy, ..self }),
    {
        BusStore { committed: self.committed, bad_lines: self.bad_lines, policy }
    }

    /// Whether messages of this kind are kept.
    pub fn should_persist(&self, kind: MessageKind) -> (r: bool)
        ensures
            r == self.keeps(kind),
    {
        is_critical(kind) || (matches!(kind, MessageKind::Progress) && self.policy.persist_progress)
    }

    proof fn key_kept_is_contained(self, k: Seq<char>)
        ensures
            key_kept(self.entries(), k) <==> self.committed@.contains_key(k),
    {
        let es = self.committed.entries@;
        if key_kept(self.entries(), k) {
            let i = choose|i: int| 0 <= i < self.entries().len() && (#[trigger] self.entries()[i]).0 == k;
            assert(self.committed.keys()[i] == es[i].0@);
        }
        if self.committed@.contains_key(k) {
            self.committed.slot_of_key(k);
            let i = self.committed.slot(k);
            assert(self.entries()[i].0 == k);
        }
    }

    fn commit(&mut self, key: String, msg: BusMessage) -> (r: bool)
        requires
            old(self).wf(),
        ensures
            final(self).wf(),
            final(self).entries() == kept_after(old(self).entries(), key@, msg@),
            final(self).bad_lines == old(self).bad_lines,
            final(self).policy == old(self).policy,
            r == !key_kept(old(self).entries(), key@),
    {
        let ghost before = *self;
        proof {
            self.key_kept_is_contained(key@);
        }
        if self.committed.contains(key.as_str()) {
            return false;
        }
        self.committed.insert(key, msg);
        assert(self.entries() =~= before.entries().push((key@, msg@)));
        true
    }

    /// Keeps a message, unless one with its key is kept already; returns whether
    /// it is new.
    pub fn persist(&mut self, msg: &BusMessage) -> (r: bool)
        requires
            old(self).wf(),
        ensures
            final(self).wf(),
            final(self).entries() == kept_after(old(self).entries(), dedup_key(msg@), msg@),
            final(self).bad_lines == old(self).bad_lines,
            final(self).policy == old(self).policy,
            r == !key_kept(old(self).entries(), dedup_key(msg@)),
    {
        let key = message_dedup_key(msg);
        self.commit(key, msg.clone())
    }

    /// Keeps a message like `persist`, and returns what the log has to hold of
    /// it where it is new.
    pub fn persist_record(&mut self, msg: &BusMessage) -> (r: Option<StoredMessage>)
        requires
            old(self).wf(),
        ensures
            final(self).wf(),
            final(self).entries() == kept_after(old(self).entries(), dedup_key(msg@), msg@),
            final(self).bad_lines == old(self).bad_lines,
            final(self).policy == old(self).policy,
            r is Some <==> !key_kept(old(self).entries(), dedup_key(msg@)),
            r matches Some(s) ==> s.dedup_key@ == dedup_key(msg@) && s.msg@ == msg@,
    {
        if self.persist(msg) {
            Some(StoredMessage { dedup_key: message_dedup_key(msg), msg: msg.clone(), ts: now_text() })
        } else {
            None
        }
    }

    /// Reads the lines of a log: messages under new keys are kept, damaged lines
    /// are counted and passed over.
    pub fn replay(&mut self, lines: Vec<LogLine>)
        requires
            old(self).wf(),
            old(self).bad_lines + damaged_lines(lines@) <= u64::MAX,
        ensures
            final(self).wf(),
            final(self).entries() == kept_after_lines(old(self).entries(), lines@),
            final(self).bad_lines == old(self).bad_lines + damaged_lines(lines@),
            final(self).policy == old(self).policy,
    {
        let ghost before = *self;
        for i in 0..lines.len()
            invariant
                self.wf(),
                self.policy == before.policy,
                before.bad_lines + damaged_lines(lines@) <= u64::MAX,
                self.entries() == kept_after_lines(before.entries(), lines@.take(i as int)),
                self.bad_lines == before.bad_lines + damaged_lines(lines@.take(i as int)),
        {
            proof {
                assert(lines@.take(i + 1).drop_last() =~= lines@.take(i as int));
                assert(lines@.take(i + 1).last() == lines@[i as int]);
                damaged_lines_grow(lines@, i + 1);
            }
            match &lines[i].text {
                None => {
                    self.bad_lines = self.bad_lines + 1;
                },
                Some(t) => {
                    if !blank(t.as_str()) {
                        match &lines[i].stored {
                            Some(s) => {
                                self.commit(s.dedup_key.clone(), s.msg.clone());
                            },
                            None => {
                                self.bad_lines = self.bad_lines + 1;
                            },
                        }
                    }
                },
            }
        }
        assert(lines@.take(lines@.len() as int) =~= lines@);
    }

    /// The kept messages, in the order of arrival.
    pub fn replay_messages(&self) -> (r: Vec<BusMessage>)
        ensures
            messages(r@) == self.entries().map_values(|e: (Seq<char>, MessageModel)| e.1),
    {
        let mut r: Vec<BusMessage> = Vec::new();
        let ghost all = self.entries().map_values(|e: (Seq<char>, MessageModel)| e.1);
        for i in 0..self.committed.entries.len()
            invariant
                all == self.entries().map_values(|e: (Seq<char>, MessageModel)| e.1),
                messages(r@) == all.take(i as int),
        {
            let ghost r0 = r@;
            r.push(self.committed.entries[i].1.clone());
            assert(messages(r@) =~= messages(r0).push(all[i as int]));
            assert(all.take(i + 1) =~= all.take(i as int).push(all[i as int]));
        }
        assert(all.take(all.len() as int) =~= all);
        r
    }

    /// The number of kept messages.
    pub fn len(&self) -> (r: usize)
        ensures
            r == self.entries().len(),
    {
        self.committed.len()
    }

    pub fn is_empty(&self) -> (r: bool)
        ensures
            r == (self.entries().len() == 0),
    {
        self.len() == 0
    }

    /// The number of damaged log lines that were passed over.
    pub fn bad_log_lines(&self) -> (r: u64)
        ensures
            r == self.bad_lines,
    {
        self.bad_lines
    }
}

/// The agent of the owner's device.
pub const OWNER_DEVICE_AGENT: &'static str = "owner-device";

/// Whom an event of a remote step is meant for.
pub open spec fn event_target(e: RemoteStepEvent) -> Seq<char> {
    match e {
        RemoteStepEvent::Submitted { worker, .. } => worker@,
        RemoteStepEvent::ApprovalRequested { .. } => OWNER_DEVICE_AGENT@,
        RemoteStepEvent::ApprovalGranted { .. } => OWNER_DEVICE_AGENT@,
        RemoteStepEvent::Completed { .. } => CONTROL_PLANE_AGENT@,
    }
}

/// The message that an event of a remote step is kept as.
pub open spec fn event_message(e: RemoteStepEvent) -> MessageModel {
    MessageModel {
        id: 0,
        from: CONTROL_PLANE_AGENT@,
        to: event_target(e),
        kind: MessageKind::Task,
        correlation_id: e.chain(),
        payload: e.json_model(),
    }
}

/// Keeps an event of a remote step; returns whether it is new.
pub fn persist_remote_event(store: &mut BusStore, event: &RemoteStepEvent) -> (r: bool)
    requires
        old(store).wf(),
    ensures
        final(store).wf(),
        final(store).entries() == kept_after(old(store).entries(), dedup_key(event_message(*event)), event_message(*event)),
        final(store).bad_lines == old(store).bad_lines,
        final(store).policy == old(store).policy,
        r == !key_kept(old(store).entries(), dedup_key(event_message(*event))),
{
    let payload = event.to_json();
    let (correlation_id, to) = match event {
        RemoteStepEvent::Submitted { correlation_id, worker, .. } => (correlation_id.clone(), worker.clone()),
        RemoteStepEvent::ApprovalRequested { correlation_id, .. } => (
            correlation_id.clone(),
            copy_str(OWNER_DEVICE_AGENT),
        ),
        RemoteStepEvent::ApprovalGranted { correlation_id, .. } => (correlation_id.clone(), copy_str(OWNER_DEVICE_AGENT)),
        RemoteStepEvent::Completed { correlation_id, .. } => (correlation_id.clone(), copy_str(CONTROL_PLANE_AGENT)),
    };
    let msg = BusMessage {
        id: 0,
        from: copy_str(CONTROL_PLANE_AGENT),
        to,
        kind: MessageKind::Task,
        correlation_id,
        payload,
    };
    store.persist(&msg)
}

/// The key under which the state of a node is kept.
pub open spec fn node_status_key(node_id: Seq<char>, healthy: bool) -> Seq<char> {
    "node:status:"@ + node_id + ":"@ + if healthy {
        "up"@
    } else {
        "down"@
    }
}

/// The message that the state of a node is kept as.
pub open spec fn node_status_message(node_id: Seq<char>, healthy: bool, detail: Seq<char>) -> MessageModel {
    MessageModel {
        id: 0,
        from: CONTROL_PLANE_AGENT@,
        to: CONTROL_PLANE_AGENT@,
        kind: MessageKind::Task,
        correlation_id: node_status_key(node_id, healthy),
        payload: JsonModel::Table(
            Map::<Seq<char>, JsonModel>::empty()
                .insert("node_id"@, JsonModel::Text(node_id))
                .insert("healthy"@, JsonModel::Bool(healthy))
                .insert("detail"@, JsonModel::Text(detail)),
        ),
    }
}

/// Keeps the state of a node under the key of the node and the state, so that
/// the same state is kept once whatever its detail; returns whether it is new.
pub fn persist_node_status(store: &mut BusStore, node_id: &str, healthy: bool, detail: &str) -> (r: bool)
    requires
        old(store).wf(),
    ensures
        final(store).wf(),
        final(store).entries() == kept_after(
            old(store).entries(),
            node_status_key(node_id@, healthy),
            node_status_message(node_id@, healthy, detail@),
        ),
        final(store).bad_lines == old(store).bad_lines,
        final(store).policy == old(store).policy,
        r == !key_kept(old(store).entries(), node_status_key(node_id@, healthy)),
{
    let mut key = copy_str("node:status:");
    key.append(node_id);
    key.append(":");
    key.append(if healthy { "up" } else { "down" });
    let msg = BusMessage {
        id: 0,
        from: copy_str(CONTROL_PLANE_AGENT),
        to: copy_str(CONTROL_PLANE_AGENT),
        kind: MessageKind::Task,
        correlation_id: key.clone(),
        payload: Json::table()
            .with("node_id", Json::text(node_id))
            .with("healthy", Json::Bool(healthy))
            .with("detail", Json::text(detail)),
    };
    store.commit(key, msg)
}

proof fn damaged_at_most_all(lines: Seq<LogLine>)
    ensures
        damaged_lines(lines) <= lines.len(),
    decreases lines.len(),
{
    if lines.len() > 0 {
        damaged_at_most_all(lines.drop_last());
    }
}

proof fn damaged_lines_grow(lines: Seq<LogLine>, n: int)
    requires
        0 <= n <= lines.len(),
    ensures
        damaged_lines(lines.take(n)) <= damaged_lines(lines),
    decreases lines.len() - n,
{
    if n < lines.len() {
        damaged_lines_grow(lines, n + 1);
        assert(lines.take(n + 1).drop_last() =~= lines.take(n));
    } else {
        assert(lines.take(n) =~= lines);
    }
}

/// Keeping a message again under the same key changes nothing: the first counts.
pub proof fn persist_twice(es: Entries, k: Seq<char>, m: MessageModel, again: MessageModel)
    ensures
        kept_after(kept_after(es, k, m), k, again) == kept_after(es, k, m),
{
    let once = kept_after(es, k, m);
    if !key_kept(es, k) {
        assert(once[es.len() as int].0 == k);
    }
}

/// A store that reads a log again after a restart holds what it held: the
/// lines of the log add nothing the second time.
pub proof fn replay_twice(es: Entries, lines: Seq<LogLine>)
    ensures
        kept_after_lines(kept_after_lines(es, lines), lines) == kept_after_lines(es, lines),
{
    let once = kept_after_lines(es, lines);
    assert forall|i: int| 0 <= i < lines.len() && (#[trigger] lines[i]).effect() is Entry implies key_kept(
        once,
        lines[i].effect()->Entry_0,
    ) by {
        lines_are_kept(es, lines, i);
    }
    kept_lines_add_nothing(once, lines);
}

proof fn lines_are_kept(es: Entries, lines: Seq<LogLine>, i: int)
    requires
        0 <= i < lines.len(),
        lines[i].effect() is Entry,
    ensures
        key_kept(kept_after_lines(es, lines), lines[i].effect()->Entry_0),
    decreases lines.len(),
{
    let k = lines[i].effect()->Entry_0;
    let front = kept_after_lines(es, lines.drop_last());
    if i < lines.len() - 1 {
        lines_are_kept(es, lines.drop_last(), i);
        let j = choose|j: int| 0 <= j < front.len() && (#[trigger] front[j]).0 == k;
        assert(kept_after_lines(es, lines)[j].0 == k);
    } else if !key_kept(front, k) {
        assert(kept_after_lines(es, lines)[front.len() as int].0 == k);
    }
}

proof fn kept_lines_add_nothing(es: Entries, lines: Seq<LogLine>)
    requires
        forall|i: int|
            0 <= i < lines.len() && (#[trigger] lines[i]).effect() is Entry ==> key_kept(es, lines[i].effect()->Entry_0),
    ensures
        kept_after_lines(es, lines) == es,
    decreases lines.len(),
{
    if lines.len() > 0 {
        assert forall|i: int| 0 <= i < lines.drop_last().len() && (#[trigger] lines.drop_last()[i]).effect() is Entry implies key_kept(
            es,
            lines.drop_last()[i].effect()->Entry_0,
        ) by {
            assert(lines[i] == lines.drop_last()[i]);
        }
        kept_lines_add_nothing(es, lines.drop_last());
        assert(lines[lines.len() - 1] == lines.last());
    }
}

/// The log that a store writes for its messages: one line for each, under its key.
pub open spec fn log_of(es: Entries, lines: Seq<LogLine>) -> bool {
    &&& lines.len() == es.len()
    &&& forall|i: int|
        0 <= i < es.len() ==> (#[trigger] lines[i]).effect() == LineEffect::Entry(es[i].0, es[i].1)
}

/// What was written is read back: a new store that reads the log of a store
/// holds the same messages in the same order.
pub proof fn restart_restores(es: Entries, lines: Seq<LogLine>)
    requires
        log_of(es, lines),
        forall|i: int, j: int| 0 <= i < j < es.len() ==> (#[trigger] es[i]).0 != (#[trigger] es[j]).0,
    ensures
        kept_after_lines(Seq::empty(), lines) == es,
        damaged_lines(lines) == 0,
    decreases es.len(),
{
    if es.len() > 0 {
        let front = es.drop_last();
        assert forall|i: int| 0 <= i < front.len() implies (#[trigger] lines.drop_last()[i]).effect()
            == LineEffect::Entry(front[i].0, front[i].1) by {
            assert(lines[i].effect() == LineEffect::Entry(es[i].0, es[i].1));
        }
        assert forall|i: int, j: int| 0 <= i < j < front.len() implies (#[trigger] front[i]).0 != (#[trigger] front[j]).0 by {
            assert(es[i].0 != es[j].0);
        }
        restart_restores(front, lines.drop_last());
        assert(lines.last() == lines[es.len() - 1]);
        assert(lines.last().effect() == LineEffect::Entry(es.last().0, es.last().1));
        if key_kept(front, es.last().0) {
            let i = choose|i: int| 0 <= i < front.len() && (#[trigger] front[i]).0 == es.last().0;
            assert(es[i].0 != es[es.len() - 1].0);
        }
        assert(front.push(es.last()) =~= es);
    } else {
        assert(kept_after_lines(Seq::empty(), lines) =~= es);
    }
}

/// A message is not kept a second time after a restart: the keys that the log
/// holds are known again.
pub proof fn restart_knows_the_keys(es: Entries, lines: Seq<LogLine>, k: Seq<char>, m: MessageModel)
    requires
        log_of(es, lines),
        forall|i: int, j: int| 0 <= i < j < es.len() ==> (#[trigger] es[i]).0 != (#[trigger] es[j]).0,
        key_kept(es, k),
    ensures
        kept_after(kept_after_lines(Seq::empty(), lines), k, m) == es,
{
    restart_restores(es, lines);
}

/// A message is kept under its key unless the key is known; then nothing changes.
/// What was kept before stays, in its order.
pub proof fn new_keys_are_kept(es: Entries, k: Seq<char>, m: MessageModel)
    ensures
        (forall|i: int| 0 <= i < es.len() ==> (#[trigger] es[i]).0 != k) ==> kept_after(es, k, m).len() == es.len() + 1
            && kept_after(es, k, m).drop_last() == es && kept_after(es, k, m).last() == (k, m),
        (exists|i: int| 0 <= i < es.len() && (#[trigger] es[i]).0 == k) ==> kept_after(es, k, m) == es,
{
    if forall|i: int| 0 <= i < es.len() ==> (#[trigger] es[i]).0 != k {
        assert(kept_after(es, k, m).drop_last() =~= es);
    }
}

/// A line of the log is an entry if it holds one; a blank line says nothing; a line
/// that cannot be read, or is no entry, is damaged, and counted.
pub proof fn lines_are_entries_or_damaged(lines: Seq<LogLine>, l: LogLine, t: String)
    ensures
        l.text == Some(t) && l.stored is Some && trimmed(t@).len() > 0 ==> l.effect() == LineEffect::Entry(
            l.stored->0.dedup_key@,
            l.stored->0.msg@,
        ),
        l.text == Some(t) && trimmed(t@).len() == 0 ==> l.effect() is Nothing,
        l.text is None ==> l.effect() is Damaged,
        l.text == Some(t) && trimmed(t@).len() > 0 && l.stored is None ==> l.effect() is Damaged,
        damaged_lines(seq![]) == 0,
        l.effect() is Damaged ==> damaged_lines(lines.push(l)) == damaged_lines(lines) + 1,
        !(l.effect() is Damaged) ==> damaged_lines(lines.push(l)) == damaged_lines(lines),
{
    assert(lines.push(l).drop_last() =~= lines);
}

/// A log is read line by line: an entry is kept, any other line changes nothing.
pub proof fn logs_are_read_line_by_line(es: Entries, lines: Seq<LogLine>, l: LogLine, k: Seq<char>, m: MessageModel)
    ensures
        kept_after_lines(es, seq![]) == es,
        l.effect() == LineEffect::Entry(k, m) ==> kept_after_lines(es, lines.push(l)) == kept_after(
            kept_after_lines(es, lines),
            k,
            m,
        ),
        !(l.effect() is Entry) ==> kept_after_lines(es, lines.push(l)) == kept_after_lines(es, lines),
{
    assert(lines.push(l).drop_last() =~= lines);
}

/// Everything but progress is kept always; progress only where that is asked for.
pub proof fn only_progress_may_be_left_out(s: BusStore, kind: MessageKind)
    ensures
        kind is Task || kind is Result || kind is Review || kind is Refusal ==> s.keeps(kind),
        kind is Progress ==> (s.keeps(kind) <==> s.policy.persist_progress),
{
}

/// What happens to a remote step is told to whom it concerns: a submission to the
/// worker, questions and answers about approvals to the device of the owner, the end
/// to the control plane. It belongs to the chain of the step and says what happened.
pub proof fn step_events_go_where_they_concern(e: RemoteStepEvent)
    ensures
        e matches RemoteStepEvent::Submitted { worker, .. } ==> event_message(e).to == worker@,
        e is ApprovalRequested || e is ApprovalGranted ==> event_message(e).to == OWNER_DEVICE_AGENT@,
        e is Completed ==> event_message(e).to == CONTROL_PLANE_AGENT@,
        event_message(e).from == CONTROL_PLANE_AGENT@ && event_message(e).correlation_id == e.chain()
            && event_message(e).payload == e.json_model() && event_message(e).kind is Task && event_message(e).id == 0,
{
}

/// Going up and going down of a node are kept apart, and so are different nodes; the
/// message says which node it is and how it is.
pub proof fn node_states_are_kept_apart(a: Seq<char>, b: Seq<char>, up: bool, detail: Seq<char>)
    ensures
        node_status_key(a, true) != node_status_key(b, false),
        node_status_key(a, up) == node_status_key(b, up) ==> a == b,
        ({
            let m = node_status_message(a, up, detail);
            &&& m.correlation_id == node_status_key(a, up)
            &&& member(m.payload, "node_id"@) == Some(JsonModel::Text(a))
            &&& member(m.payload, "healthy"@) == Some(JsonModel::Bool(up))
            &&& member(m.payload, "detail"@) == Some(JsonModel::Text(detail))
            &&& m.kind is Task && m.to == CONTROL_PLANE_AGENT@ && m.from == CONTROL_PLANE_AGENT@ && m.id == 0
        }),
{
    reveal_strlit("node:status:");
    reveal_strlit(":");
    reveal_strlit("up");
    reveal_strlit("down");
    let ka = node_status_key(a, true);
    let kb = node_status_key(b, false);
    assert(ka.last() == 'p');
    assert(kb.last() == 'n');
    let tail = if up { "up"@ } else { "down"@ };
    let x = node_status_key(a, up);
    let y = node_status_key(b, up);
    if x == y {
        assert(x.len() == 12 + a.len() + 1 + tail.len());
        assert(y.len() == 12 + b.len() + 1 + tail.len());
        assert(x.subrange(12, (12 + a.len()) as int) =~= a);
        assert(y.subrange(12, (12 + b.len()) as int) =~= b);
    }
    reveal_strlit("node_id");
    reveal_strlit("healthy");
    reveal_strlit("detail");
    assert("node_id"@[0] == 'n' && "healthy"@[0] == 'h' && "detail"@[0] == 'd');
}

} // verus!
