//! The messages of the agent bus.

use crate::clock::{is_id, random_id};
use crate::json::{json_text, member, text_list, Json, JsonModel};
use crate::text::{copy_str, hex, hex_tells_apart, hex_text, texts};
use crate::transport::TransportTask;
use vstd::prelude::*;

verus! {

/// Names the chain of messages that a message belongs to.
pub type CorrelationId = String;

/// What a message is about.
#[derive(Debug, Clone, Copy, PartialEq, Eq, Structural)]
pub enum MessageKind {
    Task,
    Result,
    Review,
    Refusal,
    Progress,
}

impl MessageKind {
    /// The position of the kind in its list.
    pub open spec fn code_of(self) -> u8 {
        match self {
            MessageKind::Task => 0u8,
            MessageKind::Result => 1u8,
            MessageKind::Review => 2u8,
            MessageKind::Refusal => 3u8,
            MessageKind::Progress => 4u8,
        }
    }

    /// The position of the kind in its list.
    pub fn code(self) -> (r: u8)
        ensures
            r == self.code_of(),
    {
        match self {
            MessageKind::Task => 0,
            MessageKind::Result => 1,
            MessageKind::Review => 2,
            MessageKind::Refusal => 3,
            MessageKind::Progress => 4,
        }
    }
}

/// Whether messages of this kind may be dropped where a mailbox is full.
pub fn is_mergeable(kind: MessageKind) -> (r: bool)
    ensures
        r == (kind is Progress),
{
    matches!(kind, MessageKind::Progress)
}

/// A message from one agent to another.
pub struct BusMessage {
    pub id: u64,
    pub from: String,
    pub to: String,
    pub kind: MessageKind,
    pub correlation_id: CorrelationId,
    pub payload: Json,
}

/// What a message says.
pub struct MessageModel {
    pub id: u64,
    pub from: Seq<char>,
    pub to: Seq<char>,
    pub kind: MessageKind,
    pub correlation_id: Seq<char>,
    pub payload: JsonModel,
}

impl View for BusMessage {
    type V = MessageModel;

    open spec fn view(&self) -> MessageModel {
        MessageModel {
            id: self.id,
            from: self.from@,
            to: self.to@,
            kind: self.kind,
            correlation_id: self.correlation_id@,
            payload: self.payload.model(),
        }
    }
}

impl Clone for BusMessage {
    fn clone(&self) -> (r: BusMessage)
        ensures
            r@ == self@,
    {
        BusMessage {
            id: self.id,
            from: self.from.clone(),
            to: self.to.clone(),
            kind: self.kind,
            correlation_id: self.correlation_id.clone(),
            payload: self.payload.clone(),
        }
    }
}

/// What a list of messages says.
pub open spec fn messages(v: Seq<BusMessage>) -> Seq<MessageModel> {
    v.map_values(|m: BusMessage| m@)
}

/// What happened to a worker.
#[derive(Debug, Clone, Copy, PartialEq, Eq, Structural)]
pub enum WorkerEventKind {
    Started,
    Crashed,
    Restarted,
    Fused,
    Stopped,
    BudgetAborted,
    Cancelled,
}

impl WorkerEventKind {
    /// The name of the kind.
    pub open spec fn label_of(self) -> Seq<char> {
        match self {
            WorkerEventKind::Started => "started"@,
            WorkerEventKind::Crashed => "crashed"@,
            WorkerEventKind::Restarted => "restarted"@,
            WorkerEventKind::Fused => "fused"@,
            WorkerEventKind::Stopped => "stopped"@,
            WorkerEventKind::BudgetAborted => "budget_aborted"@,
            WorkerEventKind::Cancelled => "cancelled"@,
        }
    }

    /// The name of the kind.
    pub fn label(self) -> (r: &'static str)
        ensures
            r@ == self.label_of(),
    {
        match self {
            WorkerEventKind::Started => "started",
            WorkerEventKind::Crashed => "crashed",
            WorkerEventKind::Restarted => "restarted",
            WorkerEventKind::Fused => "fused",
            WorkerEventKind::Stopped => "stopped",
            WorkerEventKind::BudgetAborted => "budget_aborted",
            WorkerEventKind::Cancelled => "cancelled",
        }
    }
}

/// An event in the life of a worker.
pub struct WorkerEvent {
    pub worker: String,
    pub kind: WorkerEventKind,
    pub detail: String,
    pub correlation_id: CorrelationId,
}

impl WorkerEvent {
    pub fn new(worker: &str, kind: WorkerEventKind, detail: &str, correlation_id: &str) -> (r: WorkerEvent)
        ensures
            r.worker@ == worker@,
            r.kind == kind,
            r.detail@ == detail@,
            r.correlation_id@ == correlation_id@,
    {
        WorkerEvent {
            worker: copy_str(worker),
            kind,
            detail: copy_str(detail),
            correlation_id: copy_str(correlation_id),
        }
    }

    /// The event as a JSON object.
    pub open spec fn json_model(self) -> JsonModel {
        JsonModel::Table(
            Map::<Seq<char>, JsonModel>::empty()
                .insert("worker"@, JsonModel::Text(self.worker@))
                .insert("kind"@, JsonModel::Text(self.kind.label_of()))
                .insert("detail"@, JsonModel::Text(self.detail@))
                .insert("correlation_id"@, JsonModel::Text(self.correlation_id@)),
        )
    }

    /// The event as a JSON object.
    pub fn to_json(&self) -> (r: Json)
        ensures
            r.model() == self.json_model(),
    {
        Json::table()
            .with("worker", Json::text(self.worker.as_str()))
            .with("kind", Json::text(self.kind.label()))
            .with("detail", Json::text(self.detail.as_str()))
            .with("correlation_id", Json::text(self.correlation_id.as_str()))
    }
}

/// A new name for a chain of messages.
pub fn new_correlation_id() -> (r: CorrelationId)
    ensures
        is_id(r@),
{
    random_id()
}

// ---------------------------------------------------------------------------
// Repeated messages
// ---------------------------------------------------------------------------

/// The hash that `DefaultHasher::new()` gives for a text, a byte and the bytes
/// of another text, fed to it in this order. It is one and the same in every
/// process of one build. Another build may hash otherwise: the number of the
/// bytes goes in as a `usize` in the machine's byte order, and std keeps the rule
/// to itself from release to release. What is stored holds its key with it, and
/// nothing that is said of a restart computes one anew.
pub uninterp spec fn message_hash(correlation_id: Seq<char>, kind: u8, payload: Seq<char>) -> u64;

/// `BuildHasher::hash_one` of the default hasher, which starts from fixed keys:
/// within one build a function of the three values. By what rule it hashes, std
/// leaves open.
#[verifier::external_body]
fn hash_message(correlation_id: &str, kind: u8, payload: &str) -> (r: u64)
    ensures
        r == message_hash(correlation_id@, kind, payload@),
{
    std::hash::BuildHasher::hash_one(
        &std::hash::BuildHasherDefault::<std::collections::hash_map::DefaultHasher>::default(),
        (correlation_id, kind, payload.as_bytes()),
    )
}

/// The key under which repetitions of a message are recognised: it is made of
/// the chain, the kind and the payload, and of nothing else.
pub open spec fn dedup_key(m: MessageModel) -> Seq<char> {
    hex(message_hash(m.correlation_id, m.kind.code_of(), json_text(m.payload)) as nat, 16)
}

/// The key under which repetitions of a message are recognised.
pub fn message_dedup_key(msg: &BusMessage) -> (r: String)
    ensures
        r@ == dedup_key(msg@),
{
    let payload = msg.payload.to_text();
    hex_text(hash_message(msg.correlation_id.as_str(), msg.kind.code(), payload.as_str()), 16)
}

/// One of the messages has the key `k`.
pub open spec fn key_seen(ms: Seq<MessageModel>, k: Seq<char>) -> bool {
    exists|i: int| 0 <= i < ms.len() && dedup_key(#[trigger] ms[i]) == k
}

/// The messages without repetitions: the first of each key stays, in its place.
pub open spec fn deduped(ms: Seq<MessageModel>) -> Seq<MessageModel>
    decreases ms.len(),
{
    if ms.len() == 0 {
        seq![]
    } else if key_seen(ms.drop_last(), dedup_key(ms.last())) {
        deduped(ms.drop_last())
    } else {
        deduped(ms.drop_last()).push(ms.last())
    }
}

/// The messages without repetitions, in their order.
pub fn dedupe_messages(msgs: &Vec<BusMessage>) -> (r: Vec<BusMessage>)
    ensures
        messages(r@) == deduped(messages(msgs@)),
{
    let mut seen: Vec<String> = Vec::new();
    let mut kept: Vec<BusMessage> = Vec::new();
    let ghost all = messages(msgs@);
    for i in 0..msgs.len()
        invariant
            all == messages(msgs@),
            messages(kept@) == deduped(all.take(i as int)),
            seen@.len() == i,
            forall|j: int| 0 <= j < i ==> #[trigger] seen@[j]@ == dedup_key(all[j]),
    {
        assert(all[i as int] == msgs@[i as int]@);
        let key = message_dedup_key(&msgs[i]);
        let known = crate::text::contains_string(&seen, key.as_str());
        proof {
            let before = all.take(i as int);
            assert(all.take(i + 1).drop_last() =~= before);
            assert(all.take(i + 1).last() == all[i as int]);
            if known {
                let j = choose|j: int| 0 <= j < texts(seen@).len() && texts(seen@)[j] == key@;
                assert(seen@[j]@ == key@);
                assert(dedup_key(before[j]) == key@);
            }
            if key_seen(before, key@) {
                let j = choose|j: int| 0 <= j < before.len() && dedup_key(#[trigger] before[j]) == key@;
                assert(seen@[j]@ == dedup_key(all[j]));
                assert(texts(seen@)[j] == key@);
            }
        }
        if !known {
            let ghost kept0 = kept@;
            kept.push(msgs[i].clone());
            assert(messages(kept@) =~= messages(kept0).push(all[i as int]));
        }
        seen.push(key);
    }
    assert(all.take(all.len() as int) =~= all);
    kept
}

/// A key stays seen exactly when it was seen before repetitions were dropped.
pub proof fn dedup_keeps_keys(ms: Seq<MessageModel>, k: Seq<char>)
    ensures
        key_seen(deduped(ms), k) <==> key_seen(ms, k),
    decreases ms.len(),
{
    if ms.len() > 0 {
        let front = ms.drop_last();
        dedup_keeps_keys(front, k);
        if key_seen(ms, k) {
            let i = choose|i: int| 0 <= i < ms.len() && dedup_key(#[trigger] ms[i]) == k;
            if i < front.len() {
                assert(dedup_key(front[i]) == k);
            }
        }
        if key_seen(front, k) {
            let i = choose|i: int| 0 <= i < front.len() && dedup_key(#[trigger] front[i]) == k;
            assert(dedup_key(ms[i]) == k);
        }
        let d = deduped(front);
        if !key_seen(front, dedup_key(ms.last())) {
            let e = d.push(ms.last());
            if key_seen(d, k) {
                let i = choose|i: int| 0 <= i < d.len() && dedup_key(#[trigger] d[i]) == k;
                assert(dedup_key(e[i]) == k);
            }
            if dedup_key(ms.last()) == k {
                assert(dedup_key(e[d.len() as int]) == k);
                assert(dedup_key(ms[ms.len() - 1]) == k);
            }
            if key_seen(e, k) {
                let i = choose|i: int| 0 <= i < e.len() && dedup_key(#[trigger] e[i]) == k;
                if i < d.len() {
                    assert(dedup_key(d[i]) == k);
                } else {
                    assert(dedup_key(ms[ms.len() - 1]) == k);
                }
            }
        }
    }
}

/// No two messages that are left have the same key.
pub proof fn dedup_leaves_distinct_keys(ms: Seq<MessageModel>)
    ensures
        forall|i: int, j: int|
            0 <= i < j < deduped(ms).len() ==> dedup_key(#[trigger] deduped(ms)[i]) != dedup_key(#[trigger] deduped(ms)[j]),
    decreases ms.len(),
{
    if ms.len() > 0 {
        let front = ms.drop_last();
        dedup_leaves_distinct_keys(front);
        let d = deduped(front);
        if !key_seen(front, dedup_key(ms.last())) {
            dedup_keeps_keys(front, dedup_key(ms.last()));
            assert forall|i: int, j: int| 0 <= i < j < deduped(ms).len() implies dedup_key(#[trigger] deduped(ms)[i])
                != dedup_key(#[trigger] deduped(ms)[j]) by {
                if j == d.len() {
                    assert(dedup_key(d[i]) != dedup_key(ms.last()));
                } else {
                    assert(dedup_key(d[i]) != dedup_key(d[j]));
                }
            }
        }
    }
}

/// Messages whose keys differ are all kept.
pub proof fn distinct_messages_stay(ms: Seq<MessageModel>)
    requires
        forall|i: int, j: int| 0 <= i < j < ms.len() ==> dedup_key(#[trigger] ms[i]) != dedup_key(#[trigger] ms[j]),
    ensures
        deduped(ms) == ms,
    decreases ms.len(),
{
    if ms.len() > 0 {
        let front = ms.drop_last();
        assert forall|i: int, j: int| 0 <= i < j < front.len() implies dedup_key(#[trigger] front[i]) != dedup_key(
            #[trigger] front[j],
        ) by {
            assert(dedup_key(ms[i]) != dedup_key(ms[j]));
        }
        distinct_messages_stay(front);
        if key_seen(front, dedup_key(ms.last())) {
            let i = choose|i: int| 0 <= i < front.len() && dedup_key(#[trigger] front[i]) == dedup_key(ms.last());
            assert(dedup_key(ms[i]) != dedup_key(ms[ms.len() - 1]));
        }
        assert(front.push(ms.last()) =~= ms);
    } else {
        assert(deduped(ms) =~= ms);
    }
}

/// Dropping repetitions a second time changes nothing.
pub proof fn dedup_twice(ms: Seq<MessageModel>)
    ensures
        deduped(deduped(ms)) == deduped(ms),
{
    dedup_leaves_distinct_keys(ms);
    distinct_messages_stay(deduped(ms));
}

// ---------------------------------------------------------------------------
// Messages of the control plane
// ---------------------------------------------------------------------------

/// The agent in whose name the control plane sends.
pub const CONTROL_PLANE_AGENT: &'static str = "control-plane";

/// What the message for a task on another node says.
pub open spec fn transport_message(t: TransportTask) -> MessageModel {
    MessageModel {
        id: 0,
        from: CONTROL_PLANE_AGENT@,
        to: t.worker@,
        kind: MessageKind::Task,
        correlation_id: t.correlation_id@,
        payload: JsonModel::Table(
            Map::<Seq<char>, JsonModel>::empty()
                .insert("task_id"@, JsonModel::Text(t.task_id@))
                .insert("input"@, t.input.model())
                .insert("lineage"@, text_list(texts(t.lineage@))),
        ),
    }
}

/// The message for a task on another node: it carries the task, its input and
/// its lineage, so that the task can be computed again after a restart.
pub fn transport_task_message(task: &TransportTask) -> (r: BusMessage)
    ensures
        r@ == transport_message(*task),
{
    BusMessage {
        id: 0,
        from: copy_str(CONTROL_PLANE_AGENT),
        to: task.worker.clone(),
        kind: MessageKind::Task,
        correlation_id: task.correlation_id.clone(),
        payload: Json::table()
            .with("task_id", Json::text(task.task_id.as_str()))
            .with("input", task.input.clone())
            .with("lineage", Json::texts(&task.lineage)),
    }
}

/// The message that registers a node with its capability card.
pub fn register_node_message(node_id: &str, card: &Json) -> (r: BusMessage)
    ensures
        r@ == (MessageModel {
            id: 0,
            from: CONTROL_PLANE_AGENT@,
            to: CONTROL_PLANE_AGENT@,
            kind: MessageKind::Task,
            correlation_id: "node:register:"@ + node_id@,
            payload: JsonModel::Table(
                Map::<Seq<char>, JsonModel>::empty()
                    .insert("node_id"@, JsonModel::Text(node_id@))
                    .insert("card"@, card.model()),
            ),
        }),
{
    let mut correlation_id = copy_str("node:register:");
    correlation_id.append(node_id);
    BusMessage {
        id: 0,
        from: copy_str(CONTROL_PLANE_AGENT),
        to: copy_str(CONTROL_PLANE_AGENT),
        kind: MessageKind::Task,
        correlation_id,
        payload: Json::table().with("node_id", Json::text(node_id)).with("card", card.clone()),
    }
}

/// What counts for a repetition is the chain, the kind and the payload; who sent the
/// message to whom, and its number, do not. The kinds have numbers of their own.
pub proof fn repetitions_go_by_content(a: MessageModel, b: MessageModel)
    ensures
        a.correlation_id == b.correlation_id && a.kind == b.kind && a.payload == b.payload ==> dedup_key(a) == dedup_key(b),
        a.kind.code_of() == b.kind.code_of() ==> a.kind == b.kind,
        dedup_key(a) == dedup_key(b) ==> message_hash(a.correlation_id, a.kind.code_of(), json_text(a.payload))
            == message_hash(b.correlation_id, b.kind.code_of(), json_text(b.payload)),
{
    let x = message_hash(a.correlation_id, a.kind.code_of(), json_text(a.payload)) as nat;
    let y = message_hash(b.correlation_id, b.kind.code_of(), json_text(b.payload)) as nat;
    assert(vstd::arithmetic::power::pow(16, 16) == 0x1_0000_0000_0000_0000) by {
        reveal_with_fuel(vstd::arithmetic::power::pow, 17);
    }
    if dedup_key(a) == dedup_key(b) {
        hex_tells_apart(x, y, 16);
    }
}

/// The first message with a key stays and later ones go; the others keep their order.
pub proof fn the_first_of_repetitions_stays(ms: Seq<MessageModel>, m: MessageModel)
    ensures
        deduped(seq![]) == Seq::<MessageModel>::empty(),
        (forall|i: int| 0 <= i < ms.len() ==> dedup_key(#[trigger] ms[i]) != dedup_key(m)) ==> deduped(ms.push(m))
            == deduped(ms).push(m),
        (exists|i: int| 0 <= i < ms.len() && dedup_key(#[trigger] ms[i]) == dedup_key(m)) ==> deduped(ms.push(m))
            == deduped(ms),
{
    assert(ms.push(m).drop_last() =~= ms);
}

proof fn message_member_names_differ()
    ensures
        "worker"@ != "kind"@ && "worker"@ != "detail"@ && "worker"@ != "correlation_id"@ && "kind"@ != "detail"@ && "kind"@
            != "correlation_id"@ && "detail"@ != "correlation_id"@,
        "task_id"@ != "input"@ && "task_id"@ != "lineage"@ && "input"@ != "lineage"@,
{
    reveal_strlit("worker");
    reveal_strlit("kind");
    reveal_strlit("detail");
    reveal_strlit("correlation_id");
    reveal_strlit("task_id");
    reveal_strlit("input");
    reveal_strlit("lineage");
    assert("worker"@[0] == 'w' && "kind"@[0] == 'k' && "detail"@[0] == 'd' && "correlation_id"@[0] == 'c');
    assert("task_id"@[0] == 't' && "input"@[0] == 'i' && "lineage"@[0] == 'l');
}

/// A task is sent to the worker that it is for, in its chain, with its name, its input
/// and where it comes from.
pub proof fn tasks_are_sent_whole(t: TransportTask)
    ensures
        ({
            let m = transport_message(t);
            &&& m.to == t.worker@ && m.correlation_id == t.correlation_id@ && m.kind is Task && m.from
                == CONTROL_PLANE_AGENT@ && m.id == 0
            &&& member(m.payload, "task_id"@) == Some(JsonModel::Text(t.task_id@))
            &&& member(m.payload, "input"@) == Some(t.input.model())
            &&& member(m.payload, "lineage"@) == Some(text_list(texts(t.lineage@)))
        }),
{
    message_member_names_differ();
}

/// What happens to a worker is told whole: to whom, what, how and in which chain.
pub proof fn worker_events_are_told_whole(e: WorkerEvent)
    ensures
        member(e.json_model(), "worker"@) == Some(JsonModel::Text(e.worker@)),
        member(e.json_model(), "kind"@) == Some(JsonModel::Text(e.kind.label_of())),
        member(e.json_model(), "detail"@) == Some(JsonModel::Text(e.detail@)),
        member(e.json_model(), "correlation_id"@) == Some(JsonModel::Text(e.correlation_id@)),
{
    message_member_names_differ();
}

/// What happens to a worker is told apart by its name.
pub proof fn worker_event_names_differ(a: WorkerEventKind, b: WorkerEventKind)
    ensures
        a.label_of() == b.label_of() ==> a == b,
{
    reveal_strlit("started");
    reveal_strlit("crashed");
    reveal_strlit("restarted");
    reveal_strlit("fused");
    reveal_strlit("stopped");
    reveal_strlit("budget_aborted");
    reveal_strlit("cancelled");
    assert("started"@.len() == 7 && "started"@[0] == 's' && "started"@[2] == 'a');
    assert("crashed"@.len() == 7 && "crashed"@[0] == 'c');
    assert("restarted"@.len() == 9 && "restarted"@[0] == 'r');
    assert("fused"@.len() == 5);
    assert("stopped"@.len() == 7 && "stopped"@[0] == 's' && "stopped"@[2] == 'o');
    assert("budget_aborted"@.len() == 14);
    assert("cancelled"@.len() == 9 && "cancelled"@[0] == 'c');
}

} // verus!
