//! Steps that run on another node: what is submitted, how the wait for the
//! result proceeds, and the approval by the owner's device.

use crate::json::{list_model, list_model_elements, member, text_list, Json, JsonModel};
use crate::text::{blank, copy_str, copy_strings, texts, trimmed};
use crate::transport::{TransportEvent, TransportEventKind, TransportStatus, TransportTask};
use vstd::prelude::*;

verus! {

/// What a remote step does.
#[derive(Debug, Clone, Copy, PartialEq, Eq, Structural)]
pub enum RemoteStepKind {
    Perception,
    Locate,
    Act,
    Verify,
}

impl RemoteStepKind {
    /// The name of the kind.
    pub open spec fn label_of(self) -> Seq<char> {
        match self {
            RemoteStepKind::Perception => "perception"@,
            RemoteStepKind::Locate => "locate"@,
            RemoteStepKind::Act => "act"@,
            RemoteStepKind::Verify => "verify"@,
        }
    }

    /// The name of the kind.
    pub fn label(self) -> (r: &'static str)
        ensures
            r@ == self.label_of(),
    {
        match self {
            RemoteStepKind::Perception => "perception",
            RemoteStepKind::Locate => "locate",
            RemoteStepKind::Act => "act",
            RemoteStepKind::Verify => "verify",
        }
    }
}

/// Whether and by whom a step has to be approved.
pub struct ApprovalSpec {
    pub required: bool,
    /// The device that is asked.
    pub owner_device: String,
    /// What the device shows.
    pub summary: String,
}

impl Default for ApprovalSpec {
    fn default() -> (r: ApprovalSpec)
        ensures
            !r.required,
            r.owner_device@.len() == 0,
            r.summary@.len() == 0,
    {
        ApprovalSpec { required: false, owner_device: String::new(), summary: String::new() }
    }
}

/// A piece of evidence that is shown before an approval.
pub struct EvidenceItem {
    pub kind: String,
    pub summary: String,
    pub detail: String,
}

impl EvidenceItem {
    /// Evidence without detail.
    pub fn new(kind: &str, summary: &str) -> (r: EvidenceItem)
        ensures
            r.kind@ == kind@,
            r.summary@ == summary@,
            r.detail@.len() == 0,
    {
        EvidenceItem { kind: copy_str(kind), summary: copy_str(summary), detail: String::new() }
    }

    /// The same evidence with a detail.
    pub fn with_detail(self, detail: &str) -> (r: EvidenceItem)
        ensures
            r.kind == self.kind,
            r.summary == self.summary,
            r.detail@ == detail@,
    {
        EvidenceItem { kind: self.kind, summary: self.summary, detail: copy_str(detail) }
    }

    /// The evidence as a JSON object.
    pub open spec fn json_model(self) -> JsonModel {
        JsonModel::Table(
            Map::<Seq<char>, JsonModel>::empty()
                .insert("kind"@, JsonModel::Text(self.kind@))
                .insert("summary"@, JsonModel::Text(self.summary@))
                .insert("detail"@, JsonModel::Text(self.detail@)),
        )
    }

    /// The evidence as a JSON object.
    pub fn to_json(&self) -> (r: Json)
        ensures
            r.model() == self.json_model(),
    {
        Json::table()
            .with("kind", Json::text(self.kind.as_str()))
            .with("summary", Json::text(self.summary.as_str()))
            .with("detail", Json::text(self.detail.as_str()))
    }
}

/// A list of evidence as a JSON value.
pub open spec fn evidence_model(v: Seq<EvidenceItem>) -> JsonModel {
    JsonModel::List(v.map_values(|e: EvidenceItem| e.json_model()))
}

fn evidence_json(v: &Vec<EvidenceItem>) -> (r: Json)
    ensures
        r.model() == evidence_model(v@),
{
    let mut w: Vec<Json> = Vec::new();
    for i in 0..v.len()
        invariant
            w@.len() == i,
            forall|j: int| 0 <= j < i ==> (#[trigger] w@[j]).model() == v@[j].json_model(),
    {
        w.push(v[i].to_json());
    }
    proof {
        list_model_elements(w@);
        assert(list_model(w@) =~= evidence_model(v@)->List_0);
    }
    Json::List(w)
}

/// A step for a worker on another node. Its input is named by the hash under
/// which it is stored.
pub struct RemoteStep {
    pub step_id: String,
    pub kind: RemoteStepKind,
    pub worker: String,
    pub input_cas: String,
    pub correlation_id: String,
    pub approval: ApprovalSpec,
    pub lineage: Vec<String>,
    pub impact_preview: String,
    pub evidence: Vec<EvidenceItem>,
}

impl RemoteStep {
    /// A step without input, approval, lineage or evidence.
    pub fn new(step_id: &str, kind: RemoteStepKind, worker: &str, correlation_id: &str) -> (r: RemoteStep)
        ensures
            r.step_id@ == step_id@,
            r.kind == kind,
            r.worker@ == worker@,
            r.correlation_id@ == correlation_id@,
            r.input_cas@.len() == 0,
            !r.approval.required,
            r.approval.owner_device@.len() == 0,
            r.approval.summary@.len() == 0,
            r.lineage@.len() == 0,
            r.impact_preview@.len() == 0,
            r.evidence@.len() == 0,
    {
        RemoteStep {
            step_id: copy_str(step_id),
            kind,
            worker: copy_str(worker),
            input_cas: String::new(),
            correlation_id: copy_str(correlation_id),
            approval: ApprovalSpec::default(),
            lineage: Vec::new(),
            impact_preview: String::new(),
            evidence: Vec::new(),
        }
    }

    /// The same step with the input that was stored; the error of the store
    /// where it was not.
    pub fn with_input(self, stored: Result<String, String>) -> (r: Result<RemoteStep, String>)
        ensures
            match stored {
                Ok(hash) => r == Ok::<RemoteStep, String>(RemoteStep { input_cas: hash, ..self }),
                Err(e) => r == Err::<RemoteStep, String>(e),
            },
    {
        match stored {
            Ok(hash) => {
                let mut step = self;
                step.input_cas = hash;
                Ok(step)
            },
            Err(e) => Err(e),
        }
    }

    /// The same step with another approval.
    pub fn with_approval(self, approval: ApprovalSpec) -> (r: RemoteStep)
        ensures
            r == (RemoteStep { approval, ..self }),
    {
        let mut step = self;
        step.approval = approval;
        step
    }

    /// The same step with another lineage.
    pub fn with_lineage(self, lineage: Vec<String>) -> (r: RemoteStep)
        ensures
            r == (RemoteStep { lineage, ..self }),
    {
        let mut step = self;
        step.lineage = lineage;
        step
    }

    /// The same step with another preview of its impact.
    pub fn with_impact_preview(self, preview: &str) -> (r: RemoteStep)
        ensures
            r.impact_preview@ == preview@,
            r == (RemoteStep { impact_preview: r.impact_preview, ..self }),
    {
        let mut step = self;
        step.impact_preview = copy_str(preview);
        step
    }

    /// The same step with more evidence.
    pub fn with_evidence(self, evidence: Vec<EvidenceItem>) -> (r: RemoteStep)
        ensures
            r.evidence@ == self.evidence@ + evidence@,
            r == (RemoteStep { evidence: r.evidence, ..self }),
    {
        let mut step = self;
        let mut more = evidence;
        step.evidence.append(&mut more);
        step
    }

    /// The material that an approval asks for is complete: a preview of the
    /// impact and at least one piece of evidence.
    pub open spec fn material_ready(self) -> bool {
        trimmed(self.impact_preview@).len() > 0 && self.evidence@.len() > 0
    }

    /// Whether the material that an approval asks for is complete.
    pub fn approval_material_ready(&self) -> (r: bool)
        ensures
            r == self.material_ready(),
    {
        !blank(self.impact_preview.as_str()) && !self.evidence.is_empty()
    }
}

/// What came of a remote step.
pub struct RemoteStepOutcome {
    pub step_id: String,
    pub ok: bool,
    pub output_cas: String,
    pub lineage: Vec<String>,
    pub error: Option<String>,
}

impl RemoteStepOutcome {
    /// A step that succeeded, with the hash of its output.
    pub fn success(step_id: &str, output_cas: &str, lineage: Vec<String>) -> (r: RemoteStepOutcome)
        ensures
            r.step_id@ == step_id@,
            r.ok,
            r.output_cas@ == output_cas@,
            r.lineage == lineage,
            r.error is None,
    {
        RemoteStepOutcome {
            step_id: copy_str(step_id),
            ok: true,
            output_cas: copy_str(output_cas),
            lineage,
            error: None,
        }
    }

    /// A step that failed.
    pub fn failure(step_id: &str, error: &str) -> (r: RemoteStepOutcome)
        ensures
            r.step_id@ == step_id@,
            !r.ok,
            r.output_cas@.len() == 0,
            r.lineage@.len() == 0,
            r.error matches Some(e) && e@ == error@,
    {
        RemoteStepOutcome {
            step_id: copy_str(step_id),
            ok: false,
            output_cas: String::new(),
            lineage: Vec::new(),
            error: Some(copy_str(error)),
        }
    }

    /// The outcome as a JSON object.
    pub open spec fn json_model(self) -> JsonModel {
        JsonModel::Table(
            Map::<Seq<char>, JsonModel>::empty()
                .insert("step_id"@, JsonModel::Text(self.step_id@))
                .insert("ok"@, JsonModel::Bool(self.ok))
                .insert("output_cas"@, JsonModel::Text(self.output_cas@))
                .insert("lineage"@, text_list(texts(self.lineage@)))
                .insert(
                    "error"@,
                    match self.error {
                        Some(e) => JsonModel::Text(e@),
                        None => JsonModel::Null,
                    },
                ),
        )
    }

    /// The outcome as a JSON object.
    pub fn to_json(&self) -> (r: Json)
        ensures
            r.model() == self.json_model(),
    {
        let error = match &self.error {
            Some(e) => Json::text(e.as_str()),
            None => Json::Null,
        };
        Json::table()
            .with("step_id", Json::text(self.step_id.as_str()))
            .with("ok", Json::Bool(self.ok))
            .with("output_cas", Json::text(self.output_cas.as_str()))
            .with("lineage", Json::texts(&self.lineage))
            .with("error", error)
    }
}

/// An event in the life of a remote step.
pub enum RemoteStepEvent {
    Submitted { step_id: String, correlation_id: String, worker: String },
    ApprovalRequested {
        step_id: String,
        owner_device: String,
        summary: String,
        correlation_id: String,
        impact_preview: String,
        evidence: Vec<EvidenceItem>,
    },
    ApprovalGranted { step_id: String, approved_by: String, correlation_id: String },
    Completed { outcome: RemoteStepOutcome, correlation_id: String },
}

impl RemoteStepEvent {
    /// The chain of messages that the event belongs to.
    pub open spec fn chain(self) -> Seq<char> {
        match self {
            RemoteStepEvent::Submitted { correlation_id, .. } => correlation_id@,
            RemoteStepEvent::ApprovalRequested { correlation_id, .. } => correlation_id@,
            RemoteStepEvent::ApprovalGranted { correlation_id, .. } => correlation_id@,
            RemoteStepEvent::Completed { correlation_id, .. } => correlation_id@,
        }
    }

    /// The event as a JSON object, told apart by its member `type`.
    pub open spec fn json_model(self) -> JsonModel {
        let e = Map::<Seq<char>, JsonModel>::empty();
        match self {
            RemoteStepEvent::Submitted { step_id, correlation_id, worker } => JsonModel::Table(
                e.insert("type"@, JsonModel::Text("submitted"@))
                    .insert("step_id"@, JsonModel::Text(step_id@))
                    .insert("correlation_id"@, JsonModel::Text(correlation_id@))
                    .insert("worker"@, JsonModel::Text(worker@)),
            ),
            RemoteStepEvent::ApprovalRequested {
                step_id,
                owner_device,
                summary,
                correlation_id,
                impact_preview,
                evidence,
            } => JsonModel::Table(
                e.insert("type"@, JsonModel::Text("approval_requested"@))
                    .insert("step_id"@, JsonModel::Text(step_id@))
                    .insert("owner_device"@, JsonModel::Text(owner_device@))
                    .insert("summary"@, JsonModel::Text(summary@))
                    .insert("correlation_id"@, JsonModel::Text(correlation_id@))
                    .insert("impact_preview"@, JsonModel::Text(impact_preview@))
                    .insert("evidence"@, evidence_model(evidence@)),
            ),
            RemoteStepEvent::ApprovalGranted { step_id, approved_by, correlation_id } => JsonModel::Table(
                e.insert("type"@, JsonModel::Text("approval_granted"@))
                    .insert("step_id"@, JsonModel::Text(step_id@))
                    .insert("approved_by"@, JsonModel::Text(approved_by@))
                    .insert("correlation_id"@, JsonModel::Text(correlation_id@)),
            ),
            RemoteStepEvent::Completed { outcome, correlation_id } => JsonModel::Table(
                e.insert("type"@, JsonModel::Text("completed"@))
                    .insert("outcome"@, outcome.json_model())
                    .insert("correlation_id"@, JsonModel::Text(correlation_id@)),
            ),
        }
    }

    /// The event as a JSON object.
    pub fn to_json(&self) -> (r: Json)
        ensures
            r.model() == self.json_model(),
    {
        match self {
            RemoteStepEvent::Submitted { step_id, correlation_id, worker } => Json::table()
                .with("type", Json::text("submitted"))
                .with("step_id", Json::text(step_id.as_str()))
                .with("correlation_id", Json::text(correlation_id.as_str()))
                .with("worker", Json::text(worker.as_str())),
            RemoteStepEvent::ApprovalRequested {
                step_id,
                owner_device,
                summary,
                correlation_id,
                impact_preview,
                evidence,
            } => Json::table()
                .with("type", Json::text("approval_requested"))
                .with("step_id", Json::text(step_id.as_str()))
                .with("owner_device", Json::text(owner_device.as_str()))
                .with("summary", Json::text(summary.as_str()))
                .with("correlation_id", Json::text(correlation_id.as_str()))
                .with("impact_preview", Json::text(impact_preview.as_str()))
                .with("evidence", evidence_json(evidence)),
            RemoteStepEvent::ApprovalGranted { step_id, approved_by, correlation_id } => Json::table()
                .with("type", Json::text("approval_granted"))
                .with("step_id", Json::text(step_id.as_str()))
                .with("approved_by", Json::text(approved_by.as_str()))
                .with("correlation_id", Json::text(correlation_id.as_str())),
            RemoteStepEvent::Completed { outcome, correlation_id } => Json::table()
                .with("type", Json::text("completed"))
                .with("outcome", outcome.to_json())
                .with("correlation_id", Json::text(correlation_id.as_str())),
        }
    }
}

// ---------------------------------------------------------------------------
// Submission
// ---------------------------------------------------------------------------

/// How long a submission waits for its result, in seconds.
pub const DEFAULT_REMOTE_STEP_TIMEOUT_SECS: u64 = 60;

/// The pause between two looks at the status, in milliseconds.
pub const POLL_PAUSE_MS: u64 = 20;

/// The task under which a step is submitted.
pub open spec fn task_name(step: RemoteStep) -> Seq<char> {
    "rs-"@ + step.step_id@
}

fn task_id_of(step: &RemoteStep) -> (r: String)
    ensures
        r@ == task_name(*step),
{
    let mut id = copy_str("rs-");
    id.append(step.step_id.as_str());
    id
}

/// What the task of a step is told.
pub open spec fn task_input(step: RemoteStep) -> JsonModel {
    let e = Map::<Seq<char>, JsonModel>::empty();
    JsonModel::Table(
        e.insert("kind"@, JsonModel::Text(step.kind.label_of()))
            .insert("input_cas"@, JsonModel::Text(step.input_cas@))
            .insert(
                "approval"@,
                JsonModel::Table(
                    e.insert("required"@, JsonModel::Bool(step.approval.required))
                        .insert("owner_device"@, JsonModel::Text(step.approval.owner_device@))
                        .insert("summary"@, JsonModel::Text(step.approval.summary@)),
                ),
            )
            .insert("impact_preview"@, JsonModel::Text(step.impact_preview@))
            .insert("evidence"@, evidence_model(step.evidence@)),
    )
}

/// The task that submits a step.
pub fn submission_task(step: &RemoteStep) -> (r: TransportTask)
    ensures
        r.task_id@ == task_name(*step),
        r.worker@ == step.worker@,
        r.correlation_id@ == step.correlation_id@,
        r.input.model() == task_input(*step),
        r.lineage@ == step.lineage@,
        r.approval_required == step.approval.required,
{
    let approval = Json::table()
        .with("required", Json::Bool(step.approval.required))
        .with("owner_device", Json::text(step.approval.owner_device.as_str()))
        .with("summary", Json::text(step.approval.summary.as_str()));
    let input = Json::table()
        .with("kind", Json::text(step.kind.label()))
        .with("input_cas", Json::text(step.input_cas.as_str()))
        .with("approval", approval)
        .with("impact_preview", Json::text(step.impact_preview.as_str()))
        .with("evidence", evidence_json(&step.evidence));
    let id = task_id_of(step);
    let mut task = TransportTask::new(id.as_str(), step.worker.as_str(), step.correlation_id.as_str(), input);
    task.lineage = copy_strings(&step.lineage);
    task.approval_required = step.approval.required;
    task
}

/// The position of the first event of a kind at or after `from`.
pub open spec fn first_event(es: Seq<TransportEvent>, kind: TransportEventKind, from: int) -> Option<int>
    decreases es.len() - from,
{
    if from < 0 || from >= es.len() {
        None
    } else if es[from].kind == kind {
        Some(from)
    } else {
        first_event(es, kind, from + 1)
    }
}

/// The text that the first event of a kind carries, if it carries one.
pub open spec fn event_text(es: Seq<TransportEvent>, kind: TransportEventKind) -> Option<Seq<char>> {
    match first_event(es, kind, 0) {
        Some(i) => match es[i].payload.model() {
            JsonModel::Text(s) => Some(s),
            _ => None,
        },
        None => None,
    }
}

fn text_of_event(es: &Vec<TransportEvent>, kind: TransportEventKind) -> (r: Option<String>)
    ensures
        match r {
            Some(s) => event_text(es@, kind) == Some(s@),
            None => event_text(es@, kind) is None,
        },
{
    let mut i: usize = 0;
    while i < es.len()
        invariant
            i <= es@.len(),
            first_event(es@, kind, 0) == first_event(es@, kind, i as int),
        decreases es@.len() - i,
    {
        if es[i].kind == kind {
            return match es[i].payload.as_text() {
                Some(s) => Some(s.clone()),
                None => None,
            };
        }
        i += 1;
    }
    None
}

/// What a submission waits for.
pub enum SubmitWait {
    /// The transport's answer to the submission.
    Accepted,
    /// The look at the clock before the next look at the status.
    Clock,
    /// The status.
    Status,
    /// The events of a task that succeeded.
    Result,
    /// The events of a task that failed.
    Failure,
    /// The hash of the stored output.
    Output,
    /// Nothing any more.
    Nothing,
}

/// What a submission is told.
pub enum SubmitEvent {
    Accepted(Result<(), String>),
    Clock { timed_out: bool },
    Status(Result<TransportStatus, String>),
    Events(Result<Vec<TransportEvent>, String>),
    Stored(Result<String, String>),
}

/// What a submission asks for.
pub enum SubmitAction {
    /// Compare the clock with the deadline.
    LookAtClock,
    /// Pause, then compare the clock with the deadline.
    Pause,
    /// Ask for the status.
    AskStatus,
    /// Ask for the events.
    AskEvents,
    /// Store the text as output.
    Store(String),
    /// Cancel the task, then end with the error.
    Cancel(String),
    /// End.
    End(Result<RemoteStepOutcome, String>),
}

/// The submission ended with this error.
pub open spec fn ended_with(a: SubmitAction, e: Seq<char>) -> bool {
    a matches SubmitAction::End(Err(s)) && s@ == e
}

/// The submission ended well, with this hash of the output.
pub open spec fn ended_well(a: SubmitAction, step: RemoteStep, hash: Seq<char>) -> bool {
    a matches SubmitAction::End(Ok(o)) && o.step_id@ == step.step_id@ && o.ok && o.output_cas@ == hash && o.lineage@
        == step.lineage@ && o.error is None
}

/// The answer of a submission to what it is told while it waits for `wait`.
pub open spec fn submit_answer(step: RemoteStep, wait: SubmitWait, event: SubmitEvent, to: SubmitWait, a: SubmitAction) -> bool {
    match (wait, event) {
        (SubmitWait::Accepted, SubmitEvent::Accepted(Ok(_))) => to is Clock && a is LookAtClock,
        (SubmitWait::Accepted, SubmitEvent::Accepted(Err(e))) => to is Nothing && ended_with(a, e@),
        (SubmitWait::Clock, SubmitEvent::Clock { timed_out }) => if timed_out {
            to is Nothing && (a matches SubmitAction::Cancel(s) && s@ == "远程步骤 "@ + task_name(step) + " 等待超时"@)
        } else {
            to is Status && a is AskStatus
        },
        (SubmitWait::Status, SubmitEvent::Status(Err(e))) => to is Nothing && ended_with(a, e@),
        (SubmitWait::Status, SubmitEvent::Status(Ok(s))) => match s {
            TransportStatus::Succeeded => to is Result && a is AskEvents,
            TransportStatus::Failed => to is Failure && a is AskEvents,
            TransportStatus::Cancelled => to is Nothing && ended_with(a, "远程步骤被取消"@),
            _ => to is Clock && a is Pause,
        },
        (SubmitWait::Result, SubmitEvent::Events(Err(e))) => to is Nothing && ended_with(a, e@),
        (SubmitWait::Result, SubmitEvent::Events(Ok(es))) => match event_text(es@, TransportEventKind::Result) {
            Some(t) => if t.len() > 0 {
                to is Output && (a matches SubmitAction::Store(s) && s@ == t)
            } else {
                to is Nothing && ended_well(a, step, seq![])
            },
            None => to is Nothing && ended_well(a, step, seq![]),
        },
        (SubmitWait::Failure, SubmitEvent::Events(Err(e))) => to is Nothing && ended_with(a, e@),
        (SubmitWait::Failure, SubmitEvent::Events(Ok(es))) => to is Nothing && ended_with(
            a,
            match event_text(es@, TransportEventKind::Cancelled) {
                Some(t) => t,
                None => "transport 任务失败"@,
            },
        ),
        (SubmitWait::Output, SubmitEvent::Stored(Ok(hash))) => to is Nothing && ended_well(a, step, hash@),
        (SubmitWait::Output, SubmitEvent::Stored(Err(e))) => to is Nothing && ended_with(a, e@),
        _ => to is Nothing && ended_with(a, "unexpected event"@),
    }
}

/// What a submission does next. It begins with `SubmitWait::Accepted` once the
/// task of `submission_task` was handed over.
pub fn submit_next(step: &RemoteStep, wait: SubmitWait, event: SubmitEvent) -> (r: (SubmitWait, SubmitAction))
    ensures
        submit_answer(*step, wait, event, r.0, r.1),
{
    match (wait, event) {
        (SubmitWait::Accepted, SubmitEvent::Accepted(a)) => match a {
            Ok(_) => (SubmitWait::Clock, SubmitAction::LookAtClock),
            Err(e) => (SubmitWait::Nothing, SubmitAction::End(Err(e))),
        },
        (SubmitWait::Clock, SubmitEvent::Clock { timed_out }) => {
            if timed_out {
                let mut e = copy_str("远程步骤 ");
                let id = task_id_of(step);
                e.append(id.as_str());
                e.append(" 等待超时");
                (SubmitWait::Nothing, SubmitAction::Cancel(e))
            } else {
                (SubmitWait::Status, SubmitAction::AskStatus)
            }
        },
        (SubmitWait::Status, SubmitEvent::Status(s)) => match s {
            Err(e) => (SubmitWait::Nothing, SubmitAction::End(Err(e))),
            Ok(TransportStatus::Succeeded) => (SubmitWait::Result, SubmitAction::AskEvents),
            Ok(TransportStatus::Failed) => (SubmitWait::Failure, SubmitAction::AskEvents),
            Ok(TransportStatus::Cancelled) => (
                SubmitWait::Nothing,
                SubmitAction::End(Err(copy_str("远程步骤被取消"))),
            ),
            Ok(_) => (SubmitWait::Clock, SubmitAction::Pause),
        },
        (SubmitWait::Result, SubmitEvent::Events(es)) => match es {
            Err(e) => (SubmitWait::Nothing, SubmitAction::End(Err(e))),
            Ok(es) => {
                match text_of_event(&es, TransportEventKind::Result) {
                    Some(t) => {
                        if !t.as_str().is_empty() {
                            return (SubmitWait::Output, SubmitAction::Store(t));
                        }
                    },
                    None => {},
                }
                let no_hash = String::new();
                (SubmitWait::Nothing, SubmitAction::End(Ok(finished_outcome(step, no_hash.as_str()))))
            },
        },
        (SubmitWait::Failure, SubmitEvent::Events(es)) => match es {
            Err(e) => (SubmitWait::Nothing, SubmitAction::End(Err(e))),
            Ok(es) => {
                let e = match text_of_event(&es, TransportEventKind::Cancelled) {
                    Some(t) => t,
                    None => copy_str("transport 任务失败"),
                };
                (SubmitWait::Nothing, SubmitAction::End(Err(e)))
            },
        },
        (SubmitWait::Output, SubmitEvent::Stored(s)) => match s {
            Ok(hash) => (SubmitWait::Nothing, SubmitAction::End(Ok(finished_outcome(step, hash.as_str())))),
            Err(e) => (SubmitWait::Nothing, SubmitAction::End(Err(e))),
        },
        _ => (SubmitWait::Nothing, SubmitAction::End(Err(copy_str("unexpected event")))),
    }
}

fn finished_outcome(step: &RemoteStep, hash: &str) -> (r: RemoteStepOutcome)
    ensures
        r.step_id@ == step.step_id@,
        r.ok,
        r.output_cas@ == hash@,
        r.lineage@ == step.lineage@,
        r.error is None,
{
    RemoteStepOutcome::success(step.step_id.as_str(), hash, copy_strings(&step.lineage))
}

/// The event that asks the owner's device for an approval.
pub fn approval_request_event(step: &RemoteStep) -> (r: TransportEvent)
    ensures
        r.task_id@ == task_name(*step),
        r.kind == TransportEventKind::ApprovalRequested,
        r.correlation_id@ == step.correlation_id@,
        r.payload.model() == JsonModel::Table(
            Map::<Seq<char>, JsonModel>::empty()
                .insert("owner_device"@, JsonModel::Text(step.approval.owner_device@))
                .insert("summary"@, JsonModel::Text(step.approval.summary@))
                .insert("impact_preview"@, JsonModel::Text(step.impact_preview@))
                .insert("evidence"@, evidence_model(step.evidence@)),
        ),
        r.lineage@ == step.lineage@,
{
    TransportEvent {
        task_id: task_id_of(step),
        kind: TransportEventKind::ApprovalRequested,
        correlation_id: step.correlation_id.clone(),
        payload: Json::table()
            .with("owner_device", Json::text(step.approval.owner_device.as_str()))
            .with("summary", Json::text(step.approval.summary.as_str()))
            .with("impact_preview", Json::text(step.impact_preview.as_str()))
            .with("evidence", evidence_json(&step.evidence)),
        lineage: copy_strings(&step.lineage),
    }
}

/// A task in this status runs no more.
pub open spec fn is_final(status: TransportStatus) -> bool {
    status is Succeeded || status is Failed || status is Cancelled
}

/// The approval of the task of a step: granted unless the task has ended or the
/// material for the approval is not complete.
pub fn approve_transport_task(step: &RemoteStep, status: TransportStatus, approved_by: &str) -> (r: Result<
    RemoteStepEvent,
    String,
>)
    ensures
        r is Ok <==> !is_final(status) && step.material_ready(),
        match r {
            Ok(granted) => granted matches RemoteStepEvent::ApprovalGranted { step_id, approved_by: by, correlation_id }
                && step_id@ == step.step_id@ && by@ == approved_by@ && correlation_id@ == step.correlation_id@,
            Err(e) => e@ == "任务 "@ + task_name(*step) + if is_final(status) {
                " 已终态，无法审批"@
            } else {
                " 审批材料不齐备（影响预览与结构化证据），无法审批"@
            },
        },
{
    let ended = matches!(status, TransportStatus::Succeeded | TransportStatus::Failed | TransportStatus::Cancelled);
    if ended || !step.approval_material_ready() {
        let mut e = copy_str("任务 ");
        e.append(task_id_of(step).as_str());
        if ended {
            e.append(" 已终态，无法审批");
        } else {
            e.append(" 审批材料不齐备（影响预览与结构化证据），无法审批");
        }
        return Err(e);
    }
    Ok(
        RemoteStepEvent::ApprovalGranted {
            step_id: step.step_id.clone(),
            approved_by: copy_str(approved_by),
            correlation_id: step.correlation_id.clone(),
        },
    )
}

/// Whoever waits for the result of a step looks at the clock before every look
/// at the status, and a deadline that has passed ends the wait.
pub proof fn deadline_ends_the_wait(step: RemoteStep, to: SubmitWait, a: SubmitAction)
    requires
        submit_answer(step, SubmitWait::Clock, SubmitEvent::Clock { timed_out: true }, to, a),
    ensures
        to is Nothing,
        a is Cancel,
{
}

proof fn step_words_differ()
    ensures
        "kind"@ != "summary"@ && "kind"@ != "detail"@ && "summary"@ != "detail"@,
        "step_id"@ != "ok"@ && "step_id"@ != "output_cas"@ && "step_id"@ != "lineage"@ && "step_id"@ != "error"@ && "ok"@
            != "output_cas"@ && "ok"@ != "lineage"@ && "ok"@ != "error"@ && "output_cas"@ != "lineage"@ && "output_cas"@
            != "error"@ && "lineage"@ != "error"@,
        "kind"@ != "input_cas"@ && "kind"@ != "approval"@ && "kind"@ != "impact_preview"@ && "kind"@ != "evidence"@ && "input_cas"@
            != "approval"@ && "input_cas"@ != "impact_preview"@ && "input_cas"@ != "evidence"@ && "approval"@
            != "impact_preview"@ && "approval"@ != "evidence"@ && "impact_preview"@ != "evidence"@,
        "required"@ != "owner_device"@ && "required"@ != "summary"@ && "owner_device"@ != "summary"@,
        "type"@ != "step_id"@ && "type"@ != "correlation_id"@ && "type"@ != "worker"@ && "type"@ != "owner_device"@ && "type"@
            != "summary"@ && "type"@ != "impact_preview"@ && "type"@ != "evidence"@ && "type"@ != "approved_by"@ && "type"@
            != "outcome"@,
        "step_id"@ != "correlation_id"@ && "step_id"@ != "worker"@ && "step_id"@ != "owner_device"@ && "step_id"@
            != "summary"@ && "step_id"@ != "impact_preview"@ && "step_id"@ != "evidence"@ && "step_id"@ != "approved_by"@,
        "correlation_id"@ != "worker"@ && "correlation_id"@ != "owner_device"@ && "correlation_id"@ != "summary"@
            && "correlation_id"@ != "impact_preview"@ && "correlation_id"@ != "evidence"@ && "correlation_id"@
            != "approved_by"@ && "correlation_id"@ != "outcome"@,
        "owner_device"@ != "impact_preview"@ && "owner_device"@ != "evidence"@ && "summary"@ != "impact_preview"@ && "summary"@
            != "evidence"@,
{
    reveal_strlit("kind");
    reveal_strlit("summary");
    reveal_strlit("detail");
    reveal_strlit("step_id");
    reveal_strlit("ok");
    reveal_strlit("output_cas");
    reveal_strlit("lineage");
    reveal_strlit("error");
    reveal_strlit("input_cas");
    reveal_strlit("approval");
    reveal_strlit("impact_preview");
    reveal_strlit("evidence");
    reveal_strlit("required");
    reveal_strlit("owner_device");
    reveal_strlit("type");
    reveal_strlit("correlation_id");
    reveal_strlit("worker");
    reveal_strlit("approved_by");
    reveal_strlit("outcome");
    assert("kind"@.len() == 4 && "summary"@.len() == 7 && "detail"@.len() == 6 && "step_id"@.len() == 7 && "step_id"@[1]
        == 't' && "summary"@[1] == 'u' && "ok"@.len() == 2 && "output_cas"@.len() == 10 && "lineage"@.len() == 7
        && "lineage"@[0] == 'l' && "step_id"@[0] == 's' && "summary"@[0] == 's' && "error"@.len() == 5 && "input_cas"@.len()
        == 9 && "approval"@.len() == 8 && "approval"@[0] == 'a' && "impact_preview"@.len() == 14 && "impact_preview"@[0]
        == 'i' && "evidence"@.len() == 8 && "evidence"@[0] == 'e' && "required"@.len() == 8 && "owner_device"@.len() == 12
        && "type"@.len() == 4 && "type"@[0] == 't' && "kind"@[0] == 'k' && "correlation_id"@.len() == 14
        && "correlation_id"@[0] == 'c' && "worker"@.len() == 6 && "approved_by"@.len() == 11 && "outcome"@.len() == 7);
}

/// An approval is asked for with both: what it would do, in words, and evidence.
pub proof fn approvals_need_both(step: RemoteStep)
    ensures
        step.evidence@.len() == 0 ==> !step.material_ready(),
        crate::text::is_blank(step.impact_preview@) ==> !step.material_ready(),
        step.evidence@.len() > 0 && !crate::text::is_blank(step.impact_preview@) ==> step.material_ready(),
{
    crate::text::blank_iff_trimmed_empty(step.impact_preview@);
}

/// A task carries the whole step: what kind it is, its input, who has to approve it and
/// why, what it would do and the evidence.
pub proof fn tasks_carry_the_whole_step(step: RemoteStep, i: int)
    ensures
        member(task_input(step), "kind"@) == Some(JsonModel::Text(step.kind.label_of())),
        member(task_input(step), "input_cas"@) == Some(JsonModel::Text(step.input_cas@)),
        member(task_input(step), "impact_preview"@) == Some(JsonModel::Text(step.impact_preview@)),
        member(task_input(step), "approval"@) matches Some(a) && member(a, "required"@) == Some(
            JsonModel::Bool(step.approval.required),
        ) && member(a, "owner_device"@) == Some(JsonModel::Text(step.approval.owner_device@)) && member(a, "summary"@)
            == Some(JsonModel::Text(step.approval.summary@)),
        member(task_input(step), "evidence"@) matches Some(JsonModel::List(l)) && l.len() == step.evidence@.len() && (0 <= i
            < l.len() ==> member(l[i], "kind"@) == Some(JsonModel::Text(step.evidence@[i].kind@)) && member(
            l[i],
            "summary"@,
        ) == Some(JsonModel::Text(step.evidence@[i].summary@)) && member(l[i], "detail"@) == Some(
            JsonModel::Text(step.evidence@[i].detail@),
        )),
        crate::text::finishes_with(task_name(step), step.step_id@),
{
    step_words_differ();
    let t = task_name(step);
    assert(t.skip(t.len() - step.step_id@.len()) =~= step.step_id@);
}

/// What happens to a step is told with the step, the chain and all that belongs to it.
pub proof fn step_events_are_told_whole(e: RemoteStepEvent)
    ensures
        member(e.json_model(), "correlation_id"@) == Some(JsonModel::Text(e.chain())),
        e matches RemoteStepEvent::Submitted { step_id, worker, .. } ==> member(e.json_model(), "step_id"@) == Some(
            JsonModel::Text(step_id@),
        ) && member(e.json_model(), "worker"@) == Some(JsonModel::Text(worker@)),
        e matches RemoteStepEvent::ApprovalRequested { step_id, owner_device, summary, impact_preview, evidence, .. }
            ==> member(e.json_model(), "step_id"@) == Some(JsonModel::Text(step_id@)) && member(
            e.json_model(),
            "owner_device"@,
        ) == Some(JsonModel::Text(owner_device@)) && member(e.json_model(), "summary"@) == Some(
            JsonModel::Text(summary@),
        ) && member(e.json_model(), "impact_preview"@) == Some(JsonModel::Text(impact_preview@)) && member(
            e.json_model(),
            "evidence"@,
        ) == Some(evidence_model(evidence@)),
        e matches RemoteStepEvent::ApprovalGranted { step_id, approved_by, .. } ==> member(e.json_model(), "step_id"@)
            == Some(JsonModel::Text(step_id@)) && member(e.json_model(), "approved_by"@) == Some(
            JsonModel::Text(approved_by@),
        ),
        e matches RemoteStepEvent::Completed { outcome, .. } ==> member(e.json_model(), "outcome"@) == Some(
            outcome.json_model(),
        ),
{
    step_words_differ();
}

/// What came of a step is told whole: whether it went well, what it left, where it
/// comes from, and the error where there is one.
pub proof fn outcomes_are_told_whole(o: RemoteStepOutcome, t: String)
    ensures
        member(o.json_model(), "step_id"@) == Some(JsonModel::Text(o.step_id@)),
        member(o.json_model(), "ok"@) == Some(JsonModel::Bool(o.ok)),
        member(o.json_model(), "output_cas"@) == Some(JsonModel::Text(o.output_cas@)),
        member(o.json_model(), "lineage"@) == Some(text_list(texts(o.lineage@))),
        o.error == Some(t) ==> member(o.json_model(), "error"@) == Some(JsonModel::Text(t@)),
        o.error is None ==> member(o.json_model(), "error"@) == Some(JsonModel::Null),
{
    step_words_differ();
}

/// The text of a kind of event is that of the first such event, where it is a text.
pub proof fn the_first_event_of_its_kind_speaks(es: Seq<TransportEvent>, kind: TransportEventKind, i: int, t: Seq<char>)
    requires
        0 <= i < es.len(),
        es[i].kind == kind,
        forall|j: int| 0 <= j < i ==> (#[trigger] es[j]).kind != kind,
    ensures
        es[i].payload.model() == JsonModel::Text(t) ==> event_text(es, kind) == Some(t),
        !(es[i].payload.model() is Text) ==> event_text(es, kind) is None,
{
    event_found(es, kind, 0, i);
}

proof fn event_found(es: Seq<TransportEvent>, kind: TransportEventKind, from: int, i: int)
    requires
        0 <= from <= i < es.len(),
        es[i].kind == kind,
        forall|j: int| from <= j < i ==> (#[trigger] es[j]).kind != kind,
    ensures
        first_event(es, kind, from) == Some(i),
    decreases i - from,
{
    if from < i {
        assert(es[from].kind != kind);
        event_found(es, kind, from + 1, i);
    }
}

/// A step ends well only once its task has succeeded: then its result is stored and
/// the outcome names what was stored. A task that failed, was cancelled or could not be
/// asked ends it with an error.
pub proof fn steps_end_as_their_task(step: RemoteStep, wait: SubmitWait, event: SubmitEvent, to: SubmitWait, a: SubmitAction)
    requires
        submit_answer(step, wait, event, to, a),
    ensures
        a matches SubmitAction::End(Ok(o)) ==> wait is Result || wait is Output,
        to is Result || to is Failure ==> wait is Status && (event matches SubmitEvent::Status(Ok(s)) && (to is Result
            <==> s is Succeeded) && (to is Failure <==> s is Failed)) && a is AskEvents,
        to is Output ==> wait is Result && (event matches SubmitEvent::Events(Ok(es)) && (a matches SubmitAction::Store(s)
            && event_text(es@, TransportEventKind::Result) == Some(s@) && s@.len() > 0)),
        wait is Output ==> (event matches SubmitEvent::Stored(Ok(hash)) ==> (a matches SubmitAction::End(Ok(o)) && o.ok
            && o.step_id@ == step.step_id@ && o.output_cas@ == hash@ && o.lineage@ == step.lineage@)),
        wait is Failure ==> (a matches SubmitAction::End(r) && r is Err),
        wait is Status ==> (event matches SubmitEvent::Status(Ok(s)) ==> {
            &&& s is Cancelled ==> (a matches SubmitAction::End(r) && r is Err)
            &&& !(s is Succeeded || s is Failed || s is Cancelled) ==> to is Clock && a is Pause
        }),
        wait is Clock ==> (event matches SubmitEvent::Clock { timed_out } ==> (!timed_out ==> a is AskStatus && to
            is Status)),
        wait is Accepted ==> (event matches SubmitEvent::Accepted(Ok(x)) ==> a is LookAtClock && to is Clock),
{
}

/// A task is over once it has succeeded, failed or was cancelled, and not before.
pub proof fn tasks_end_three_ways(status: TransportStatus)
    ensures
        is_final(status) <==> status is Succeeded || status is Failed || status is Cancelled,
{
}

} // verus!
