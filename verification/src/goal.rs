//! Goals and the runner that works through their plans: which steps run when,
//! what their results change, when the plan is tried again and how the goal ends.

use crate::audit::{opt_text, AuditLog, AuditModel};
use crate::clock::{now_millis, now_text};
use crate::plan::{
    closed_parts_meet_no_others, dependencies_carry_on, depends_on_any, needs_any, step_index, Plan, StepSpec, StepStatus, VerificationSpec,
};
use crate::table::Table;
use crate::text::{
    begins_with, contains_string, copy_str, debug_list, debug_strings, decimal, decimal_text, finishes_with, join, joined,
    signed_decimal,
    signed_decimal_text, texts,
};
use vstd::prelude::*;

verus! {

/// How far a goal is.
#[derive(Debug, Clone, Copy, PartialEq, Eq, Structural)]
pub enum GoalStatus {
    Pending,
    Planning,
    Running,
    Verifying,
    Succeeded,
    Failed,
    Aborted,
}

impl GoalStatus {
    /// The goal has come to an end.
    pub open spec fn terminal(self) -> bool {
        self is Succeeded || self is Failed || self is Aborted
    }

    /// Whether the goal has come to an end.
    pub fn is_terminal(self) -> (r: bool)
        ensures
            r == self.terminal(),
    {
        matches!(self, GoalStatus::Succeeded | GoalStatus::Failed | GoalStatus::Aborted)
    }
}

/// What a goal may use up.
#[derive(Debug, Clone, Copy, PartialEq, Eq, Structural)]
pub struct GoalBudget {
    /// The number of attempts in all.
    pub max_steps: u32,
    /// The number of retries of one step.
    pub max_retries_per_step: u32,
    /// The number of retries in all.
    pub max_total_retries: u32,
    /// How often the plan is tried again.
    pub max_replans: u32,
    /// The time in seconds; zero sets no limit.
    pub max_duration_secs: u64,
}

impl Default for GoalBudget {
    fn default() -> (r: GoalBudget)
        ensures
            r == (GoalBudget {
                max_steps: 200,
                max_retries_per_step: 2,
                max_total_retries: 10,
                max_replans: 2,
                max_duration_secs: 0,
            }),
    {
        GoalBudget {
            max_steps: 200,
            max_retries_per_step: 2,
            max_total_retries: 10,
            max_replans: 2,
            max_duration_secs: 0,
        }
    }
}

/// A goal with its budget and the conditions that its result has to meet.
pub struct Goal {
    pub id: String,
    pub objective: String,
    pub status: GoalStatus,
    pub budget: GoalBudget,
    pub acceptance: Vec<VerificationSpec>,
    pub created_at: String,
    pub updated_at: String,
    pub error: Option<String>,
}

impl Goal {
    /// A goal that is made now.
    pub fn new(id: &str, objective: &str) -> (r: Goal)
        ensures
            r.id@ == id@,
            r.objective@ == objective@,
            r.status is Pending,
            r.budget == (GoalBudget {
                max_steps: 200,
                max_retries_per_step: 2,
                max_total_retries: 10,
                max_replans: 2,
                max_duration_secs: 0,
            }),
            r.acceptance@.len() == 0,
            r.created_at == r.updated_at,
            r.error is None,
    {
        let now = now_text();
        Goal {
            id: copy_str(id),
            objective: copy_str(objective),
            status: GoalStatus::Pending,
            budget: GoalBudget::default(),
            acceptance: Vec::new(),
            created_at: now.clone(),
            updated_at: now,
            error: None,
        }
    }

    /// Moves the goal to another status, as of now.
    pub fn transition(&mut self, status: GoalStatus)
        ensures
            *final(self) == (Goal { status, updated_at: final(self).updated_at, ..*old(self) }),
    {
        self.status = status;
        self.updated_at = now_text();
    }
}

/// What is known of a step.
pub struct StepRecord {
    pub step_id: String,
    pub status: StepStatus,
    pub attempts: u32,
    pub output: Option<String>,
    pub error: Option<String>,
}

/// A run of a plan, in full: it can be stored and taken up again.
pub struct GoalRunState {
    pub run_id: String,
    pub goal: Goal,
    pub plan: Plan,
    /// The records of the steps, in the order of their names.
    pub records: Table<StepRecord>,
    pub steps_taken: u32,
    pub total_retries: u32,
    pub replan_count: u32,
    pub started_at: String,
    pub events: Vec<String>,
    pub aborted: bool,
}

/// Nothing is known yet of the step `id`.
pub open spec fn is_fresh(r: StepRecord, id: Seq<char>) -> bool {
    r.step_id@ == id && r.status is Pending && r.attempts == 0 && r.output is None && r.error is None
}

impl GoalRunState {
    /// Every step of the plan has a record, no step has two, and they stand in
    /// the order of their names.
    pub open spec fn wf(self) -> bool {
        &&& self.records.wf()
        &&& self.records.sorted()
        &&& forall|i: int|
            0 <= i < self.plan.steps@.len() ==> self.records@.contains_key((#[trigger] self.plan.steps@[i]).id@)
    }

    /// A run that begins now. It is named after the time in milliseconds.
    pub fn new(goal: Goal, plan: Plan) -> (r: GoalRunState)
        ensures
            r.wf(),
            exists|ms: int| r.run_id@ == "run-"@ + #[trigger] signed_decimal(ms),
            r.goal == goal,
            r.plan == plan,
            forall|k: Seq<char>| #[trigger] r.records@.contains_key(k) ==> is_fresh(r.records@[k], k),
            forall|k: Seq<char>|
                #[trigger] r.records@.contains_key(k) ==> exists|i: int|
                    0 <= i < plan.steps@.len() && (#[trigger] plan.steps@[i]).id@ == k,
            r.steps_taken == 0 && r.total_retries == 0 && r.replan_count == 0,
            r.events@.len() == 0,
            !r.aborted,
    {
        let mut run_id = copy_str("run-");
        let stamp = signed_decimal_text(now_millis());
        run_id.append(stamp.as_str());
        assert(run_id@ =~= "run-"@ + stamp@);
        GoalRunState::started(goal, plan, run_id, now_text())
    }

    /// A run that began at `started_at`.
    pub fn started(goal: Goal, plan: Plan, run_id: String, started_at: String) -> (r: GoalRunState)
        ensures
            r.wf(),
            r.run_id == run_id,
            r.goal == goal,
            r.plan == plan,
            forall|k: Seq<char>| #[trigger] r.records@.contains_key(k) ==> is_fresh(r.records@[k], k),
            forall|k: Seq<char>|
                #[trigger] r.records@.contains_key(k) ==> exists|i: int|
                    0 <= i < plan.steps@.len() && (#[trigger] plan.steps@[i]).id@ == k,
            r.steps_taken == 0 && r.total_retries == 0 && r.replan_count == 0,
            r.started_at == started_at,
            r.events@.len() == 0,
            !r.aborted,
    {
        let mut records: Table<StepRecord> = Table::new();
        for i in 0..plan.steps.len()
            invariant
                records.wf(),
                records.sorted(),
                forall|j: int| 0 <= j < i ==> records@.contains_key((#[trigger] plan.steps@[j]).id@),
                forall|k: Seq<char>| #[trigger] records@.contains_key(k) ==> is_fresh(records@[k], k),
                forall|k: Seq<char>|
                    #[trigger] records@.contains_key(k) ==> exists|j: int|
                        0 <= j < i && (#[trigger] plan.steps@[j]).id@ == k,
        {
            let record = StepRecord {
                step_id: plan.steps[i].id.clone(),
                status: StepStatus::Pending,
                attempts: 0,
                output: None,
                error: None,
            };
            records.insert_sorted(plan.steps[i].id.clone(), record);
            assert(plan.steps@[i as int].id@ == plan.steps@[i as int].id@);
        }
        GoalRunState {
            run_id,
            goal,
            plan,
            records,
            steps_taken: 0,
            total_retries: 0,
            replan_count: 0,
            started_at,
            events: Vec::new(),
            aborted: false,
        }
    }

    /// The name of the file that the run is stored in.
    pub fn file_name(&self) -> (r: String)
        ensures
            r@ == self.run_id@ + ".json"@,
    {
        let mut name = self.run_id.clone();
        name.append(".json");
        name
    }
}

/// How a runner works.
pub struct RunnerConfig {
    /// How many steps run at once.
    pub max_parallel: usize,
    /// Where runs are stored.
    pub persist_dir: Option<String>,
    /// Whether the plan may be tried again after a failure.
    pub allow_replan: bool,
}

impl Default for RunnerConfig {
    fn default() -> (r: RunnerConfig)
        ensures
            r.max_parallel == 4,
            r.persist_dir is None,
            r.allow_replan,
    {
        RunnerConfig { max_parallel: 4, persist_dir: None, allow_replan: true }
    }
}

/// The runner of one plan.
pub struct GoalRunner {
    pub state: GoalRunState,
    pub config: RunnerConfig,
    pub audit: Option<AuditLog>,
}

/// What a run changes.
pub struct Progress {
    pub status: GoalStatus,
    pub error: Option<Seq<char>>,
    pub records: Map<Seq<char>, StepRecord>,
    pub steps_taken: u32,
    pub total_retries: u32,
    pub replan_count: u32,
    pub aborted: bool,
}

/// An event and its detail.
pub type Event = (Seq<char>, Seq<char>);

/// The events as the run lists them.
pub open spec fn event_lines(es: Seq<Event>) -> Seq<Seq<char>> {
    es.map_values(|e: Event| e.0 + ": "@ + e.1)
}

/// The events as the record of actions holds them.
pub open spec fn audit_lines(goal: Seq<char>, plan_goal: Seq<char>, es: Seq<Event>) -> Seq<AuditModel> {
    es.map_values(
        |e: Event|
            AuditModel {
                session_id: goal,
                event: e.0,
                tool: Some("goal/"@ + plan_goal),
                approved: None,
                detail: e.1,
            },
    )
}

/// The sum of two counts, at most the greatest number.
pub open spec fn capped_sum(a: u32, b: u32) -> u32 {
    if a + b > u32::MAX {
        u32::MAX
    } else {
        (a + b) as u32
    }
}

fn capped(a: u32, b: u32) -> (r: u32)
    ensures
        r == capped_sum(a, b),
{
    match a.checked_add(b) {
        Some(s) => s,
        None => u32::MAX,
    }
}

/// The retries among a number of attempts.
pub open spec fn retries_in(attempts: u32) -> u32 {
    if attempts == 0 {
        0u32
    } else {
        (attempts - 1) as u32
    }
}

/// The records after every step that may still run was set to `status`.
pub open spec fn settled(records: Map<Seq<char>, StepRecord>, status: StepStatus) -> Map<Seq<char>, StepRecord> {
    records.map_values(
        |r: StepRecord|
            if r.status.resumable() {
                StepRecord { status, ..r }
            } else {
                r
            },
    )
}

/// The records once an outcome was taken in: a limit that was met changes none.
pub open spec fn with_outcome(records: Map<Seq<char>, StepRecord>, o: StepOutcome) -> Map<Seq<char>, StepRecord> {
    let id = o.step_id@;
    match o.result {
        StepResult::Passed { output } => records.insert(
            id,
            StepRecord {
                status: StepStatus::Succeeded,
                attempts: o.attempts,
                output: Some(output),
                error: None,
                ..records[id]
            },
        ),
        StepResult::Retried { error } => records.insert(
            id,
            StepRecord { status: StepStatus::Failed, attempts: o.attempts, error: Some(error), ..records[id] },
        ),
        StepResult::Budget { .. } => records,
    }
}

/// The record of a step that is to be tried again.
pub open spec fn reset_record(r: StepRecord) -> StepRecord {
    StepRecord { status: StepStatus::Pending, error: None, attempts: 0, ..r }
}

/// The step `k` is tried again after the steps `failed` failed: it is one of
/// them, or it has not succeeded and depends on one of them.
pub open spec fn tried_again(
    steps: Seq<StepSpec>,
    records: Map<Seq<char>, StepRecord>,
    failed: Seq<Seq<char>>,
    k: Seq<char>,
) -> bool {
    failed.contains(k) || (!(records[k].status is Succeeded) && exists|i: int|
        0 <= i < steps.len() && (#[trigger] steps[i]).id@ == k && needs_any(steps, texts(steps[i].depends_on@), failed))
}

/// The records after the plan was set up again.
pub open spec fn replanned(
    steps: Seq<StepSpec>,
    records: Map<Seq<char>, StepRecord>,
    failed: Seq<Seq<char>>,
) -> Map<Seq<char>, StepRecord> {
    Map::new(
        |k: Seq<char>| records.contains_key(k),
        |k: Seq<char>|
            if tried_again(steps, records, failed, k) {
                reset_record(records[k])
            } else {
                records[k]
            },
    )
}

/// All that the step depends on has succeeded.
pub open spec fn needs_met(records: Map<Seq<char>, StepRecord>, step: StepSpec) -> bool {
    forall|j: int|
        0 <= j < step.depends_on@.len() ==> records.contains_key((#[trigger] step.depends_on@[j])@)
            && records[step.depends_on@[j]@].status is Succeeded
}

/// The step can run now.
pub open spec fn is_ready(records: Map<Seq<char>, StepRecord>, step: StepSpec) -> bool {
    records[step.id@].status.resumable() && needs_met(records, step)
}

/// The positions of the first `n` steps that can run now.
pub open spec fn ready_steps(steps: Seq<StepSpec>, records: Map<Seq<char>, StepRecord>, n: int) -> Seq<usize>
    decreases n,
{
    if n <= 0 {
        seq![]
    } else if is_ready(records, steps[n - 1]) {
        ready_steps(steps, records, n - 1).push((n - 1) as usize)
    } else {
        ready_steps(steps, records, n - 1)
    }
}

/// Every step has succeeded.
pub open spec fn all_done(steps: Seq<StepSpec>, records: Map<Seq<char>, StepRecord>) -> bool {
    forall|i: int| 0 <= i < steps.len() ==> records[(#[trigger] steps[i]).id@].status is Succeeded
}

/// How a run ends once the conditions of its goal were looked at: it succeeds
/// where none is refused, else it fails for the first that is.
pub open spec fn judged(before: Progress, after: Progress, verdicts: Seq<Result<(), String>>) -> bool {
    match first_refusal(verdicts, 0) {
        Some(e) => after == (Progress {
            status: GoalStatus::Failed,
            error: Some("目标验收失败："@ + e),
            ..before
        }),
        None => after == (Progress { status: GoalStatus::Succeeded, ..before }),
    }
}

/// The outputs of the steps that succeeded, in the order of the records.
pub open spec fn outputs(records: Seq<(String, StepRecord)>) -> Seq<Seq<char>>
    decreases records.len(),
{
    if records.len() == 0 {
        seq![]
    } else {
        let front = outputs(records.drop_last());
        let r = records.last().1;
        match r.output {
            Some(o) => if r.status is Succeeded {
                front.push(o@)
            } else {
                front
            },
            None => front,
        }
    }
}

/// What a wave of steps begins with.
pub enum Wave {
    /// The run has ended.
    End(GoalStatus),
    /// Every step has succeeded: the result is to be checked.
    Verify,
    /// These steps of the plan can run.
    Run(Vec<usize>),
}

/// What came of a step.
pub enum StepResult {
    Passed { output: String },
    Retried { error: String },
    Budget { reason: String },
}

/// What came of a step, and after how many attempts.
pub struct StepOutcome {
    pub step_id: String,
    pub attempts: u32,
    pub result: StepResult,
}

/// The end of the task that ran a step.
pub enum JoinedStep {
    Done(StepOutcome),
    /// The task broke off with this message.
    Panicked(String),
    /// The task is gone.
    Lost,
}

impl GoalRunner {
    pub open spec fn wf(self) -> bool {
        self.state.wf()
    }

    /// What the run has changed so far.
    pub open spec fn progress(self) -> Progress {
        Progress {
            status: self.state.goal.status,
            error: opt_text(self.state.goal.error),
            records: self.state.records@,
            steps_taken: self.state.steps_taken,
            total_retries: self.state.total_retries,
            replan_count: self.state.replan_count,
            aborted: self.state.aborted,
        }
    }

    /// What a run never changes is the same here and in `other`.
    pub open spec fn same_run(self, other: GoalRunner) -> bool {
        &&& self.config == other.config
        &&& self.state.run_id == other.state.run_id
        &&& self.state.plan == other.state.plan
        &&& self.state.started_at == other.state.started_at
        &&& self.state.goal == (Goal {
            status: self.state.goal.status,
            updated_at: self.state.goal.updated_at,
            error: self.state.goal.error,
            ..other.state.goal
        })
    }

    /// `other` is this run with the events `es` noted, in the list of events and
    /// in the record of actions alike.
    pub open spec fn noted(self, other: GoalRunner, es: Seq<Event>) -> bool {
        &&& texts(other.state.events@) == texts(self.state.events@) + event_lines(es)
        &&& match (self.audit, other.audit) {
            (None, None) => true,
            (Some(a), Some(b)) => b.continues(a) && b@ == a@ + audit_lines(
                self.state.goal.id@,
                self.state.plan.goal_id@,
                es,
            ),
            _ => false,
        }
    }

    /// A runner for a plan that was not run before.
    pub fn new(goal: Goal, plan: Plan, config: RunnerConfig) -> (r: GoalRunner)
        ensures
            r.wf(),
            r.state.goal == goal,
            r.state.plan == plan,
            r.config == config,
            r.audit is None,
            forall|k: Seq<char>| #[trigger] r.state.records@.contains_key(k) ==> is_fresh(r.state.records@[k], k),
            r.state.steps_taken == 0 && r.state.total_retries == 0 && r.state.replan_count == 0,
            r.state.events@.len() == 0,
            !r.state.aborted,
    {
        GoalRunner { state: GoalRunState::new(goal, plan), config, audit: None }
    }

    /// A runner that takes up a stored run.
    pub fn from_state(state: GoalRunState, config: RunnerConfig) -> (r: GoalRunner)
        ensures
            r.state == state,
            r.config == config,
            r.audit is None,
    {
        GoalRunner { state, config, audit: None }
    }

    /// A runner that takes up a stored run whose records fit its plan; nothing
    /// where a step has no record or the records are out of order.
    pub fn resume(state: GoalRunState, config: RunnerConfig) -> (r: Option<GoalRunner>)
        ensures
            match r {
                Some(runner) => runner.wf() && runner.state == state && runner.config == config && runner.audit is None,
                None => !state.wf(),
            },
    {
        if !state.records.is_sorted() {
            return None;
        }
        for i in 0..state.plan.steps.len()
            invariant
                state.records.wf(),
                forall|j: int|
                    0 <= j < i ==> state.records@.contains_key((#[trigger] state.plan.steps@[j]).id@),
        {
            if !state.records.contains(state.plan.steps[i].id.as_str()) {
                assert(!state.records@.contains_key(state.plan.steps@[i as int].id@));
                return None;
            }
        }
        Some(GoalRunner::from_state(state, config))
    }

    /// Has the runner note its events in `log` too.
    pub fn attach_audit(&mut self, log: AuditLog)
        ensures
            final(self).audit == Some(log),
            final(self).state == old(self).state,
            final(self).config == old(self).config,
    {
        self.audit = Some(log);
    }

    /// Notes an event.
    fn log(&mut self, event: &str, detail: &str)
        ensures
            final(self).state == (GoalRunState { events: final(self).state.events, ..old(self).state }),
            final(self).config == old(self).config,
            old(self).noted(*final(self), seq![(event@, detail@)]),
    {
        let ghost before = *self;
        let mut line = copy_str(event);
        line.append(": ");
        line.append(detail);
        self.state.events.push(line);
        proof {
            assert(texts(self.state.events@) =~= texts(before.state.events@).push(line@));
            assert(event_lines(seq![(event@, detail@)]) =~= seq![event@ + ": "@ + detail@]);
            assert(texts(self.state.events@) =~= texts(before.state.events@) + event_lines(seq![(event@, detail@)]));
        }
        let mut log: Option<AuditLog> = None;
        std::mem::swap(&mut log, &mut self.audit);
        match log {
            Some(l) => {
                let mut l = l;
                let ghost l0 = l@;
                let mut target = copy_str("goal/");
                target.append(self.state.plan.goal_id.as_str());
                l.record(self.state.goal.id.as_str(), event, Some(target), None, detail);
                proof {
                    let es = seq![(event@, detail@)];
                    assert(l@ =~= l0 + audit_lines(before.state.goal.id@, before.state.plan.goal_id@, es));
                }
                self.audit = Some(l);
            },
            None => {},
        }
    }

    /// Sets every step that may still run to `status`.
    fn mark_remaining(&mut self, status: StepStatus)
        requires
            old(self).wf(),
        ensures
            final(self).wf(),
            final(self).state.records@ == settled(old(self).state.records@, status),
            final(self).state == (GoalRunState { records: final(self).state.records, ..old(self).state }),
            final(self).config == old(self).config,
            final(self).audit == old(self).audit,
    {
        let ghost before = *self;
        let ghost start = before.state.records;
        let mut i: usize = 0;
        while i < self.state.records.entries.len()
            invariant
                before.wf(),
                start == before.state.records,
                self.state == (GoalRunState { records: self.state.records, ..before.state }),
                self.config == before.config,
                self.audit == before.audit,
                self.state.records.wf(),
                self.state.records.sorted(),
                self.state.records.keys() == start.keys(),
                self.state.records.entries@.len() == start.entries@.len(),
                i <= start.entries@.len(),
                forall|j: int|
                    0 <= j < start.entries@.len() ==> (#[trigger] self.state.records.entries@[j]).1 == (if j < i
                        && start.entries@[j].1.status.resumable() {
                        StepRecord { status, ..start.entries@[j].1 }
                    } else {
                        start.entries@[j].1
                    }),
            decreases start.entries@.len() - i,
        {
            let ghost mid = *self;
            if !self.state.records.entries[i].1.status.is_terminal() {
                let e = &mut self.state.records.entries[i];
                e.1.status = status;
                assert(self.state.records.keys() =~= mid.state.records.keys());
                proof {
                    same_keys_stay_sound(mid.state.records, self.state.records);
                }
            }
            i += 1;
        }
        proof {
            let now = self.state.records;
            same_keys_stay_sound(start, now);
            assert forall|k: Seq<char>| #[trigger] now@.contains_key(k) implies now@[k] == settled(start@, status)[k] by {
                now.slot_of_key(k);
                start.slot_of_key(k);
            }
            assert(now@ =~= settled(start@, status));
        }
    }

    /// Ends the run with a failure.
    fn fail_goal(&mut self, reason: String) -> (r: GoalStatus)
        requires
            old(self).wf(),
        ensures
            final(self).wf(),
            final(self).same_run(*old(self)),
            final(self).progress() == (Progress {
                status: GoalStatus::Failed,
                error: Some(reason@),
                ..old(self).progress()
            }),
            old(self).noted(*final(self), seq![("goal.failed"@, reason@)]),
            r is Failed,
    {
        self.state.goal.error = Some(reason.clone());
        self.state.goal.transition(GoalStatus::Failed);
        self.log("goal.failed", reason.as_str());
        GoalStatus::Failed
    }

    /// Ends the run because a task could not be brought to its end.
    pub fn break_off(&mut self, reason: &str) -> (r: GoalStatus)
        requires
            old(self).wf(),
        ensures
            final(self).wf(),
            final(self).same_run(*old(self)),
            final(self).progress() == (Progress {
                status: GoalStatus::Failed,
                error: Some("预算熔断："@ + reason@),
                ..old(self).progress()
            }),
            old(self).noted(*final(self), seq![("goal.failed"@, "预算熔断："@ + reason@)]),
            r is Failed,
    {
        let mut text = copy_str("预算熔断：");
        text.append(reason);
        self.fail_goal(text)
    }

    /// Gives the goal up: steps that have not ended are marked as such and keep
    /// what is known of them.
    pub fn abort(&mut self)
        requires
            old(self).wf(),
        ensures
            final(self).wf(),
            final(self).same_run(*old(self)),
            final(self).progress() == (Progress {
                status: GoalStatus::Aborted,
                records: settled(old(self).state.records@, StepStatus::Aborted),
                aborted: true,
                ..old(self).progress()
            }),
            old(self).noted(*final(self), seq![("goal.abort"@, "调度器收到 abort 请求"@)]),
    {
        self.state.aborted = true;
        self.mark_remaining(StepStatus::Aborted);
        self.log("goal.abort", "调度器收到 abort 请求");
        self.state.goal.transition(GoalStatus::Aborted);
    }

    /// Begins the run. Returns how it ended where there is nothing to run: the
    /// goal has ended before, or was given up.
    pub fn start(&mut self) -> (r: Option<GoalStatus>)
        requires
            old(self).wf(),
        ensures
            final(self).wf(),
            r matches Some(s) ==> s.terminal(),
            if old(self).state.goal.status.terminal() {
                r == Some(old(self).state.goal.status) && *final(self) == *old(self)
            } else if old(self).state.aborted {
                r == Some(GoalStatus::Aborted) && *final(self) == *old(self)
            } else {
                &&& r is None
                &&& final(self).same_run(*old(self))
                &&& final(self).progress() == (Progress { status: GoalStatus::Running, ..old(self).progress() })
                &&& old(self).noted(
                    *final(self),
                    seq![("goal.start"@, "目标 "@ + old(self).state.goal.objective@)],
                )
            },
    {
        if self.state.goal.status.is_terminal() {
            return Some(self.state.goal.status);
        }
        if self.state.aborted {
            return Some(GoalStatus::Aborted);
        }
        self.state.goal.transition(GoalStatus::Running);
        let mut detail = copy_str("目标 ");
        detail.append(self.state.goal.objective.as_str());
        self.log("goal.start", detail.as_str());
        None
    }

    /// Why the run may not go on: a limit of the budget is reached.
    pub open spec fn budget_stop(self, elapsed_secs: u64) -> Option<Seq<char>> {
        let b = self.state.goal.budget;
        if b.max_duration_secs > 0 && elapsed_secs >= b.max_duration_secs {
            Some("预算熔断：执行时长超过 "@ + decimal(b.max_duration_secs as nat) + "s"@)
        } else if self.state.steps_taken >= b.max_steps {
            Some(
                "预算熔断：步骤数超过 "@ + decimal(b.max_steps as nat) + "（steps_taken="@ + decimal(
                    self.state.steps_taken as nat,
                ) + "）"@,
            )
        } else if self.state.total_retries >= b.max_total_retries {
            Some(
                "预算熔断：全局重试次数超过 "@ + decimal(b.max_total_retries as nat) + "（total_retries="@ + decimal(
                    self.state.total_retries as nat,
                ) + "）"@,
            )
        } else {
            None
        }
    }

    fn budget_reason(&self, elapsed_secs: u64) -> (r: Option<String>)
        ensures
            match r {
                Some(s) => self.budget_stop(elapsed_secs) == Some(s@),
                None => self.budget_stop(elapsed_secs) is None,
            },
    {
        let b = self.state.goal.budget;
        if b.max_duration_secs > 0 && elapsed_secs >= b.max_duration_secs {
            let mut s = copy_str("预算熔断：执行时长超过 ");
            let n = decimal_text(b.max_duration_secs);
            s.append(n.as_str());
            s.append("s");
            Some(s)
        } else if self.state.steps_taken >= b.max_steps {
            let mut s = copy_str("预算熔断：步骤数超过 ");
            let n = decimal_text(b.max_steps as u64);
            s.append(n.as_str());
            s.append("（steps_taken=");
            let m = decimal_text(self.state.steps_taken as u64);
            s.append(m.as_str());
            s.append("）");
            Some(s)
        } else if self.state.total_retries >= b.max_total_retries {
            let mut s = copy_str("预算熔断：全局重试次数超过 ");
            let n = decimal_text(b.max_total_retries as u64);
            s.append(n.as_str());
            s.append("（total_retries=");
            let m = decimal_text(self.state.total_retries as u64);
            s.append(m.as_str());
            s.append("）");
            Some(s)
        } else {
            None
        }
    }

    /// Whether all that the step depends on has succeeded.
    fn deps_succeeded(&self, step: &StepSpec) -> (r: bool)
        requires
            self.wf(),
        ensures
            r == needs_met(self.state.records@, *step),
    {
        for j in 0..step.depends_on.len()
            invariant
                self.wf(),
                forall|l: int|
                    0 <= l < j ==> self.state.records@.contains_key((#[trigger] step.depends_on@[l])@)
                        && self.state.records@[step.depends_on@[l]@].status is Succeeded,
        {
            let met = match self.state.records.get(step.depends_on[j].as_str()) {
                Some(r) => r.status == StepStatus::Succeeded,
                None => false,
            };
            if !met {
                assert(!(self.state.records@.contains_key(step.depends_on@[j as int]@)
                    && self.state.records@[step.depends_on@[j as int]@].status is Succeeded));
                return false;
            }
        }
        true
    }

    fn status_of(&self, id: &str) -> (r: StepStatus)
        requires
            self.wf(),
            self.state.records@.contains_key(id@),
        ensures
            r == self.state.records@[id@].status,
    {
        match self.state.records.get(id) {
            Some(r) => r.status,
            None => StepStatus::Pending,
        }
    }

    fn ready(&self) -> (r: Vec<usize>)
        requires
            self.wf(),
        ensures
            r@ == ready_steps(self.state.plan.steps@, self.state.records@, self.state.plan.steps@.len() as int),
    {
        let mut r: Vec<usize> = Vec::new();
        for i in 0..self.state.plan.steps.len()
            invariant
                self.wf(),
                r@ == ready_steps(self.state.plan.steps@, self.state.records@, i as int),
        {
            let step = &self.state.plan.steps[i];
            assert(self.state.records@.contains_key(self.state.plan.steps@[i as int].id@));
            if self.status_of(step.id.as_str()).can_resume() && self.deps_succeeded(step) {
                r.push(i);
            }
        }
        r
    }

    fn is_done(&self) -> (r: bool)
        requires
            self.wf(),
        ensures
            r == all_done(self.state.plan.steps@, self.state.records@),
    {
        for i in 0..self.state.plan.steps.len()
            invariant
                self.wf(),
                forall|j: int|
                    0 <= j < i ==> self.state.records@[(#[trigger] self.state.plan.steps@[j]).id@].status is Succeeded,
        {
            assert(self.state.records@.contains_key(self.state.plan.steps@[i as int].id@));
            if self.status_of(self.state.plan.steps[i].id.as_str()) != StepStatus::Succeeded {
                return false;
            }
        }
        true
    }

    /// How a run that has no step to run ends.
    pub open spec fn stuck_reason(self) -> Seq<char> {
        if self.state.replan_count >= self.state.goal.budget.max_replans {
            "replan 次数超限，未完成步骤无法恢复"@
        } else {
            "死锁：存在未完成步骤但无就绪步骤"@
        }
    }

    /// Begins a wave: ends the run where it was given up, where the budget is
    /// used up or where nothing can run; else says what is to be done.
    pub fn begin_wave(&mut self, elapsed_secs: u64) -> (r: Wave)
        requires
            old(self).wf(),
        ensures
            final(self).wf(),
            final(self).same_run(*old(self)),
            r matches Wave::End(s) ==> s.terminal() && !(s is Succeeded) && s == final(self).state.goal.status,
            r is Verify ==> all_done(final(self).state.plan.steps@, final(self).state.records@),
            ({
                let before = old(self).progress();
                let after = final(self).progress();
                let steps = old(self).state.plan.steps@;
                let ready = ready_steps(steps, before.records, steps.len() as int);
                if old(self).state.aborted {
                    &&& r == Wave::End(GoalStatus::Aborted)
                    &&& after == (Progress {
                        status: GoalStatus::Aborted,
                        records: settled(before.records, StepStatus::Aborted),
                        ..before
                    })
                    &&& old(self).noted(*final(self), seq![])
                } else {
                    match old(self).budget_stop(elapsed_secs) {
                        Some(reason) => {
                            &&& r == Wave::End(GoalStatus::Failed)
                            &&& after == (Progress { status: GoalStatus::Failed, error: Some(reason), ..before })
                            &&& old(self).noted(*final(self), seq![("goal.failed"@, reason)])
                        },
                        None => if ready.len() > 0 {
                            (r matches Wave::Run(v) && v@ == ready) && *final(self) == *old(self)
                        } else if all_done(steps, before.records) {
                            r is Verify && *final(self) == *old(self)
                        } else {
                            &&& r == Wave::End(GoalStatus::Failed)
                            &&& after == (Progress {
                                status: GoalStatus::Failed,
                                error: Some(old(self).stuck_reason()),
                                ..before
                            })
                            &&& old(self).noted(*final(self), seq![("goal.failed"@, old(self).stuck_reason())])
                        },
                    }
                }
            }),
    {
        let ghost before = *self;
        if self.state.aborted {
            self.mark_remaining(StepStatus::Aborted);
            self.state.goal.transition(GoalStatus::Aborted);
            proof {
                nothing_noted(before, *self);
            }
            return Wave::End(GoalStatus::Aborted);
        }
        match self.budget_reason(elapsed_secs) {
            Some(reason) => {
                return Wave::End(self.fail_goal(reason));
            },
            None => {},
        }
        let ready = self.ready();
        if ready.len() == 0 {
            if self.is_done() {
                return Wave::Verify;
            }
            if self.state.replan_count >= self.state.goal.budget.max_replans {
                return Wave::End(self.fail_goal(copy_str("replan 次数超限，未完成步骤无法恢复")));
            }
            return Wave::End(self.fail_goal(copy_str("死锁：存在未完成步骤但无就绪步骤")));
        }
        Wave::Run(ready)
    }

    /// Notes that the step at position `i` of the plan starts.
    pub fn step_started(&mut self, i: usize)
        requires
            old(self).wf(),
            i < old(self).state.plan.steps@.len(),
        ensures
            final(self).wf(),
            final(self).same_run(*old(self)),
            final(self).progress() == old(self).progress(),
            ({
                let step = old(self).state.plan.steps@[i as int];
                old(self).noted(
                    *final(self),
                    seq![("goal.step.start"@, "步骤 "@ + step.id@ + "（worker "@ + step.worker@ + "）"@)],
                )
            }),
    {
        let mut detail = copy_str("步骤 ");
        detail.append(self.state.plan.steps[i].id.as_str());
        detail.append("（worker ");
        detail.append(self.state.plan.steps[i].worker.as_str());
        detail.append("）");
        self.log("goal.step.start", detail.as_str());
    }

    fn set_record(&mut self, id: &str, record: StepRecord)
        requires
            old(self).wf(),
            old(self).state.records@.contains_key(id@),
        ensures
            final(self).wf(),
            final(self).state.records@ == old(self).state.records@.insert(id@, record),
            final(self).state == (GoalRunState { records: final(self).state.records, ..old(self).state }),
            final(self).config == old(self).config,
            final(self).audit == old(self).audit,
    {
        let ghost before = *self;
        match self.state.records.find(id) {
            Some(i) => {
                self.state.records.set_value(i, record);
                proof {
                    same_keys_stay_sound(before.state.records, self.state.records);
                    assert(self.state.records@.dom() =~= before.state.records@.dom());
                }
            },
            None => {},
        }
    }

    /// Takes in what came of a step. Steps that failed are added to `failed`.
    /// A task that broke off, is gone or met its limit is reported as an error.
    pub fn merge_step_outcome(&mut self, joined: JoinedStep, failed: &mut Vec<String>) -> (r: Result<(), String>)
        requires
            old(self).wf(),
            joined matches JoinedStep::Done(o) ==> old(self).state.records@.contains_key(o.step_id@),
        ensures
            final(self).wf(),
            final(self).same_run(*old(self)),
            match joined {
                JoinedStep::Panicked(e) => {
                    &&& r matches Err(s) && s@ == "步骤任务 panic："@ + e@
                    &&& *final(self) == *old(self)
                    &&& final(failed)@ == old(failed)@
                },
                JoinedStep::Lost => {
                    &&& r matches Err(s) && s@ == "步骤任务丢失"@
                    &&& *final(self) == *old(self)
                    &&& final(failed)@ == old(failed)@
                },
                JoinedStep::Done(o) => {
                    let before = old(self).progress();
                    let id = o.step_id@;
                    &&& final(self).progress() == (Progress {
                        records: with_outcome(before.records, o),
                        steps_taken: capped_sum(before.steps_taken, o.attempts),
                        total_retries: capped_sum(before.total_retries, retries_in(o.attempts)),
                        ..before
                    })
                    &&& match o.result {
                        StepResult::Passed { .. } => {
                            &&& r is Ok
                            &&& old(self).noted(
                                *final(self),
                                seq![
                                    (
                                        "goal.step.succeeded"@,
                                        "步骤 "@ + id + " 通过（"@ + decimal(o.attempts as nat) + " 次尝试）"@,
                                    ),
                                ],
                            )
                            &&& final(failed)@ == old(failed)@
                        },
                        StepResult::Retried { error } => {
                            &&& r is Ok
                            &&& old(self).noted(
                                *final(self),
                                seq![("goal.step.failed"@, "步骤 "@ + id + " 失败："@ + error@)],
                            )
                            &&& texts(final(failed)@) == if step_index(old(self).state.plan.steps@, id, 0) is Some {
                                texts(old(failed)@).push(id)
                            } else {
                                texts(old(failed)@)
                            }
                        },
                        StepResult::Budget { reason } => {
                            &&& r == Err::<(), String>(reason)
                            &&& old(self).noted(*final(self), seq![])
                            &&& final(failed)@ == old(failed)@
                        },
                    }
                },
            },
    {
        let ghost before = *self;
        match joined {
            JoinedStep::Panicked(e) => {
                let mut s = copy_str("步骤任务 panic：");
                s.append(e.as_str());
                Err(s)
            },
            JoinedStep::Lost => Err(copy_str("步骤任务丢失")),
            JoinedStep::Done(o) => {
                let retries: u32 = if o.attempts == 0 {
                    0
                } else {
                    o.attempts - 1
                };
                self.state.steps_taken = capped(self.state.steps_taken, o.attempts);
                self.state.total_retries = capped(self.state.total_retries, retries);
                match o.result {
                    StepResult::Passed { output } => {
                        let record = StepRecord {
                            step_id: self.step_id_of(o.step_id.as_str()),
                            status: StepStatus::Succeeded,
                            attempts: o.attempts,
                            output: Some(output),
                            error: None,
                        };
                        self.set_record(o.step_id.as_str(), record);
                        let mut detail = copy_str("步骤 ");
                        detail.append(o.step_id.as_str());
                        detail.append(" 通过（");
                        let n = decimal_text(o.attempts as u64);
                        detail.append(n.as_str());
                        detail.append(" 次尝试）");
                        self.log("goal.step.succeeded", detail.as_str());
                        Ok(())
                    },
                    StepResult::Retried { error } => {
                        let mut detail = copy_str("步骤 ");
                        detail.append(o.step_id.as_str());
                        detail.append(" 失败：");
                        detail.append(error.as_str());
                        let record = StepRecord {
                            step_id: self.step_id_of(o.step_id.as_str()),
                            status: StepStatus::Failed,
                            attempts: o.attempts,
                            output: self.output_of(o.step_id.as_str()),
                            error: Some(error),
                        };
                        self.set_record(o.step_id.as_str(), record);
                        self.log("goal.step.failed", detail.as_str());
                        let ghost failed0 = failed@;
                        if self.state.plan.find(o.step_id.as_str()).is_some() {
                            failed.push(o.step_id);
                            assert(texts(failed@) =~= texts(failed0).push(o.step_id@));
                        }
                        Ok(())
                    },
                    StepResult::Budget { reason } => {
                        proof {
                            nothing_noted(before, *self);
                        }
                        Err(reason)
                    },
                }
            },
        }
    }

    fn step_id_of(&self, id: &str) -> (r: String)
        requires
            self.wf(),
            self.state.records@.contains_key(id@),
        ensures
            r == self.state.records@[id@].step_id,
    {
        match self.state.records.get(id) {
            Some(rec) => rec.step_id.clone(),
            None => String::new(),
        }
    }

    fn output_of(&self, id: &str) -> (r: Option<String>)
        requires
            self.wf(),
            self.state.records@.contains_key(id@),
        ensures
            r == self.state.records@[id@].output,
    {
        match self.state.records.get(id) {
            Some(rec) => match &rec.output {
                Some(o) => Some(o.clone()),
                None => None,
            },
            None => None,
        }
    }

    /// Whether the step named `k` is tried again after `failed` failed.
    fn to_be_reset(&self, k: &str, failed: &Vec<String>) -> (r: bool)
        requires
            self.wf(),
            self.state.records@.contains_key(k@),
        ensures
            r == tried_again(self.state.plan.steps@, self.state.records@, texts(failed@), k@),
    {
        if contains_string(failed, k) {
            return true;
        }
        if self.status_of(k) == StepStatus::Succeeded {
            return false;
        }
        for i in 0..self.state.plan.steps.len()
            invariant
                self.wf(),
                self.state.records@.contains_key(k@),
                !(self.state.records@[k@].status is Succeeded),
                forall|j: int|
                    0 <= j < i ==> !((#[trigger] self.state.plan.steps@[j]).id@ == k@ && needs_any(
                        self.state.plan.steps@,
                        texts(self.state.plan.steps@[j].depends_on@),
                        texts(failed@),
                    )),
        {
            let step = &self.state.plan.steps[i];
            if crate::text::same_text(step.id.as_str(), k) && depends_on_any(&self.state.plan, &step.depends_on, failed) {
                assert(self.state.plan.steps@[i as int].id@ == k@);
                return true;
            }
        }
        false
    }

    /// Sets the plan up again: the steps `failed` and whatever depends on them
    /// and has not succeeded are to be run again.
    fn replan(&mut self, failed: &Vec<String>)
        requires
            old(self).wf(),
            old(self).state.replan_count < u32::MAX,
        ensures
            final(self).wf(),
            final(self).same_run(*old(self)),
            ({
                let before = old(self).progress();
                &&& final(self).progress() == (Progress {
                    replan_count: (before.replan_count + 1) as u32,
                    records: replanned(old(self).state.plan.steps@, before.records, texts(failed@)),
                    ..before
                })
                &&& old(self).noted(
                    *final(self),
                    seq![
                        (
                            "goal.replan"@,
                            "第 "@ + decimal((before.replan_count + 1) as nat) + " 次 replan：重置 "@ + joined(
                                texts(failed@),
                                ", "@,
                            ),
                        ),
                    ],
                )
            }),
    {
        let ghost before = *self;
        self.state.replan_count = self.state.replan_count + 1;
        let mut detail = copy_str("第 ");
        let n = decimal_text(self.state.replan_count as u64);
        detail.append(n.as_str());
        detail.append(" 次 replan：重置 ");
        let list = join(failed, ", ");
        detail.append(list.as_str());
        self.log("goal.replan", detail.as_str());
        let ghost logged = *self;
        let ghost start = before.state.records;
        let ghost steps = before.state.plan.steps@;
        let mut marks: Vec<bool> = Vec::new();
        for i in 0..self.state.records.entries.len()
            invariant
                *self == logged,
                logged.wf(),
                start == logged.state.records,
                steps == logged.state.plan.steps@,
                marks@.len() == i,
                forall|j: int|
                    0 <= j < i ==> #[trigger] marks@[j] == tried_again(steps, start@, texts(failed@), start.entries@[j].0@),
        {
            proof {
                start.entry_is_value(i as int);
            }
            let again = self.to_be_reset(self.state.records.entries[i].0.as_str(), failed);
            marks.push(again);
        }
        let mut i: usize = 0;
        while i < self.state.records.entries.len()
            invariant
                logged.wf(),
                start == logged.state.records,
                self.state == (GoalRunState { records: self.state.records, ..logged.state }),
                self.config == logged.config,
                self.audit == logged.audit,
                self.state.records.wf(),
                self.state.records.sorted(),
                self.state.records.keys() == start.keys(),
                self.state.records.entries@.len() == start.entries@.len(),
                marks@.len() == start.entries@.len(),
                i <= start.entries@.len(),
                forall|j: int|
                    0 <= j < start.entries@.len() ==> #[trigger] marks@[j] == tried_again(
                        steps,
                        start@,
                        texts(failed@),
                        start.entries@[j].0@,
                    ),
                forall|j: int|
                    0 <= j < start.entries@.len() ==> (#[trigger] self.state.records.entries@[j]).1 == (if j < i
                        && marks@[j] {
                        reset_record(start.entries@[j].1)
                    } else {
                        start.entries@[j].1
                    }),
            decreases start.entries@.len() - i,
        {
            let ghost mid = *self;
            if marks[i] {
                let e = &mut self.state.records.entries[i];
                e.1.status = StepStatus::Pending;
                e.1.error = None;
                e.1.attempts = 0;
                assert(self.state.records.keys() =~= mid.state.records.keys());
                proof {
                    same_keys_stay_sound(mid.state.records, self.state.records);
                }
            }
            i += 1;
        }
        proof {
            let now = self.state.records;
            same_keys_stay_sound(start, now);
            let want = replanned(steps, start@, texts(failed@));
            assert forall|k: Seq<char>| #[trigger] now@.contains_key(k) implies now@[k] == want[k] by {
                now.slot_of_key(k);
                start.slot_of_key(k);
                assert(marks@[start.slot(k)] == tried_again(steps, start@, texts(failed@), k));
            }
            assert(now@ =~= want);
        }
    }

    /// Ends a wave after which the steps `failed` have failed. Returns how the
    /// run ended, or nothing where the next wave begins.
    pub fn end_wave(&mut self, failed: &Vec<String>) -> (r: Option<GoalStatus>)
        requires
            old(self).wf(),
        ensures
            final(self).wf(),
            final(self).same_run(*old(self)),
            r matches Some(s) ==> s.terminal() && !(s is Succeeded) && s == final(self).state.goal.status,
            ({
                let before = old(self).progress();
                let after = final(self).progress();
                let budget = old(self).state.goal.budget;
                let names = debug_list(texts(failed@));
                if old(self).state.aborted {
                    &&& r == Some(GoalStatus::Aborted)
                    &&& after == (Progress {
                        status: GoalStatus::Aborted,
                        records: settled(before.records, StepStatus::Aborted),
                        ..before
                    })
                    &&& old(self).noted(*final(self), seq![])
                } else if failed@.len() == 0 {
                    r is None && *final(self) == *old(self)
                } else if !old(self).config.allow_replan {
                    let reason = "步骤失败且 replan 未启用："@ + names;
                    &&& r == Some(GoalStatus::Failed)
                    &&& after == (Progress { status: GoalStatus::Failed, error: Some(reason), ..before })
                    &&& old(self).noted(*final(self), seq![("goal.failed"@, reason)])
                } else if before.replan_count >= budget.max_replans {
                    let reason = "步骤失败且 replan 次数超限（"@ + decimal(budget.max_replans as nat) + "）："@ + names;
                    &&& r == Some(GoalStatus::Failed)
                    &&& after == (Progress { status: GoalStatus::Failed, error: Some(reason), ..before })
                    &&& old(self).noted(*final(self), seq![("goal.failed"@, reason)])
                } else {
                    &&& r is None
                    &&& after == (Progress {
                        replan_count: (before.replan_count + 1) as u32,
                        records: replanned(old(self).state.plan.steps@, before.records, texts(failed@)),
                        ..before
                    })
                    &&& old(self).noted(
                        *final(self),
                        seq![
                            (
                                "goal.replan"@,
                                "第 "@ + decimal((before.replan_count + 1) as nat) + " 次 replan：重置 "@ + joined(
                                    texts(failed@),
                                    ", "@,
                                ),
                            ),
                        ],
                    )
                }
            }),
    {
        let ghost before = *self;
        if self.state.aborted {
            self.mark_remaining(StepStatus::Aborted);
            self.state.goal.transition(GoalStatus::Aborted);
            proof {
                nothing_noted(before, *self);
            }
            return Some(GoalStatus::Aborted);
        }
        if failed.len() == 0 {
            return None;
        }
        let names = debug_strings(failed);
        if !self.config.allow_replan {
            let mut reason = copy_str("步骤失败且 replan 未启用：");
            reason.append(names.as_str());
            return Some(self.fail_goal(reason));
        }
        if self.state.replan_count >= self.state.goal.budget.max_replans {
            let mut reason = copy_str("步骤失败且 replan 次数超限（");
            let n = decimal_text(self.state.goal.budget.max_replans as u64);
            reason.append(n.as_str());
            reason.append("）：");
            reason.append(names.as_str());
            return Some(self.fail_goal(reason));
        }
        self.replan(failed);
        None
    }

    /// What the conditions of the goal are checked against: the outputs of the
    /// steps that succeeded, line by line, in the order of the steps' names.
    pub fn acceptance_summary(&self) -> (r: String)
        ensures
            r@ == joined(outputs(self.state.records.entries@), "\n"@),
    {
        let mut parts: Vec<String> = Vec::new();
        let ghost all = self.state.records.entries@;
        for i in 0..self.state.records.entries.len()
            invariant
                all == self.state.records.entries@,
                texts(parts@) == outputs(all.take(i as int)),
        {
            let ghost parts0 = parts@;
            assert(all.take(i + 1).drop_last() =~= all.take(i as int));
            let record = &self.state.records.entries[i].1;
            if record.status == StepStatus::Succeeded {
                match &record.output {
                    Some(o) => {
                        parts.push(o.clone());
                        assert(texts(parts@) =~= texts(parts0).push(o@));
                    },
                    None => {},
                }
            }
        }
        assert(all.take(all.len() as int) =~= all);
        join(&parts, "\n")
    }

    /// Ends the run once every step has succeeded. `verdicts` says of each
    /// condition of the goal whether the summary meets it; the first that is not
    /// met makes the goal fail.
    pub fn verify_goal(&mut self, verdicts: &Vec<Result<(), String>>) -> (r: GoalStatus)
        requires
            old(self).wf(),
            all_done(old(self).state.plan.steps@, old(self).state.records@),
            verdicts@.len() == old(self).state.goal.acceptance@.len(),
        ensures
            final(self).wf(),
            final(self).same_run(*old(self)),
            r is Succeeded ==> all_done(final(self).state.plan.steps@, final(self).state.records@) && forall|i: int|
                0 <= i < verdicts@.len() ==> (#[trigger] verdicts@[i]) is Ok,
            judged(old(self).progress(), final(self).progress(), verdicts@),
            r == final(self).state.goal.status,
            ({
                let checking = ("goal.verifying"@, "全部步骤成功，进入目标验收"@);
                match first_refusal(verdicts@, 0) {
                    Some(e) => old(self).noted(
                        *final(self),
                        seq![checking, ("goal.failed"@, "目标验收失败："@ + e)],
                    ),
                    None => old(self).noted(*final(self), seq![checking, ("goal.succeeded"@, "目标验收通过"@)]),
                }
            }),
    {
        let ghost before = *self;
        self.state.goal.transition(GoalStatus::Verifying);
        self.log("goal.verifying", "全部步骤成功，进入目标验收");
        let ghost mid = *self;
        let ghost checking = ("goal.verifying"@, "全部步骤成功，进入目标验收"@);
        let mut i: usize = 0;
        while i < verdicts.len()
            invariant
                *self == mid,
                mid.wf(),
                mid.same_run(before),
                mid.progress() == (Progress { status: GoalStatus::Verifying, ..before.progress() }),
                before == *old(self),
                checking == ("goal.verifying"@, "全部步骤成功，进入目标验收"@),
                before.noted(mid, seq![checking]),
                i <= verdicts@.len(),
                first_refusal(verdicts@, 0) == first_refusal(verdicts@, i as int),
            decreases verdicts@.len() - i,
        {
            match &verdicts[i] {
                Err(e) => {
                    let mut reason = copy_str("目标验收失败：");
                    reason.append(e.as_str());
                    let ghost text = reason@;
                    let r = self.fail_goal(reason);
                    proof {
                        noted_in_turn(before, mid, *self, checking, ("goal.failed"@, text));
                    }
                    return r;
                },
                Ok(_) => {},
            }
            i += 1;
        }
        self.state.goal.transition(GoalStatus::Succeeded);
        self.log("goal.succeeded", "目标验收通过");
        proof {
            accepted_iff_all_met(verdicts@, 0);
            noted_in_turn(before, mid, *self, checking, ("goal.succeeded"@, "目标验收通过"@));
        }
        GoalStatus::Succeeded
    }
}

// ---------------------------------------------------------------------------
// The attempts at one step
// ---------------------------------------------------------------------------

/// The retries that a step gets: those it asks for, at most those that the
/// budget grants to one step.
pub open spec fn granted_retries(step: StepSpec, budget: GoalBudget) -> u32 {
    if step.retries < budget.max_retries_per_step {
        step.retries
    } else {
        budget.max_retries_per_step
    }
}

/// The attempts at one step so far.
pub struct StepAttempts {
    pub step_id: String,
    pub retries: u32,
    pub max_steps: u32,
    pub has_check: bool,
    pub attempts: u32,
}

/// What follows an attempt.
pub enum AfterAttempt {
    /// Another attempt.
    Again,
    /// The check of the output.
    Check(String),
    /// The end.
    End(StepOutcome),
}

/// The attempts ended with this error.
pub open spec fn gave_up(a: AfterAttempt, id: Seq<char>, attempts: u32, error: Seq<char>) -> bool {
    a matches AfterAttempt::End(o) && o.step_id@ == id && o.attempts == attempts && (o.result matches StepResult::Retried {
        error: e,
    } && e@ == error)
}

/// The attempts ended with this output.
pub open spec fn passed(a: AfterAttempt, id: Seq<char>, attempts: u32, output: Seq<char>) -> bool {
    a matches AfterAttempt::End(o) && o.step_id@ == id && o.attempts == attempts && (o.result matches StepResult::Passed {
        output: t,
    } && t@ == output)
}

impl StepAttempts {
    /// Never more attempts than one and the retries.
    pub open spec fn wf(self) -> bool {
        self.attempts <= self.retries + 1
    }

    /// Begins the attempts at a step; a step whose worker is not known fails at once.
    pub fn begin(step: &StepSpec, budget: GoalBudget, worker_known: bool) -> (r: Result<StepAttempts, StepOutcome>)
        ensures
            match r {
                Ok(a) => worker_known && a.wf() && a.step_id@ == step.id@ && a.retries == granted_retries(*step, budget)
                    && a.max_steps == budget.max_steps && a.has_check == (step.verify is Some) && a.attempts == 0,
                Err(o) => !worker_known && gave_up(
                    AfterAttempt::End(o),
                    step.id@,
                    0,
                    "worker 未注册："@ + step.worker@,
                ),
            },
    {
        if !worker_known {
            let mut error = copy_str("worker 未注册：");
            error.append(step.worker.as_str());
            return Err(StepOutcome { step_id: step.id.clone(), attempts: 0, result: StepResult::Retried { error } });
        }
        Ok(
            StepAttempts {
                step_id: step.id.clone(),
                retries: if step.retries < budget.max_retries_per_step {
                    step.retries
                } else {
                    budget.max_retries_per_step
                },
                max_steps: budget.max_steps,
                has_check: step.verify.is_some(),
                attempts: 0,
            },
        )
    }

    /// Begins the next attempt, unless the run was given up or the limit of
    /// attempts is met; then the attempts end here.
    pub fn next(&mut self, aborted: bool) -> (r: Option<StepOutcome>)
        requires
            old(self).wf(),
            old(self).attempts <= old(self).retries,
        ensures
            final(self).wf(),
            match r {
                None => !aborted && old(self).attempts < old(self).max_steps && *final(self) == (StepAttempts {
                    attempts: (old(self).attempts + 1) as u32,
                    ..*old(self)
                }),
                Some(o) => {
                    &&& *final(self) == *old(self)
                    &&& o.step_id@ == old(self).step_id@
                    &&& o.attempts == old(self).attempts
                    &&& if aborted {
                        o.result matches StepResult::Retried { error } && error@ == "调度器已 abort"@
                    } else {
                        old(self).attempts >= old(self).max_steps && (o.result matches StepResult::Budget { reason }
                            && reason@ == "步骤数超过 "@ + decimal(old(self).max_steps as nat))
                    }
                },
            },
    {
        if aborted {
            return Some(
                StepOutcome {
                    step_id: self.step_id.clone(),
                    attempts: self.attempts,
                    result: StepResult::Retried { error: copy_str("调度器已 abort") },
                },
            );
        }
        if self.attempts >= self.max_steps {
            let mut reason = copy_str("步骤数超过 ");
            let n = decimal_text(self.max_steps as u64);
            reason.append(n.as_str());
            return Some(
                StepOutcome {
                    step_id: self.step_id.clone(),
                    attempts: self.attempts,
                    result: StepResult::Budget { reason },
                },
            );
        }
        self.attempts = self.attempts + 1;
        None
    }

    fn failed_with(&self, error: String) -> (r: AfterAttempt)
        ensures
            if self.attempts > self.retries {
                gave_up(r, self.step_id@, self.attempts, error@)
            } else {
                r is Again
            },
    {
        if self.attempts > self.retries {
            AfterAttempt::End(
                StepOutcome {
                    step_id: self.step_id.clone(),
                    attempts: self.attempts,
                    result: StepResult::Retried { error },
                },
            )
        } else {
            AfterAttempt::Again
        }
    }

    fn passed_with(&self, output: String) -> (r: AfterAttempt)
        ensures
            passed(r, self.step_id@, self.attempts, output@),
    {
        AfterAttempt::End(
            StepOutcome {
                step_id: self.step_id.clone(),
                attempts: self.attempts,
                result: StepResult::Passed { output },
            },
        )
    }

    /// The worker is done: an output is checked where the step asks for it; an
    /// error is final once the retries are used up.
    pub fn worker_done(&self, result: Result<String, String>) -> (r: AfterAttempt)
        requires
            self.wf(),
        ensures
            match result {
                Ok(output) => if self.has_check {
                    r matches AfterAttempt::Check(o) && o@ == output@
                } else {
                    passed(r, self.step_id@, self.attempts, output@)
                },
                Err(e) => if self.attempts > self.retries {
                    gave_up(r, self.step_id@, self.attempts, e@)
                } else {
                    r is Again
                },
            },
    {
        match result {
            Ok(output) => if self.has_check {
                AfterAttempt::Check(output)
            } else {
                self.passed_with(output)
            },
            Err(e) => self.failed_with(e),
        }
    }

    /// The output was checked: one that does not pass counts as an error.
    pub fn output_checked(&self, output: String, verdict: Result<(), String>) -> (r: AfterAttempt)
        requires
            self.wf(),
        ensures
            match verdict {
                Ok(_) => passed(r, self.step_id@, self.attempts, output@),
                Err(e) => if self.attempts > self.retries {
                    gave_up(r, self.step_id@, self.attempts, e@)
                } else {
                    r is Again
                },
            },
    {
        match verdict {
            Ok(_) => self.passed_with(output),
            Err(e) => self.failed_with(e),
        }
    }
}

// ---------------------------------------------------------------------------
// Laws
// ---------------------------------------------------------------------------

/// The steps that run are exactly those of the plan that may still run and have
/// all they depend on: a step that has succeeded is never run again.
pub proof fn ready_steps_are_ready(steps: Seq<StepSpec>, records: Map<Seq<char>, StepRecord>, n: int, i: usize)
    requires
        0 <= n <= steps.len() <= usize::MAX,
    ensures
        ready_steps(steps, records, n).contains(i) <==> i < n && is_ready(records, steps[i as int]),
        ready_steps(steps, records, n).contains(i) ==> !(records[steps[i as int].id@].status is Succeeded),
    decreases n,
{
    if n > 0 {
        ready_steps_are_ready(steps, records, n - 1, i);
        let front = ready_steps(steps, records, n - 1);
        if is_ready(records, steps[n - 1]) {
            let all = front.push((n - 1) as usize);
            if front.contains(i) {
                let j = choose|j: int| 0 <= j < front.len() && front[j] == i;
                assert(all[j] == i);
            }
            if i == n - 1 {
                assert(all[front.len() as int] == i);
            }
            if all.contains(i) {
                let j = choose|j: int| 0 <= j < all.len() && all[j] == i;
                if j < front.len() {
                    assert(front[j] == i);
                }
            }
        }
    }
}

/// Setting a plan up again keeps what has succeeded.
pub proof fn replan_keeps_successes(
    steps: Seq<StepSpec>,
    records: Map<Seq<char>, StepRecord>,
    failed: Seq<Seq<char>>,
    k: Seq<char>,
)
    requires
        records.contains_key(k),
        records[k].status is Succeeded,
        !failed.contains(k),
    ensures
        replanned(steps, records, failed)[k] == records[k],
{
}

/// A step that failed may run again once the plan was set up again.
pub proof fn replan_revives_failures(
    steps: Seq<StepSpec>,
    records: Map<Seq<char>, StepRecord>,
    failed: Seq<Seq<char>>,
    k: Seq<char>,
)
    requires
        records.contains_key(k),
        failed.contains(k),
    ensures
        replanned(steps, records, failed)[k].status is Pending,
        replanned(steps, records, failed)[k].attempts == 0,
        replanned(steps, records, failed)[k].output == records[k].output,
{
}

/// Giving up leaves no step that may still run, and takes nothing from what is
/// known of the steps.
pub proof fn settled_leaves_nothing_open(records: Map<Seq<char>, StepRecord>, k: Seq<char>)
    requires
        records.contains_key(k),
    ensures
        !settled(records, StepStatus::Aborted)[k].status.resumable(),
        settled(records, StepStatus::Aborted)[k].output == records[k].output,
        settled(records, StepStatus::Aborted)[k].error == records[k].error,
        records[k].status is Succeeded ==> settled(records, StepStatus::Aborted)[k] == records[k],
{
}

/// A goal succeeds exactly where every one of its conditions is met.
pub proof fn accepted_iff_all_met(verdicts: Seq<Result<(), String>>, from: int)
    requires
        0 <= from <= verdicts.len(),
    ensures
        first_refusal(verdicts, from) is None <==> forall|i: int|
            from <= i < verdicts.len() ==> (#[trigger] verdicts[i]) is Ok,
    decreases verdicts.len() - from,
{
    if from < verdicts.len() {
        if verdicts[from] is Ok {
            accepted_iff_all_met(verdicts, from + 1);
        }
    }
}

/// A goal that succeeded kept its word: every step of the plan has succeeded and
/// every condition is met.
pub proof fn success_means_done_and_met(
    steps: Seq<StepSpec>,
    before: Progress,
    after: Progress,
    verdicts: Seq<Result<(), String>>,
)
    requires
        all_done(steps, before.records),
        judged(before, after, verdicts),
    ensures
        after.status is Succeeded || after.status is Failed,
        after.records == before.records,
        all_done(steps, after.records),
        after.status is Succeeded <==> forall|i: int| 0 <= i < verdicts.len() ==> (#[trigger] verdicts[i]) is Ok,
{
    accepted_iff_all_met(verdicts, 0);
}

/// What came of the steps of a wave, and the steps that failed in it.
pub struct WaveOutcome {
    pub outcomes: Seq<StepOutcome>,
    pub failed: Seq<Seq<char>>,
}

/// The records once outcomes were taken in, one after the other.
pub open spec fn with_outcomes(records: Map<Seq<char>, StepRecord>, os: Seq<StepOutcome>) -> Map<Seq<char>, StepRecord>
    decreases os.len(),
{
    if os.len() == 0 {
        records
    } else {
        with_outcome(with_outcomes(records, os.drop_last()), os.last())
    }
}

/// The step named `k` is one that can run now.
pub open spec fn ready_name(steps: Seq<StepSpec>, records: Map<Seq<char>, StepRecord>, k: Seq<char>) -> bool {
    exists|i: int| 0 <= i < steps.len() && (#[trigger] steps[i]).id@ == k && is_ready(records, steps[i])
}

/// In the wave only steps ran that could, and only such failed.
pub open spec fn ran_only_ready(steps: Seq<StepSpec>, records: Map<Seq<char>, StepRecord>, w: WaveOutcome) -> bool {
    &&& forall|i: int| 0 <= i < w.outcomes.len() ==> ready_name(steps, records, (#[trigger] w.outcomes[i]).step_id@)
    &&& forall|i: int| 0 <= i < w.failed.len() ==> ready_name(steps, records, #[trigger] w.failed[i])
}

/// The records behind a wave: where steps failed, the plan was set up again.
pub open spec fn after_wave(
    steps: Seq<StepSpec>,
    records: Map<Seq<char>, StepRecord>,
    w: WaveOutcome,
) -> Map<Seq<char>, StepRecord> {
    let taken = with_outcomes(records, w.outcomes);
    if w.failed.len() == 0 {
        taken
    } else {
        replanned(steps, taken, w.failed)
    }
}

/// The records behind the waves `ws`.
pub open spec fn after_waves(
    steps: Seq<StepSpec>,
    records: Map<Seq<char>, StepRecord>,
    ws: Seq<WaveOutcome>,
) -> Map<Seq<char>, StepRecord>
    decreases ws.len(),
{
    if ws.len() == 0 {
        records
    } else {
        after_wave(steps, after_waves(steps, records, ws.drop_last()), ws.last())
    }
}

/// In each of the waves `ws` only steps ran that could.
pub open spec fn all_ran_only_ready(
    steps: Seq<StepSpec>,
    records: Map<Seq<char>, StepRecord>,
    ws: Seq<WaveOutcome>,
) -> bool
    decreases ws.len(),
{
    ws.len() > 0 ==> all_ran_only_ready(steps, records, ws.drop_last()) && ran_only_ready(
        steps,
        after_waves(steps, records, ws.drop_last()),
        ws.last(),
    )
}

proof fn outcomes_leave_others(records: Map<Seq<char>, StepRecord>, os: Seq<StepOutcome>, k: Seq<char>)
    requires
        records.contains_key(k),
        forall|i: int| 0 <= i < os.len() ==> (#[trigger] os[i]).step_id@ != k,
    ensures
        with_outcomes(records, os).contains_key(k),
        with_outcomes(records, os)[k] == records[k],
    decreases os.len(),
{
    if os.len() > 0 {
        assert(os[os.len() - 1] == os.last());
        assert forall|i: int| 0 <= i < os.drop_last().len() implies (#[trigger] os.drop_last()[i]).step_id@ != k by {
            assert(os[i].step_id@ != k);
        }
        outcomes_leave_others(records, os.drop_last(), k);
    }
}

/// A step that has succeeded, before the run was taken up or in it, is never run
/// again and keeps its record, however many waves follow.
pub proof fn successes_last(
    steps: Seq<StepSpec>,
    records: Map<Seq<char>, StepRecord>,
    ws: Seq<WaveOutcome>,
    k: Seq<char>,
)
    requires
        records.contains_key(k),
        records[k].status is Succeeded,
        all_ran_only_ready(steps, records, ws),
    ensures
        after_waves(steps, records, ws).contains_key(k),
        after_waves(steps, records, ws)[k] == records[k],
        forall|w: int, i: int|
            0 <= w < ws.len() && 0 <= i < ws[w].outcomes.len() ==> (#[trigger] ws[w].outcomes[i]).step_id@ != k,
    decreases ws.len(),
{
    if ws.len() > 0 {
        let front = ws.drop_last();
        successes_last(steps, records, front, k);
        let now = after_waves(steps, records, front);
        let w = ws.last();
        assert(!ready_name(steps, now, k));
        assert forall|i: int| 0 <= i < w.outcomes.len() implies (#[trigger] w.outcomes[i]).step_id@ != k by {
            assert(ready_name(steps, now, w.outcomes[i].step_id@));
        }
        outcomes_leave_others(now, w.outcomes, k);
        assert(!w.failed.contains(k)) by {
            if w.failed.contains(k) {
                let i = choose|i: int| 0 <= i < w.failed.len() && w.failed[i] == k;
                assert(ready_name(steps, now, w.failed[i]));
            }
        }
        assert forall|v: int, i: int| 0 <= v < ws.len() && 0 <= i < ws[v].outcomes.len() implies (#[trigger] ws[v].outcomes[i]).step_id@
            != k by {
            if v < front.len() {
                assert(front[v] == ws[v]);
                assert(front[v].outcomes[i].step_id@ != k);
            } else {
                assert(ws[v] == w);
            }
        }
    }
}

/// The first refusal among verdicts, from position `from` on.
pub open spec fn first_refusal(verdicts: Seq<Result<(), String>>, from: int) -> Option<Seq<char>>
    decreases verdicts.len() - from,
{
    if from < 0 || from >= verdicts.len() {
        None
    } else {
        match verdicts[from] {
            Err(e) => Some(e@),
            Ok(_) => first_refusal(verdicts, from + 1),
        }
    }
}

proof fn nothing_noted(a: GoalRunner, b: GoalRunner)
    requires
        a.state.events == b.state.events,
        a.audit == b.audit,
    ensures
        a.noted(b, seq![]),
{
    let none: Seq<Event> = seq![];
    assert(event_lines(none) =~= seq![]);
    assert(audit_lines(a.state.goal.id@, a.state.plan.goal_id@, none) =~= seq![]);
    assert(texts(a.state.events@) + event_lines(none) =~= texts(a.state.events@));
    if a.audit is Some {
        assert(a.audit->0@ + audit_lines(a.state.goal.id@, a.state.plan.goal_id@, none) =~= a.audit->0@);
    }
}

proof fn noted_in_turn(a: GoalRunner, b: GoalRunner, c: GoalRunner, e: Event, f: Event)
    requires
        a.noted(b, seq![e]),
        b.noted(c, seq![f]),
        b.same_run(a),
    ensures
        a.noted(c, seq![e, f]),
{
    assert(event_lines(seq![e]) + event_lines(seq![f]) =~= event_lines(seq![e, f]));
    assert(texts(c.state.events@) =~= texts(a.state.events@) + event_lines(seq![e, f]));
    let goal = a.state.goal.id@;
    let plan_goal = a.state.plan.goal_id@;
    assert(audit_lines(goal, plan_goal, seq![e]) + audit_lines(goal, plan_goal, seq![f]) =~= audit_lines(
        goal,
        plan_goal,
        seq![e, f],
    ));
    if a.audit is Some {
        assert(c.audit->0@ =~= a.audit->0@ + audit_lines(goal, plan_goal, seq![e, f]));
    }
}

/// A table with the keys of a sorted table, in the same places, is sorted too.
proof fn same_keys_stay_sound<V>(a: Table<V>, b: Table<V>)
    requires
        a.wf(),
        a.sorted(),
        b.keys() == a.keys(),
    ensures
        b.wf(),
        b.sorted(),
        b@.dom() == a@.dom(),
        b.entries@.len() == a.entries@.len(),
{
    assert(b.keys().len() == b.entries@.len());
    assert(a.keys().len() == a.entries@.len());
    assert forall|i: int| 0 <= i < a.entries@.len() implies (#[trigger] b.entries@[i]).0@ == a.entries@[i].0@ by {
        assert(b.keys()[i] == a.keys()[i]);
    }
    assert forall|i: int, j: int| 0 <= i < j < b.entries@.len() implies #[trigger] b.entries@[i].0@ != #[trigger] b.entries@[j].0@ by {
        assert(a.entries@[i].0@ != a.entries@[j].0@);
    }
    assert forall|i: int, j: int| 0 <= i < j < b.entries@.len() implies crate::text::text_less(
        #[trigger] b.entries@[i].0@,
        #[trigger] b.entries@[j].0@,
    ) by {
        assert(crate::text::text_less(a.entries@[i].0@, a.entries@[j].0@));
    }
    assert(b@.dom() =~= a@.dom());
}

/// How many of the first `n` steps have not succeeded.
pub open spec fn unfinished(steps: Seq<StepSpec>, records: Map<Seq<char>, StepRecord>, n: int) -> nat
    decreases n,
{
    if n <= 0 {
        0
    } else {
        unfinished(steps, records, n - 1) + if records[steps[n - 1].id@].status is Succeeded {
            0nat
        } else {
            1nat
        }
    }
}

/// A wave ran in which no step failed: those that were ready have succeeded, and
/// so have those that had before.
pub open spec fn all_passed(
    steps: Seq<StepSpec>,
    before: Map<Seq<char>, StepRecord>,
    after: Map<Seq<char>, StepRecord>,
) -> bool {
    forall|i: int|
        0 <= i < steps.len() && (is_ready(before, steps[i]) || before[steps[i].id@].status is Succeeded)
            ==> after[(#[trigger] steps[i]).id@].status is Succeeded
}

proof fn passed_steps_count(
    steps: Seq<StepSpec>,
    before: Map<Seq<char>, StepRecord>,
    after: Map<Seq<char>, StepRecord>,
    n: int,
)
    requires
        0 <= n <= steps.len(),
        all_passed(steps, before, after),
    ensures
        unfinished(steps, after, n) <= unfinished(steps, before, n),
        ready_steps(steps, before, n).len() > 0 ==> unfinished(steps, after, n) < unfinished(steps, before, n),
    decreases n,
{
    if n > 0 {
        passed_steps_count(steps, before, after, n - 1);
        assert(steps[n - 1] == steps[n - 1]);
    }
}

/// Every wave that does not end the run gets on: without a failure fewer steps
/// are left, and with one the plan is set up once more, which it may be only so
/// often. So a run does not go on for ever.
pub proof fn waves_get_on(
    steps: Seq<StepSpec>,
    budget: GoalBudget,
    before: Progress,
    after: Progress,
    failed: bool,
)
    requires
        ready_steps(steps, before.records, steps.len() as int).len() > 0,
        !failed ==> all_passed(steps, before.records, after.records) && after.replan_count == before.replan_count,
        failed ==> before.replan_count < budget.max_replans && after.replan_count == before.replan_count + 1,
    ensures
        decreases_to!(
            budget.max_replans - before.replan_count, unfinished(steps, before.records, steps.len() as int) =>
            budget.max_replans - after.replan_count, unfinished(steps, after.records, steps.len() as int)
        ),
{
    if !failed {
        passed_steps_count(steps, before.records, after.records, steps.len() as int);
    }
}

/// A wave runs a step exactly where it is waiting or under way and every step that
/// it depends on is on record as succeeded; the steps stand in the order of the plan,
/// each once.
pub proof fn waves_run_what_can_run(steps: Seq<StepSpec>, records: Map<Seq<char>, StepRecord>)
    requires
        steps.len() <= usize::MAX,
    ensures
        ({
            let ready = ready_steps(steps, records, steps.len() as int);
            &&& forall|i: int, j: int|
                #![trigger ready.contains(i as usize), steps[i].depends_on@[j]]
                0 <= i < steps.len() && ready.contains(i as usize) && 0 <= j < steps[i].depends_on@.len()
                    ==> records.contains_key(steps[i].depends_on@[j]@) && records[steps[i].depends_on@[j]@].status
                    is Succeeded
            &&& forall|i: int|
                0 <= i < steps.len() && #[trigger] ready.contains(i as usize) ==> records[steps[i].id@].status is Pending
                    || records[steps[i].id@].status is Running
            &&& forall|i: int|
                0 <= i < steps.len() && (records[(#[trigger] steps[i]).id@].status is Pending
                    || records[steps[i].id@].status is Running) && (forall|j: int|
                    0 <= j < steps[i].depends_on@.len() ==> records.contains_key((#[trigger] steps[i].depends_on@[j])@)
                        && records[steps[i].depends_on@[j]@].status is Succeeded) ==> ready.contains(i as usize)
            &&& forall|a: int| 0 <= a < ready.len() ==> (#[trigger] ready[a]) < steps.len()
            &&& forall|a: int, b: int| 0 <= a < b < ready.len() ==> (#[trigger] ready[a]) < (#[trigger] ready[b])
        }),
{
    let n = steps.len() as int;
    let ready = ready_steps(steps, records, n);
    assert forall|i: int, j: int|
        #![trigger ready.contains(i as usize), steps[i].depends_on@[j]]
        0 <= i < steps.len() && ready.contains(i as usize) && 0 <= j < steps[i].depends_on@.len() implies records.contains_key(
        steps[i].depends_on@[j]@,
    ) && records[steps[i].depends_on@[j]@].status is Succeeded by {
        ready_steps_are_ready(steps, records, n, i as usize);
    }
    assert forall|i: int| 0 <= i < steps.len() && #[trigger] ready.contains(i as usize) implies records[steps[i].id@].status
        is Pending || records[steps[i].id@].status is Running by {
        ready_steps_are_ready(steps, records, n, i as usize);
    }
    assert forall|i: int|
        0 <= i < steps.len() && (records[(#[trigger] steps[i]).id@].status is Pending || records[steps[i].id@].status
            is Running) && (forall|j: int|
            0 <= j < steps[i].depends_on@.len() ==> records.contains_key((#[trigger] steps[i].depends_on@[j])@)
                && records[steps[i].depends_on@[j]@].status is Succeeded) implies ready.contains(i as usize) by {
        ready_steps_are_ready(steps, records, n, i as usize);
    }
    ready_in_order(steps, records, n);
}

proof fn ready_in_order(steps: Seq<StepSpec>, records: Map<Seq<char>, StepRecord>, n: int)
    requires
        0 <= n <= steps.len() <= usize::MAX,
    ensures
        forall|a: int|
            0 <= a < ready_steps(steps, records, n).len() ==> (#[trigger] ready_steps(steps, records, n)[a]) < n,
        forall|a: int, b: int|
            0 <= a < b < ready_steps(steps, records, n).len() ==> (#[trigger] ready_steps(steps, records, n)[a]) < (
            #[trigger] ready_steps(steps, records, n)[b]),
    decreases n,
{
    if n > 0 {
        ready_in_order(steps, records, n - 1);
        let front = ready_steps(steps, records, n - 1);
        let all = ready_steps(steps, records, n);
        assert forall|a: int| 0 <= a < all.len() implies (#[trigger] all[a]) < n by {
            if a < front.len() {
                assert(all[a] == front[a]);
            }
        }
        assert forall|a: int, b: int| 0 <= a < b < all.len() implies (#[trigger] all[a]) < (#[trigger] all[b]) by {
            assert(all[a] == front[a]);
            if b < front.len() {
                assert(all[b] == front[b]);
            }
        }
    }
}

/// A plan is done exactly when no step of it is left that has not succeeded.
pub proof fn done_means_every_step(steps: Seq<StepSpec>, records: Map<Seq<char>, StepRecord>)
    ensures
        !all_done(steps, records) <==> exists|i: int|
            0 <= i < steps.len() && !(records[(#[trigger] steps[i]).id@].status is Succeeded),
{
}

/// A run stops for its budget exactly when one of its limits is reached: the time,
/// where there is a limit to it, the attempts or the retries.
pub proof fn budget_stops_at_its_limits(r: GoalRunner, elapsed_secs: u64)
    ensures
        ({
            let b = r.state.goal.budget;
            r.budget_stop(elapsed_secs) is None <==> (b.max_duration_secs == 0 || elapsed_secs < b.max_duration_secs)
                && r.state.steps_taken < b.max_steps && r.state.total_retries < b.max_total_retries
        }),
{
}

/// What came of a step is on its record and on no other: an output makes it succeed,
/// an error makes it fail and leaves the output of before; a limit that was met
/// changes nothing.
pub proof fn outcomes_go_on_their_record(records: Map<Seq<char>, StepRecord>, o: StepOutcome, k: Seq<char>)
    requires
        records.contains_key(o.step_id@),
    ensures
        ({
            let after = with_outcome(records, o);
            let r = after[o.step_id@];
            &&& after.dom() == records.dom()
            &&& k != o.step_id@ && records.contains_key(k) ==> after[k] == records[k]
            &&& o.result matches StepResult::Passed { output } ==> r.status is Succeeded && r.output == Some(output)
                && r.error is None && r.attempts == o.attempts
            &&& o.result matches StepResult::Retried { error } ==> r.status is Failed && r.error == Some(error) && r.output
                == records[o.step_id@].output && r.attempts == o.attempts
            &&& o.result is Budget ==> r == records[o.step_id@]
            &&& r.step_id == records[o.step_id@].step_id
        }),
{
    assert(with_outcome(records, o).dom() =~= records.dom());
}

/// The attempts of a step count as steps, and all but the first as retries; the
/// counts stop at the largest number.
pub proof fn attempts_are_counted(a: u32, attempts: u32)
    ensures
        a + attempts <= u32::MAX ==> capped_sum(a, attempts) == a + attempts,
        a + attempts > u32::MAX ==> capped_sum(a, attempts) == u32::MAX,
        attempts > 0 ==> retries_in(attempts) + 1 == attempts,
        retries_in(0) == 0,
{
}

/// Setting the plan up again resets the steps that failed and every step that has not
/// succeeded and depends on one of them, directly or through others.
pub proof fn replan_resets_what_depends(
    steps: Seq<StepSpec>,
    records: Map<Seq<char>, StepRecord>,
    failed: Seq<Seq<char>>,
    i: int,
    j: int,
)
    requires
        0 <= i < steps.len(),
        records.contains_key(steps[i].id@),
        !(records[steps[i].id@].status is Succeeded),
        0 <= j < steps[i].depends_on@.len(),
        failed.contains(steps[i].depends_on@[j]@) || exists|l: int| #![trigger steps[l]]
            0 <= l < steps.len() && steps[l].id@ == steps[i].depends_on@[j]@ && (forall|b: int|
                0 <= b < l ==> (#[trigger] steps[b]).id@ != steps[l].id@) && needs_any(
                steps,
                texts(steps[l].depends_on@),
                failed,
            ),
    ensures
        ({
            let r = replanned(steps, records, failed)[steps[i].id@];
            r.status is Pending && r.attempts == 0 && r.error is None && r.output == records[steps[i].id@].output
                && r.step_id == records[steps[i].id@].step_id
        }),
        replanned(steps, records, failed).dom() == records.dom(),
{
    let ds = texts(steps[i].depends_on@);
    assert(ds[j] == steps[i].depends_on@[j]@);
    let l = if failed.contains(ds[j]) {
        0
    } else {
        choose|l: int| #![trigger steps[l]]
            0 <= l < steps.len() && steps[l].id@ == steps[i].depends_on@[j]@ && (forall|b: int|
                0 <= b < l ==> (#[trigger] steps[b]).id@ != steps[l].id@) && needs_any(
                steps,
                texts(steps[l].depends_on@),
                failed,
            )
    };
    dependencies_carry_on(steps, ds, failed, j, l);
    assert(needs_any(steps, texts(steps[i].depends_on@), failed));
    assert(tried_again(steps, records, failed, steps[i].id@));
    assert(replanned(steps, records, failed).dom() =~= records.dom());
}

/// Setting the plan up again leaves alone what the failures do not touch: a part of
/// the plan whose steps depend only on each other, and of which none failed, keeps
/// its records.
pub proof fn replan_leaves_the_rest(
    steps: Seq<StepSpec>,
    records: Map<Seq<char>, StepRecord>,
    failed: Seq<Seq<char>>,
    part: Set<Seq<char>>,
    k: Seq<char>,
)
    requires
        records.contains_key(k),
        part.contains(k),
        forall|i: int, j: int|
            0 <= i < steps.len() && part.contains((#[trigger] steps[i]).id@) && 0 <= j < steps[i].depends_on@.len()
                ==> part.contains((#[trigger] steps[i].depends_on@[j])@),
        forall|j: int| 0 <= j < failed.len() ==> !part.contains(#[trigger] failed[j]),
    ensures
        replanned(steps, records, failed)[k] == records[k],
{
    if failed.contains(k) {
        let j = choose|j: int| 0 <= j < failed.len() && failed[j] == k;
        assert(!part.contains(failed[j]));
    }
    assert forall|i: int| 0 <= i < steps.len() && (#[trigger] steps[i]).id@ == k implies !needs_any(
        steps,
        texts(steps[i].depends_on@),
        failed,
    ) by {
        let ds = texts(steps[i].depends_on@);
        assert forall|j: int| 0 <= j < ds.len() implies part.contains(#[trigger] ds[j]) by {
            assert(part.contains(steps[i].depends_on@[j]@));
        }
        closed_parts_meet_no_others(steps, ds, failed, part);
    }
    assert(!tried_again(steps, records, failed, k));
}

/// Giving up marks the steps that wait or are under way, and only their status; the
/// others stay as they are.
pub proof fn giving_up_marks_the_open_steps(records: Map<Seq<char>, StepRecord>, status: StepStatus, k: Seq<char>)
    requires
        records.contains_key(k),
    ensures
        settled(records, status).dom() == records.dom(),
        records[k].status is Pending || records[k].status is Running ==> settled(records, status)[k].status == status,
        records[k].status is Succeeded || records[k].status is Failed || records[k].status is Aborted ==> settled(
            records,
            status,
        )[k].status == records[k].status,
        settled(records, status)[k].attempts == records[k].attempts && settled(records, status)[k].output
            == records[k].output && settled(records, status)[k].error == records[k].error && settled(
            records,
            status,
        )[k].step_id == records[k].step_id,
{
    assert(settled(records, status).dom() =~= records.dom());
}

/// A goal that fails its conditions fails for the first that is not met: every one
/// before it is.
pub proof fn the_first_refusal_counts(verdicts: Seq<Result<(), String>>, before: Progress, after: Progress, n: int)
    requires
        0 <= n < verdicts.len(),
        verdicts[n] is Err,
        forall|i: int| 0 <= i < n ==> (#[trigger] verdicts[i]) is Ok,
        judged(before, after, verdicts),
    ensures
        after.status is Failed,
        after.error matches Some(e) && finishes_with(e, verdicts[n]->Err_0@),
        after.records == before.records && after.steps_taken == before.steps_taken && after.replan_count
            == before.replan_count && after.total_retries == before.total_retries,
{
    refusal_at(verdicts, 0, n);
    let e = verdicts[n]->Err_0@;
    let text = "目标验收失败："@ + e;
    assert(text.skip(text.len() - e.len()) =~= e);
}

proof fn refusal_at(verdicts: Seq<Result<(), String>>, from: int, n: int)
    requires
        0 <= from <= n < verdicts.len(),
        verdicts[n] is Err,
        forall|i: int| from <= i < n ==> (#[trigger] verdicts[i]) is Ok,
    ensures
        first_refusal(verdicts, from) == Some(verdicts[n]->Err_0@),
    decreases n - from,
{
    if from < n {
        assert(verdicts[from] is Ok);
        refusal_at(verdicts, from + 1, n);
    }
}

/// The conditions of a goal are held against the outputs of the steps that succeeded,
/// all of them and no others, in the order of the records.
pub proof fn outputs_are_those_of_successes(v: Seq<(String, StepRecord)>, e: (String, StepRecord))
    ensures
        outputs(seq![]) == Seq::<Seq<char>>::empty(),
        (e.1.output matches Some(o) && e.1.status is Succeeded) ==> outputs(v.push(e)) == outputs(v).push(e.1.output->0@),
        e.1.output is None || !(e.1.status is Succeeded) ==> outputs(v.push(e)) == outputs(v),
{
    assert(v.push(e).drop_last() =~= v);
}

/// A step is tried again as often as it asks for, but never more often than the
/// budget grants.
pub proof fn retries_stay_within_the_budget(step: StepSpec, budget: GoalBudget)
    ensures
        granted_retries(step, budget) <= step.retries && granted_retries(step, budget) <= budget.max_retries_per_step,
        granted_retries(step, budget) == step.retries || granted_retries(step, budget) == budget.max_retries_per_step,
{
}

/// A run that cannot go on says why: its replans are used up, or its steps wait for
/// each other.
pub proof fn stuck_runs_say_why(r: GoalRunner)
    ensures
        r.state.replan_count < r.state.goal.budget.max_replans <==> begins_with(r.stuck_reason(), "死锁"@),
{
    reveal_strlit("死锁");
    reveal_strlit("死锁：存在未完成步骤但无就绪步骤");
    reveal_strlit("replan 次数超限，未完成步骤无法恢复");
    assert("死锁：存在未完成步骤但无就绪步骤"@.take(2) =~= "死锁"@);
    assert("replan 次数超限，未完成步骤无法恢复"@.take(2)[0] == 'r');
}

/// Every event is noted, in order, with what happened and to what, in the list of the
/// run and in the record of actions alike.
pub proof fn events_are_noted_whole(goal: Seq<char>, plan_goal: Seq<char>, es: Seq<Event>, i: int)
    requires
        0 <= i < es.len(),
    ensures
        event_lines(es).len() == es.len() && audit_lines(goal, plan_goal, es).len() == es.len(),
        begins_with(event_lines(es)[i], es[i].0) && finishes_with(event_lines(es)[i], es[i].1),
        audit_lines(goal, plan_goal, es)[i].session_id == goal && audit_lines(goal, plan_goal, es)[i].event == es[i].0
            && audit_lines(goal, plan_goal, es)[i].detail == es[i].1,
        audit_lines(goal, plan_goal, es)[i].tool matches Some(t) && finishes_with(t, plan_goal),
{
    let l = event_lines(es)[i];
    assert(l.take(es[i].0.len() as int) =~= es[i].0);
    assert(l.skip(l.len() - es[i].1.len()) =~= es[i].1);
    let t = "goal/"@ + plan_goal;
    assert(t.skip(t.len() - plan_goal.len()) =~= plan_goal);
}

/// A goal is over once it has succeeded, failed or was given up, and not before.
pub proof fn goals_end_three_ways(s: GoalStatus)
    ensures
        s.terminal() <==> s is Succeeded || s is Failed || s is Aborted,
{
}

/// A run changes how far it has come and nothing else: two states of it that agree in
/// that are equal, but for what was noted.
pub proof fn runs_change_their_progress(a: GoalRunner, b: GoalRunner, c: GoalRunner)
    ensures
        a.same_run(a),
        a.same_run(b) && b.same_run(c) ==> a.same_run(c),
        a.same_run(b) && a.progress() == b.progress() && a.state.goal.updated_at == b.state.goal.updated_at
            && a.state.goal.error == b.state.goal.error && a.state.records == b.state.records && a.state.events
            == b.state.events ==> a.state == b.state && a.config == b.config,
{
}

/// Nothing is known of a step before it is tried.
pub proof fn fresh_steps_are_untouched(r: StepRecord, id: Seq<char>)
    requires
        is_fresh(r, id),
    ensures
        r.step_id@ == id && r.status is Pending && r.attempts == 0,
        r.output is None && r.error is None,
        reset_record(r) == r,
{
}

} // verus!
