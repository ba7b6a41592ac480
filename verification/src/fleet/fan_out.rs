//! The fan-out of one task to many workers: which worker starts when, and what
//! is reported of each.

use crate::experience::{Attribution, ExperienceRecord, Outcome};
use crate::fleet::message::CorrelationId;
use crate::fleet::supervisor::Budget;
use crate::fleet::wait_graph::AgentId;
use crate::table::Table;
use crate::text::{copy_str, has_text, join, joined, parts_stand_in_the_whole, same_text, texts};
use std::time::Duration;
use vstd::prelude::*;

verus! {

/// How the work of a worker ended.
#[derive(Debug, Clone, Copy, PartialEq, Eq, Structural)]
pub enum FanOutStatus {
    Succeeded,
    /// The worker reported an error.
    Failed,
    /// The worker took too long.
    TimedOut,
    /// The caller gave up.
    Cancelled,
    /// The time of the whole fan-out was used up.
    Aborted,
    /// The worker lacks what the task needs and was not started.
    Unfit,
}

impl Default for FanOutStatus {
    fn default() -> (r: FanOutStatus)
        ensures
            r is Failed,
    {
        FanOutStatus::Failed
    }
}

/// What came of one worker.
pub struct FanOutOutcome {
    pub worker: AgentId,
    pub ok: bool,
    pub status: FanOutStatus,
    pub error: Option<String>,
    pub output: Option<String>,
}

/// The outcome of a worker that gave the output `output`.
pub open spec fn is_success(o: FanOutOutcome, worker: Seq<char>, output: Seq<char>) -> bool {
    o.worker@ == worker && o.ok && o.status is Succeeded && o.error is None && (o.output matches Some(t) && t@ == output)
}

/// The outcome of a worker that gave nothing but the error `error`.
pub open spec fn is_failure(o: FanOutOutcome, worker: Seq<char>, error: Seq<char>, status: FanOutStatus) -> bool {
    o.worker@ == worker && !o.ok && o.status == status && o.output is None && (o.error matches Some(t) && t@ == error)
}

/// The outcome of a worker is of one piece: it bears the worker's name, it is well
/// exactly if its status is success, and then it has an output, else an error.
pub open spec fn is_coherent(o: FanOutOutcome, worker: Seq<char>) -> bool {
    &&& o.worker@ == worker
    &&& o.ok <==> o.status is Succeeded
    &&& o.ok <==> o.output is Some
    &&& o.ok <==> o.error is None
}

impl FanOutOutcome {
    pub fn success(worker: &str, output: &str) -> (r: FanOutOutcome)
        ensures
            is_success(r, worker@, output@),
    {
        FanOutOutcome {
            worker: copy_str(worker),
            ok: true,
            status: FanOutStatus::Succeeded,
            error: None,
            output: Some(copy_str(output)),
        }
    }

    pub fn failure(worker: &str, error: &str) -> (r: FanOutOutcome)
        ensures
            is_failure(r, worker@, error@, FanOutStatus::Failed),
    {
        FanOutOutcome {
            worker: copy_str(worker),
            ok: false,
            status: FanOutStatus::Failed,
            error: Some(copy_str(error)),
            output: None,
        }
    }

    /// The same outcome with another status, and well exactly if that status is
    /// success.
    pub fn with_status(self, status: FanOutStatus) -> (r: FanOutOutcome)
        ensures
            r == (FanOutOutcome { ok: status is Succeeded, status, ..self }),
    {
        let mut o = self;
        o.ok = status == FanOutStatus::Succeeded;
        o.status = status;
        o
    }
}

impl Clone for FanOutOutcome {
    fn clone(&self) -> (r: FanOutOutcome)
        ensures
            r == *self,
    {
        FanOutOutcome {
            worker: self.worker.clone(),
            ok: self.ok,
            status: self.status,
            error: match &self.error {
                Some(e) => Some(e.clone()),
                None => None,
            },
            output: match &self.output {
                Some(e) => Some(e.clone()),
                None => None,
            },
        }
    }
}

/// How many workers run at once, and for how long.
pub struct FanOutConfig {
    pub max_parallel: usize,
    pub budget: Budget,
    /// How long one worker may take; `None` sets no limit.
    pub per_worker_timeout: Option<Duration>,
}

impl Default for FanOutConfig {
    fn default() -> (r: FanOutConfig)
        ensures
            r.max_parallel == 4,
            r.budget == (Budget { max_turns: 50, max_steps: 1000, max_duration_secs: 600 }),
            r.per_worker_timeout is None,
    {
        FanOutConfig { max_parallel: 4, budget: Budget::default(), per_worker_timeout: None }
    }
}

/// What came of all workers, in the order in which they were given.
pub struct FanOutReport {
    pub correlation_id: CorrelationId,
    pub outcomes: Vec<FanOutOutcome>,
}

/// The elements of `v` that a test accepts, in their order.
pub open spec fn picked(v: Seq<FanOutOutcome>, test: spec_fn(FanOutOutcome) -> bool) -> Seq<FanOutOutcome>
    decreases v.len(),
{
    if v.len() == 0 {
        seq![]
    } else if test(v.last()) {
        picked(v.drop_last(), test).push(v.last())
    } else {
        picked(v.drop_last(), test)
    }
}

/// The work of this worker may be tried again by itself.
pub open spec fn may_retry(o: FanOutOutcome) -> bool {
    o.status is Failed || o.status is TimedOut
}

/// The outcomes behind references.
pub open spec fn plain(v: Seq<&FanOutOutcome>) -> Seq<FanOutOutcome> {
    v.map_values(|o: &FanOutOutcome| *o)
}

impl FanOutReport {
    /// The first outcome of a worker.
    pub fn outcome(&self, worker: &str) -> (r: Option<&FanOutOutcome>)
        ensures
            match r {
                Some(o) => exists|i: int|
                    0 <= i < self.outcomes@.len() && #[trigger] self.outcomes@[i] == *o && o.worker@ == worker@
                        && forall|j: int| 0 <= j < i ==> #[trigger] self.outcomes@[j].worker@ != worker@,
                None => forall|j: int| 0 <= j < self.outcomes@.len() ==> #[trigger] self.outcomes@[j].worker@ != worker@,
            },
    {
        for i in 0..self.outcomes.len()
            invariant
                forall|j: int| 0 <= j < i ==> #[trigger] self.outcomes@[j].worker@ != worker@,
        {
            if same_text(self.outcomes[i].worker.as_str(), worker) {
                assert(self.outcomes@[i as int].worker@ == worker@);
                return Some(&self.outcomes[i]);
            }
        }
        None
    }

    /// The outcomes that are well.
    pub fn succeeded(&self) -> (r: Vec<&FanOutOutcome>)
        ensures
            plain(r@) == picked(self.outcomes@, |o: FanOutOutcome| o.status is Succeeded),
    {
        let mut r: Vec<&FanOutOutcome> = Vec::new();
        let ghost test = |o: FanOutOutcome| o.status is Succeeded;
        for i in 0..self.outcomes.len()
            invariant
                test == (|o: FanOutOutcome| o.status is Succeeded),
                plain(r@) == picked(self.outcomes@.take(i as int), test),
        {
            let ghost r0 = r@;
            assert(self.outcomes@.take(i + 1).drop_last() =~= self.outcomes@.take(i as int));
            if self.outcomes[i].status == FanOutStatus::Succeeded {
                r.push(&self.outcomes[i]);
                assert(plain(r@) =~= plain(r0).push(self.outcomes@[i as int]));
            }
        }
        assert(self.outcomes@.take(self.outcomes@.len() as int) =~= self.outcomes@);
        r
    }

    /// The outcomes that are not well.
    pub fn failed(&self) -> (r: Vec<&FanOutOutcome>)
        ensures
            plain(r@) == picked(self.outcomes@, |o: FanOutOutcome| !(o.status is Succeeded)),
    {
        let mut r: Vec<&FanOutOutcome> = Vec::new();
        let ghost test = |o: FanOutOutcome| !(o.status is Succeeded);
        for i in 0..self.outcomes.len()
            invariant
                test == (|o: FanOutOutcome| !(o.status is Succeeded)),
                plain(r@) == picked(self.outcomes@.take(i as int), test),
        {
            let ghost r0 = r@;
            assert(self.outcomes@.take(i + 1).drop_last() =~= self.outcomes@.take(i as int));
            if self.outcomes[i].status != FanOutStatus::Succeeded {
                r.push(&self.outcomes[i]);
                assert(plain(r@) =~= plain(r0).push(self.outcomes@[i as int]));
            }
        }
        assert(self.outcomes@.take(self.outcomes@.len() as int) =~= self.outcomes@);
        r
    }

    /// The outcomes of workers whose work may be tried again by itself: errors
    /// and timeouts, not what the caller or the budget ended.
    pub fn retryable(&self) -> (r: Vec<&FanOutOutcome>)
        ensures
            plain(r@) == picked(self.outcomes@, |o: FanOutOutcome| may_retry(o)),
    {
        let mut r: Vec<&FanOutOutcome> = Vec::new();
        let ghost test = |o: FanOutOutcome| may_retry(o);
        for i in 0..self.outcomes.len()
            invariant
                test == (|o: FanOutOutcome| may_retry(o)),
                plain(r@) == picked(self.outcomes@.take(i as int), test),
        {
            let ghost r0 = r@;
            assert(self.outcomes@.take(i + 1).drop_last() =~= self.outcomes@.take(i as int));
            if matches!(self.outcomes[i].status, FanOutStatus::Failed | FanOutStatus::TimedOut) {
                r.push(&self.outcomes[i]);
                assert(plain(r@) =~= plain(r0).push(self.outcomes@[i as int]));
            }
        }
        assert(self.outcomes@.take(self.outcomes@.len() as int) =~= self.outcomes@);
        r
    }

    /// Whether every outcome is well.
    pub fn all_succeeded(&self) -> (r: bool)
        ensures
            r == (forall|i: int| 0 <= i < self.outcomes@.len() ==> (#[trigger] self.outcomes@[i]).status is Succeeded),
    {
        for i in 0..self.outcomes.len()
            invariant
                forall|j: int| 0 <= j < i ==> (#[trigger] self.outcomes@[j]).status is Succeeded,
        {
            if self.outcomes[i].status != FanOutStatus::Succeeded {
                assert(!(self.outcomes@[i as int].status is Succeeded));
                return false;
            }
        }
        true
    }
}

// ---------------------------------------------------------------------------
// The run of a fan-out
// ---------------------------------------------------------------------------

/// How well a worker fits the needs of the task.
pub enum WorkerFit {
    /// The task has no needs, or the worker meets them all.
    Full,
    /// The worker has no capability card.
    NoCard,
    /// The worker lacks some of the needs.
    Partial { missing: Vec<String> },
    /// The worker does not meet the needs.
    Unfit { reasons: Vec<String> },
}

impl WorkerFit {
    /// Why a worker is not started; nothing where it is.
    pub open spec fn objection(self, worker: Seq<char>) -> Option<Seq<char>> {
        match self {
            WorkerFit::Full => None,
            WorkerFit::NoCard => Some("worker "@ + worker + " 未注册能力卡"@),
            WorkerFit::Partial { missing } => Some(
                "worker "@ + worker + " 能力降级（缺失 "@ + joined(texts(missing@), ", "@) + "）"@,
            ),
            WorkerFit::Unfit { reasons } => Some("worker "@ + worker + " 能力不满足："@ + joined(texts(reasons@), "；"@)),
        }
    }
}

fn objection_text(fit: &WorkerFit, worker: &str) -> (r: Option<String>)
    ensures
        match r {
            Some(s) => fit.objection(worker@) == Some(s@),
            None => fit.objection(worker@) is None,
        },
{
    let mut s = copy_str("worker ");
    s.append(worker);
    match fit {
        WorkerFit::Full => None,
        WorkerFit::NoCard => {
            s.append(" 未注册能力卡");
            Some(s)
        },
        WorkerFit::Partial { missing } => {
            s.append(" 能力降级（缺失 ");
            let list = join(missing, ", ");
            s.append(list.as_str());
            s.append("）");
            Some(s)
        },
        WorkerFit::Unfit { reasons } => {
            s.append(" 能力不满足：");
            let list = join(reasons, "；");
            s.append(list.as_str());
            Some(s)
        },
    }
}

/// The end of a worker that was started.
pub enum WorkerEnd {
    /// It came to an end.
    Finished { worker: AgentId, result: Result<String, String> },
    /// It took longer than a worker may.
    TimedOut { worker: AgentId },
    /// It broke off.
    Panicked,
}

/// The outcome for the end of a worker: a timeout is told apart from an error
/// of its own. One that broke off has none.
pub open spec fn is_outcome_of(o: FanOutOutcome, end: WorkerEnd) -> bool {
    match end {
        WorkerEnd::Finished { worker, result } => match result {
            Ok(output) => is_success(o, worker@, output@),
            Err(e) => is_failure(o, worker@, e@, FanOutStatus::Failed),
        },
        WorkerEnd::TimedOut { worker } => is_failure(o, worker@, "worker timed out"@, FanOutStatus::TimedOut),
        WorkerEnd::Panicked => false,
    }
}

/// The outcome for the end of a worker, where there is one.
pub fn worker_outcome(end: &WorkerEnd) -> (r: Option<FanOutOutcome>)
    ensures
        match r {
            Some(o) => is_outcome_of(o, *end),
            None => end is Panicked,
        },
{
    match end {
        WorkerEnd::Finished { worker, result } => Some(
            match result {
                Ok(output) => FanOutOutcome::success(worker.as_str(), output.as_str()),
                Err(e) => FanOutOutcome::failure(worker.as_str(), e.as_str()),
            },
        ),
        WorkerEnd::TimedOut { worker } => Some(
            FanOutOutcome::failure(worker.as_str(), "worker timed out").with_status(FanOutStatus::TimedOut),
        ),
        WorkerEnd::Panicked => None,
    }
}

/// The state of a fan-out.
pub struct FanOutRun {
    pub workers: Vec<AgentId>,
    pub max_parallel: usize,
    pub budget: Budget,
    /// The position of the next worker to start.
    pub next: usize,
    /// The number of workers that run.
    pub running: usize,
    pub outcomes: Table<FanOutOutcome>,
    pub aborted: bool,
    pub cancelled: bool,
    pub panicked: bool,
}

impl FanOutRun {
    /// At least one worker may run, and never more run than may; each outcome is of
    /// one piece and of the worker that it is kept under.
    pub open spec fn wf(self) -> bool {
        &&& 1 <= self.max_parallel
        &&& self.running <= self.max_parallel
        &&& self.next <= self.workers@.len()
        &&& self.outcomes.wf()
        &&& forall|w: Seq<char>| #[trigger] self.outcomes@.contains_key(w) ==> is_coherent(self.outcomes@[w], w)
    }

    /// A fan-out that has not begun; a bound of zero counts as one.
    pub fn new(workers: Vec<AgentId>, max_parallel: usize, budget: Budget) -> (r: FanOutRun)
        ensures
            r.wf(),
            r.workers == workers,
            r.max_parallel == (if max_parallel == 0 { 1 } else { max_parallel }),
            r.budget == budget,
            r.next == 0,
            r.running == 0,
            r.outcomes@ == Map::<Seq<char>, FanOutOutcome>::empty(),
            !r.aborted && !r.cancelled && !r.panicked,
    {
        FanOutRun {
            workers,
            max_parallel: if max_parallel == 0 {
                1
            } else {
                max_parallel
            },
            budget,
            next: 0,
            running: 0,
            outcomes: Table::new(),
            aborted: false,
            cancelled: false,
            panicked: false,
        }
    }

    /// Begins a round: looks at the clock and at the caller's wish. Returns
    /// whether the fan-out ends here; the workers that run are then stopped.
    pub fn begin_round(&mut self, cancelled: bool, elapsed_secs: u64) -> (r: bool)
        requires
            old(self).wf(),
        ensures
            final(self).wf(),
            final(self).aborted == (old(self).aborted || old(self).budget.used_up(0, 0, elapsed_secs)),
            final(self).cancelled == (old(self).cancelled || cancelled),
            r == (final(self).aborted || final(self).cancelled),
            *final(self) == (FanOutRun {
                aborted: final(self).aborted,
                cancelled: final(self).cancelled,
                running: (if r { 0 } else { old(self).running }),
                ..*old(self)
            }),
    {
        if self.budget.exceeded(0, 0, elapsed_secs) {
            self.aborted = true;
        }
        if cancelled {
            self.cancelled = true;
        }
        if self.aborted || self.cancelled {
            self.running = 0;
            return true;
        }
        false
    }

    /// The next worker that may start now, if there is one.
    pub fn take_next(&mut self) -> (r: Option<AgentId>)
        requires
            old(self).wf(),
        ensures
            final(self).wf(),
            match r {
                Some(w) => {
                    &&& old(self).running < old(self).max_parallel
                    &&& old(self).next < old(self).workers@.len()
                    &&& w@ == old(self).workers@[old(self).next as int]@
                    &&& *final(self) == (FanOutRun { next: final(self).next, ..*old(self) })
                    &&& final(self).next == old(self).next + 1
                },
                None => *final(self) == *old(self) && (old(self).running == old(self).max_parallel || old(self).next
                    == old(self).workers@.len()),
            },
    {
        if self.running < self.max_parallel && self.next < self.workers.len() {
            let worker = self.workers[self.next].clone();
            self.next = self.next + 1;
            Some(worker)
        } else {
            None
        }
    }

    /// Decides on a worker that was taken: one that fits counts as started;
    /// one that does not gets its outcome at once, which is returned.
    pub fn start_or_refuse(&mut self, worker: &str, fit: &WorkerFit) -> (r: Option<FanOutOutcome>)
        requires
            old(self).wf(),
            old(self).running < old(self).max_parallel,
        ensures
            final(self).wf(),
            match fit.objection(worker@) {
                None => r is None && *final(self) == (FanOutRun { running: final(self).running, ..*old(self) })
                    && final(self).running == old(self).running + 1,
                Some(reason) => {
                    &&& r matches Some(o) && is_failure(o, worker@, reason, FanOutStatus::Unfit)
                    &&& *final(self) == (FanOutRun { outcomes: final(self).outcomes, ..*old(self) })
                    &&& final(self).outcomes@ == old(self).outcomes@.insert(worker@, r->0)
                },
            },
    {
        match objection_text(fit, worker) {
            None => {
                self.running = self.running + 1;
                None
            },
            Some(reason) => {
                let outcome = FanOutOutcome::failure(worker, reason.as_str()).with_status(FanOutStatus::Unfit);
                self.outcomes.insert(copy_str(worker), outcome.clone());
                Some(outcome)
            },
        }
    }

    /// Whether nothing runs that could end.
    pub fn is_idle(&self) -> (r: bool)
        ensures
            r == (self.running == 0),
    {
        self.running == 0
    }

    /// A worker that was started has ended.
    pub fn joined(&mut self, end: WorkerEnd)
        requires
            old(self).wf(),
            old(self).running > 0,
        ensures
            final(self).wf(),
            final(self).running == old(self).running - 1,
            match end {
                WorkerEnd::Panicked => *final(self) == (FanOutRun {
                    running: final(self).running,
                    panicked: true,
                    ..*old(self)
                }),
                WorkerEnd::Finished { worker, .. } | WorkerEnd::TimedOut { worker } => {
                    &&& *final(self) == (FanOutRun {
                        running: final(self).running,
                        outcomes: final(self).outcomes,
                        ..*old(self)
                    })
                    &&& final(self).outcomes@.contains_key(worker@)
                    &&& is_outcome_of(final(self).outcomes@[worker@], end)
                    &&& final(self).outcomes@ == old(self).outcomes@.insert(worker@, final(self).outcomes@[worker@])
                },
            },
    {
        self.running = self.running - 1;
        match worker_outcome(&end) {
            Some(outcome) => {
                self.outcomes.insert(outcome.worker.clone(), outcome);
            },
            None => {
                self.panicked = true;
            },
        }
    }

    /// What is said of a worker without an outcome.
    pub open spec fn excuse(self) -> (Seq<char>, FanOutStatus) {
        if self.aborted {
            ("budget exceeded: task aborted"@, FanOutStatus::Aborted)
        } else if self.cancelled {
            ("cancelled by caller"@, FanOutStatus::Cancelled)
        } else if self.panicked {
            ("worker panicked or join error"@, FanOutStatus::Failed)
        } else {
            ("worker did not complete"@, FanOutStatus::Failed)
        }
    }

    /// What is reported at position `i`: the outcome of the worker where it is
    /// named there for the first time, else the excuse.
    pub open spec fn reported_at(self, i: int, o: FanOutOutcome) -> bool {
        let w = self.workers@[i]@;
        if self.outcomes@.contains_key(w) && !texts(self.workers@).take(i).contains(w) {
            o == self.outcomes@[w]
        } else {
            is_failure(o, w, self.excuse().0, self.excuse().1)
        }
    }

    /// The report: an outcome for each worker, in the order in which the workers
    /// were given.
    pub fn report(self, correlation_id: &str) -> (r: FanOutReport)
        requires
            self.wf(),
        ensures
            r.correlation_id@ == correlation_id@,
            r.outcomes@.len() == self.workers@.len(),
            forall|i: int| 0 <= i < self.workers@.len() ==> self.reported_at(i, #[trigger] r.outcomes@[i]),
            forall|i: int|
                0 <= i < self.workers@.len() ==> is_coherent(#[trigger] r.outcomes@[i], self.workers@[i]@),
    {
        let ghost run = self;
        let mut left = self.outcomes;
        let mut outcomes: Vec<FanOutOutcome> = Vec::new();
        for i in 0..self.workers.len()
            invariant
                run.wf(),
                run.workers == self.workers,
                run.aborted == self.aborted,
                run.cancelled == self.cancelled,
                run.panicked == self.panicked,
                left.wf(),
                forall|k: Seq<char>|
                    #![trigger left@.contains_key(k)]
                    left@.contains_key(k) <==> run.outcomes@.contains_key(k) && !texts(run.workers@).take(i as int).contains(k),
                forall|k: Seq<char>| #[trigger] left@.contains_key(k) ==> left@[k] == run.outcomes@[k],
                outcomes@.len() == i,
                forall|j: int| 0 <= j < i ==> run.reported_at(j, #[trigger] outcomes@[j]),
                forall|j: int| 0 <= j < i ==> is_coherent(#[trigger] outcomes@[j], run.workers@[j]@),
        {
            let ghost left0 = left@;
            let ghost w = self.workers@[i as int]@;
            let ghost seen = texts(run.workers@).take(i as int);
            let ghost now = texts(run.workers@).take(i + 1);
            proof {
                assert(texts(run.workers@)[i as int] == w);
                assert(now =~= seen.push(w));
                assert forall|k: Seq<char>| now.contains(k) <==> seen.contains(k) || k == w by {
                    if seen.contains(k) {
                        let j = choose|j: int| 0 <= j < seen.len() && seen[j] == k;
                        assert(now[j] == k);
                    }
                    if k == w {
                        assert(now[i as int] == k);
                    }
                }
            }
            let worker = self.workers[i].as_str();
            let outcome = match left.remove(worker) {
                Some(o) => o,
                None => if self.aborted {
                    FanOutOutcome::failure(worker, "budget exceeded: task aborted").with_status(FanOutStatus::Aborted)
                } else if self.cancelled {
                    FanOutOutcome::failure(worker, "cancelled by caller").with_status(FanOutStatus::Cancelled)
                } else if self.panicked {
                    FanOutOutcome::failure(worker, "worker panicked or join error")
                } else {
                    FanOutOutcome::failure(worker, "worker did not complete")
                },
            };
            assert(run.reported_at(i as int, outcome));
            outcomes.push(outcome);
            assert forall|k: Seq<char>| #![trigger left@.contains_key(k)] left@.contains_key(k) <==> run.outcomes@.contains_key(k)
                && !now.contains(k) by {
                assert(left0.contains_key(k) <==> run.outcomes@.contains_key(k) && !seen.contains(k));
            }
        }
        FanOutReport { correlation_id: copy_str(correlation_id), outcomes }
    }
}

/// How the outcome of a worker is remembered.
pub open spec fn remembered_as(status: FanOutStatus) -> Outcome {
    match status {
        FanOutStatus::Succeeded => Outcome::Success,
        FanOutStatus::Cancelled => Outcome::Cancelled,
        FanOutStatus::Aborted => Outcome::Aborted,
        FanOutStatus::Unfit => Outcome::Aborted,
        FanOutStatus::Failed => Outcome::Failure,
        FanOutStatus::TimedOut => Outcome::Failure,
    }
}

/// What is remembered of the outcome of a worker, under a key of the fan-out
/// and the worker.
pub fn record_fanout_experience(correlation_id: &str, o: &FanOutOutcome) -> (r: ExperienceRecord)
    ensures
        r.key@ == "fan-out:"@ + correlation_id@ + ":"@ + o.worker@,
        r.worker@ == o.worker@,
        r.outcome == remembered_as(o.status),
        r.attribution.goal_id is None,
        r.attribution.plan_id is None,
        r.attribution.step_id is None,
        r.attribution.input_keys@.len() == 0,
        r.attribution.error == o.error,
{
    let outcome = match o.status {
        FanOutStatus::Succeeded => Outcome::Success,
        FanOutStatus::Cancelled => Outcome::Cancelled,
        FanOutStatus::Aborted | FanOutStatus::Unfit => Outcome::Aborted,
        FanOutStatus::Failed | FanOutStatus::TimedOut => Outcome::Failure,
    };
    let mut key = copy_str("fan-out:");
    key.append(correlation_id);
    key.append(":");
    key.append(o.worker.as_str());
    ExperienceRecord {
        key,
        worker: o.worker.clone(),
        outcome,
        attribution: Attribution {
            goal_id: None,
            plan_id: None,
            step_id: None,
            input_keys: Vec::new(),
            error: match &o.error {
                Some(e) => Some(e.clone()),
                None => None,
            },
        },
    }
}

// ---------------------------------------------------------------------------
// Laws
// ---------------------------------------------------------------------------

/// A result that came in is kept: whatever ends the fan-out later, the worker's
/// place in the report shows it.
pub proof fn results_survive_the_end(run: FanOutRun, later: FanOutRun, i: int, o: FanOutOutcome)
    requires
        run.workers == later.workers,
        run.outcomes == later.outcomes,
        0 <= i < run.workers@.len(),
        run.outcomes@.contains_key(run.workers@[i]@),
        !texts(run.workers@).take(i).contains(run.workers@[i]@),
        later.reported_at(i, o),
    ensures
        o == run.outcomes@[run.workers@[i]@],
{
}

/// Whatever came of the workers, a report says of each of them one thing: it is
/// well and has an output, or it is not and has an error.
pub proof fn reports_are_coherent(run: FanOutRun, i: int, o: FanOutOutcome)
    requires
        run.wf(),
        0 <= i < run.workers@.len(),
        run.reported_at(i, o),
    ensures
        is_coherent(o, run.workers@[i]@),
{
}

/// A fan-out whose time is used up before the first round reports every worker
/// as aborted.
pub proof fn no_time_aborts_all(run: FanOutRun, i: int, o: FanOutOutcome)
    requires
        run.aborted,
        run.outcomes@ == Map::<Seq<char>, FanOutOutcome>::empty(),
        0 <= i < run.workers@.len(),
        run.reported_at(i, o),
    ensures
        is_failure(o, run.workers@[i]@, "budget exceeded: task aborted"@, FanOutStatus::Aborted),
{
}

proof fn picked_len(v: Seq<FanOutOutcome>)
    ensures
        picked(v, |o: FanOutOutcome| o.status is Succeeded).len() + picked(v, |o: FanOutOutcome| !(o.status is Succeeded)).len()
            == v.len(),
    decreases v.len(),
{
    if v.len() > 0 {
        picked_len(v.drop_last());
    }
}

/// Every outcome is either well or not.
pub proof fn succeeded_and_failed_are_all(report: FanOutReport)
    ensures
        picked(report.outcomes@, |o: FanOutOutcome| o.status is Succeeded).len() + picked(
            report.outcomes@,
            |o: FanOutOutcome| !(o.status is Succeeded),
        ).len() == report.outcomes@.len(),
{
    picked_len(report.outcomes@);
}

/// The workers that are picked are those that pass the test, all of them, in their
/// order.
pub proof fn picking_keeps_what_passes(v: Seq<FanOutOutcome>, o: FanOutOutcome, test: spec_fn(FanOutOutcome) -> bool)
    ensures
        picked(seq![], test) == Seq::<FanOutOutcome>::empty(),
        test(o) ==> picked(v.push(o), test) == picked(v, test).push(o),
        !test(o) ==> picked(v.push(o), test) == picked(v, test),
{
    assert(v.push(o).drop_last() =~= v);
}

/// A worker is worth another try if it failed or took too long; one that was not fit,
/// was stopped or succeeded is not.
pub proof fn failures_may_be_tried_again(o: FanOutOutcome)
    ensures
        o.status is Failed || o.status is TimedOut ==> may_retry(o),
        o.status is Succeeded || o.status is Cancelled || o.status is Aborted || o.status is Unfit ==> !may_retry(o),
{
}

/// What came of a worker is what it returned: an output if it is well, its error if it
/// is not, and that it took too long if it did.
pub proof fn outcomes_are_what_came(o: FanOutOutcome, end: WorkerEnd)
    requires
        is_outcome_of(o, end),
    ensures
        end matches WorkerEnd::Finished { worker, result } ==> {
            &&& o.worker@ == worker@
            &&& result matches Ok(t) ==> o.ok && o.status is Succeeded && o.error is None && (o.output matches Some(x)
                && x@ == t@)
            &&& result matches Err(e) ==> !o.ok && o.status is Failed && o.output is None && (o.error matches Some(x)
                && x@ == e@)
        },
        end matches WorkerEnd::TimedOut { worker } ==> o.worker@ == worker@ && !o.ok && o.status is TimedOut && o.output
            is None && o.error is Some,
        !(end is Panicked),
{
}

/// The report has the outcome of every worker that came to an end, and for the others
/// why they did not: the budget before the caller's wish, and that before a worker that
/// broke off.
pub proof fn reports_tell_why_workers_are_missing(run: FanOutRun, i: int, o: FanOutOutcome)
    requires
        0 <= i < run.workers@.len(),
        run.reported_at(i, o),
    ensures
        run.outcomes@.contains_key(run.workers@[i]@) && (forall|j: int|
            0 <= j < i ==> (#[trigger] run.workers@[j])@ != run.workers@[i]@) ==> o == run.outcomes@[run.workers@[i]@],
        !run.outcomes@.contains_key(run.workers@[i]@) ==> {
            &&& o.worker@ == run.workers@[i]@ && !o.ok && o.output is None && o.error is Some
            &&& run.aborted ==> o.status is Aborted
            &&& !run.aborted && run.cancelled ==> o.status is Cancelled
            &&& !run.aborted && !run.cancelled ==> o.status is Failed
        },
{
    let w = run.workers@[i]@;
    if forall|j: int| 0 <= j < i ==> (#[trigger] run.workers@[j])@ != w {
        let front = texts(run.workers@).take(i);
        if front.contains(w) {
            let j = choose|j: int| 0 <= j < front.len() && front[j] == w;
            assert(run.workers@[j]@ == w);
        }
    }
}

/// A worker that fits is not objected to; any other is, by name, and where abilities
/// are missing they are named.
pub proof fn unfit_workers_are_objected_to(fit: WorkerFit, worker: Seq<char>)
    ensures
        fit.objection(worker) is None <==> fit is Full,
        fit.objection(worker) matches Some(t) ==> has_text(t, worker),
        fit matches WorkerFit::Partial { missing } ==> has_text(fit.objection(worker)->0, joined(texts(missing@), ", "@)),
        fit matches WorkerFit::Unfit { reasons } ==> has_text(fit.objection(worker)->0, joined(texts(reasons@), "；"@)),
{
    let head = "worker "@;
    match fit {
        WorkerFit::Full => {},
        WorkerFit::NoCard => {
            parts_stand_in_the_whole(head, worker, " 未注册能力卡"@, worker);
        },
        WorkerFit::Partial { missing } => {
            let names = joined(texts(missing@), ", "@);
            let t = fit.objection(worker)->0;
            assert(t =~= head + worker + (" 能力降级（缺失 "@ + names + "）"@));
            parts_stand_in_the_whole(head, worker, " 能力降级（缺失 "@ + names + "）"@, worker);
            parts_stand_in_the_whole(head + worker + " 能力降级（缺失 "@, names, "）"@, worker);
        },
        WorkerFit::Unfit { reasons } => {
            let names = joined(texts(reasons@), "；"@);
            let t = fit.objection(worker)->0;
            assert(t =~= head + worker + (" 能力不满足："@ + names));
            parts_stand_in_the_whole(head, worker, " 能力不满足："@ + names, worker);
            assert(t =~= (head + worker + " 能力不满足："@) + names + Seq::<char>::empty());
            parts_stand_in_the_whole(head + worker + " 能力不满足："@, names, Seq::<char>::empty(), worker);
        },
    }
}

/// What is remembered of a worker: a success as one, being stopped as that, and a
/// failure or a time-out as a failure.
pub proof fn outcomes_are_remembered(s: FanOutStatus)
    ensures
        remembered_as(s) is Success <==> s is Succeeded,
        remembered_as(s) is Failure <==> s is Failed || s is TimedOut,
        remembered_as(s) is Cancelled <==> s is Cancelled,
        remembered_as(s) is Aborted <==> s is Aborted || s is Unfit,
{
}

/// No more workers run at once than are allowed, at least one is, and none is started
/// that is not there.
pub proof fn no_more_run_than_allowed(run: FanOutRun)
    requires
        run.wf(),
    ensures
        run.running <= run.max_parallel,
        run.max_parallel >= 1,
        run.next <= run.workers@.len(),
{
}

} // verus!
