//! Budgets of tasks, and the supervision of workers that crash.

use vstd::arithmetic::power2::pow2;
use vstd::prelude::*;

verus! {

/// What a task may use up.
#[derive(Debug, Clone, Copy, PartialEq, Eq, Structural)]
pub struct Budget {
    pub max_turns: u32,
    pub max_steps: u32,
    pub max_duration_secs: u64,
}

impl Default for Budget {
    fn default() -> (r: Budget)
        ensures
            r == (Budget { max_turns: 50, max_steps: 1000, max_duration_secs: 600 }),
    {
        Budget { max_turns: 50, max_steps: 1000, max_duration_secs: 600 }
    }
}

impl Budget {
    /// One of the three limits is reached.
    pub open spec fn used_up(self, turns: u32, steps: u32, elapsed_secs: u64) -> bool {
        turns >= self.max_turns || steps >= self.max_steps || elapsed_secs >= self.max_duration_secs
    }

    /// Whether one of the three limits is reached; the time is counted in whole
    /// seconds.
    pub fn exceeded(&self, turns: u32, steps: u32, elapsed_secs: u64) -> (r: bool)
        ensures
            r == self.used_up(turns, steps, elapsed_secs),
    {
        turns >= self.max_turns || steps >= self.max_steps || elapsed_secs >= self.max_duration_secs
    }
}

/// Which workers are restarted after a crash.
#[derive(Debug, Clone, Copy, PartialEq, Eq, Structural)]
pub enum RestartPolicy {
    OneForOne,
    RestForOne,
    OneForAll,
}

/// How often and how soon a worker is restarted.
#[derive(Debug, Clone, Copy, PartialEq, Eq, Structural)]
pub struct RestartRule {
    pub max_restarts: u32,
    pub base_backoff_secs: u64,
    pub policy: RestartPolicy,
}

impl Default for RestartRule {
    fn default() -> (r: RestartRule)
        ensures
            r == (RestartRule { max_restarts: 3, base_backoff_secs: 1, policy: RestartPolicy::OneForOne }),
    {
        RestartRule { max_restarts: 3, base_backoff_secs: 1, policy: RestartPolicy::OneForOne }
    }
}

/// The wait before a restart: the base, doubled with every attempt, at most a
/// minute.
pub open spec fn backoff(base_secs: nat, attempts: nat) -> nat {
    let wait = base_secs * pow2(attempts);
    if wait < 60 {
        wait
    } else {
        60
    }
}

/// The wait before a restart, in seconds.
pub fn backoff_secs(base_secs: u64, attempts: u32) -> (r: u64)
    ensures
        r == backoff(base_secs as nat, attempts as nat),
{
    let n: u32 = if attempts < 6 {
        attempts
    } else {
        6
    };
    let factor: u64 = 1u64 << n;
    let wait: u64 = match base_secs.checked_mul(factor) {
        Some(w) => w,
        None => u64::MAX,
    };
    proof {
        vstd::arithmetic::power2::lemma2_to64();
        assert(pow2(n as nat) <= 64) by {
            assert(n == 0 || n == 1 || n == 2 || n == 3 || n == 4 || n == 5 || n == 6);
        }
        vstd::bits::lemma_u64_shl_is_mul(1, n as u64);
        assert((1u64 << n) == (1u64 << (n as u64))) by (bit_vector)
            requires
                n <= 6,
        ;
        assert(factor == pow2(n as nat));
        if attempts > 6 {
            vstd::arithmetic::power2::lemma_pow2_strictly_increases(6, attempts as nat);
            assert(base_secs * pow2(attempts as nat) >= base_secs * pow2(6)) by (nonlinear_arith)
                requires
                    pow2(attempts as nat) > pow2(6),
                    base_secs >= 0,
            ;
            assert(base_secs > 0 ==> base_secs * pow2(6) >= 64) by (nonlinear_arith)
                requires
                    pow2(6) == 64,
            ;
            assert(base_secs == 0 ==> base_secs * pow2(attempts as nat) == 0) by (nonlinear_arith);
            assert(base_secs == 0 ==> base_secs * pow2(6) == 0) by (nonlinear_arith);
        }
    }
    if wait < 60 {
        wait
    } else {
        60
    }
}

/// What is done about a worker.
#[derive(Debug, Clone, Copy, PartialEq, Eq, Structural)]
pub enum SupervisionState {
    Healthy,
    Restarting { attempts: u32, next_retry_secs: u64 },
    Fused { attempts: u32 },
}

/// The supervision of one worker: its rule and the crashes since it last ran
/// well.
pub struct Supervisor {
    pub rule: RestartRule,
    pub attempts: u32,
}

/// The answer to the crash number `attempts`: a restart after the wait that is
/// due, until the restarts are used up.
pub open spec fn crash_answer(rule: RestartRule, attempts: u32) -> SupervisionState {
    if attempts > rule.max_restarts {
        SupervisionState::Fused { attempts }
    } else {
        SupervisionState::Restarting {
            attempts,
            next_retry_secs: backoff(rule.base_backoff_secs as nat, (attempts - 1) as nat) as u64,
        }
    }
}

impl Supervisor {
    pub fn new(rule: RestartRule) -> (r: Supervisor)
        ensures
            r.rule == rule,
            r.attempts == 0,
    {
        Supervisor { rule, attempts: 0 }
    }

    pub fn rule(&self) -> (r: RestartRule)
        ensures
            r == self.rule,
    {
        self.rule
    }

    pub fn attempts(&self) -> (r: u32)
        ensures
            r == self.attempts,
    {
        self.attempts
    }

    /// The worker runs well: earlier crashes count no more.
    pub fn mark_healthy(&mut self)
        ensures
            final(self).attempts == 0,
            final(self).rule == old(self).rule,
    {
        self.attempts = 0;
    }

    /// The worker crashed.
    pub fn on_crash(&mut self) -> (r: SupervisionState)
        requires
            old(self).attempts < u32::MAX,
        ensures
            final(self).rule == old(self).rule,
            final(self).attempts == old(self).attempts + 1,
            r == crash_answer(old(self).rule, final(self).attempts),
    {
        self.attempts = self.attempts + 1;
        if self.attempts > self.rule.max_restarts {
            SupervisionState::Fused { attempts: self.attempts }
        } else {
            SupervisionState::Restarting {
                attempts: self.attempts,
                next_retry_secs: backoff_secs(self.rule.base_backoff_secs, self.attempts - 1),
            }
        }
    }
}

/// The wait never gets shorter from one attempt to a later one, and never
/// exceeds a minute.
pub proof fn backoff_grows_to_the_cap(base_secs: nat, a: nat, b: nat)
    requires
        a <= b,
    ensures
        backoff(base_secs, a) <= backoff(base_secs, b) <= 60,
{
    if a < b {
        vstd::arithmetic::power2::lemma_pow2_strictly_increases(a, b);
        assert(base_secs * pow2(a) <= base_secs * pow2(b)) by (nonlinear_arith)
            requires
                pow2(a) < pow2(b),
                base_secs >= 0,
        ;
    }
}

/// A worker is restarted exactly as often as its rule allows before it is
/// given up, and it stays given up until it runs well again.
pub proof fn fuse_after_max_restarts(rule: RestartRule, attempts: u32)
    requires
        attempts > 0,
    ensures
        crash_answer(rule, attempts) is Restarting <==> attempts <= rule.max_restarts,
        crash_answer(rule, attempts) is Fused <==> attempts > rule.max_restarts,
{
}

/// The wait before a restart is the base at first and doubles with each attempt, until
/// it has reached a minute.
pub proof fn waits_double(base_secs: nat, attempts: nat)
    ensures
        base_secs < 60 ==> backoff(base_secs, 0) == base_secs,
        2 * backoff(base_secs, attempts) < 60 ==> backoff(base_secs, attempts + 1) == 2 * backoff(base_secs, attempts),
        2 * backoff(base_secs, attempts) >= 60 ==> backoff(base_secs, attempts + 1) == 60,
{
    let p = pow2(attempts);
    assert(pow2(0) == 1) by {
        vstd::arithmetic::power2::lemma2_to64();
    }
    vstd::arithmetic::power2::lemma_pow2_unfold(attempts + 1);
    assert(pow2(attempts + 1) == 2 * p);
    assert(base_secs * (2 * p) == 2 * (base_secs * p)) by (nonlinear_arith);
}

/// A worker that crashes is restarted after the wait that belongs to its attempt: the
/// first time after the base, then longer and longer; it is told how often it crashed.
pub proof fn restarts_wait_for_their_attempt(rule: RestartRule, attempts: u32)
    requires
        0 < attempts,
    ensures
        attempts <= rule.max_restarts ==> (crash_answer(rule, attempts) matches SupervisionState::Restarting {
            attempts: n,
            next_retry_secs,
        } && n == attempts && next_retry_secs == backoff(rule.base_backoff_secs as nat, (attempts - 1) as nat)),
        attempts > rule.max_restarts ==> (crash_answer(rule, attempts) matches SupervisionState::Fused { attempts: n } && n
            == attempts),
{
    backoff_grows_to_the_cap(rule.base_backoff_secs as nat, (attempts - 1) as nat, (attempts - 1) as nat);
}

/// A budget is used up as soon as one of its limits is reached, and not before.
pub proof fn budgets_end_at_one_limit(b: Budget, turns: u32, steps: u32, elapsed_secs: u64)
    ensures
        !b.used_up(turns, steps, elapsed_secs) <==> turns < b.max_turns && steps < b.max_steps && elapsed_secs
            < b.max_duration_secs,
{
}

} // verus!
