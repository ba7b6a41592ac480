//! The critique of drafts: what keeps a critic to reading, the rounds between
//! author and critic, and how far critics agree with people.

use crate::permissions::{Decision, PermissionRequest, Policy};
use crate::settings::Ratio;
use crate::text::{copy_str, copy_strings, texts};
use vstd::prelude::*;

verus! {

/// What a critic makes of a draft.
pub struct CriticVerdict {
    pub approved: bool,
    /// Up to a hundred.
    pub score: u8,
    pub comments: Vec<String>,
}

/// What a verdict says.
pub struct VerdictModel {
    pub approved: bool,
    pub score: u8,
    pub comments: Seq<Seq<char>>,
}

impl View for CriticVerdict {
    type V = VerdictModel;

    open spec fn view(&self) -> VerdictModel {
        VerdictModel { approved: self.approved, score: self.score, comments: texts(self.comments@) }
    }
}

impl Clone for CriticVerdict {
    fn clone(&self) -> (r: CriticVerdict)
        ensures
            r@ == self@,
    {
        CriticVerdict { approved: self.approved, score: self.score, comments: copy_strings(&self.comments) }
    }
}

impl CriticVerdict {
    /// Approval without comments.
    pub fn approve(score: u8) -> (r: CriticVerdict)
        ensures
            r@ == approval(score),
    {
        let r = CriticVerdict { approved: true, score, comments: Vec::new() };
        assert(r@.comments =~= Seq::<Seq<char>>::empty());
        r
    }

    /// Rejection with comments.
    pub fn reject(score: u8, comments: Vec<String>) -> (r: CriticVerdict)
        ensures
            r@ == (VerdictModel { approved: false, score, comments: texts(comments@) }),
    {
        CriticVerdict { approved: false, score, comments }
    }
}

pub open spec fn approval(score: u8) -> VerdictModel {
    VerdictModel { approved: true, score, comments: Seq::<Seq<char>>::empty() }
}

/// Keeps a critic to reading.
pub struct ReadOnlyGate {
    policy: Policy,
}

impl ReadOnlyGate {
    /// The rules that are kept to.
    pub closed spec fn rules(self) -> Policy {
        self.policy
    }

    pub fn new(policy: Policy) -> (r: ReadOnlyGate)
        ensures
            r.rules() == policy,
    {
        ReadOnlyGate { policy }
    }

    /// The rules for a critic: only reading.
    pub fn read_only() -> (r: ReadOnlyGate)
        ensures
            r.rules().read_only,
            r.rules().workspace@ == "."@,
            texts(r.rules().deny_command_fragments@) == crate::permissions::default_fragments(),
    {
        ReadOnlyGate::new(Policy::read_only("."))
    }

    pub fn policy(&self) -> (r: &Policy)
        ensures
            *r == self.rules(),
    {
        &self.policy
    }

    /// A review starts only where nothing but reading is allowed.
    pub fn ensure_read_only(&self) -> (r: Result<(), String>)
        ensures
            match r {
                Ok(_) => self.rules().read_only,
                Err(e) => !self.rules().read_only && e@ == not_read_only(),
            },
    {
        if self.policy.is_read_only() {
            Ok(())
        } else {
            Err(copy_str("critic 门禁要求只读策略（当前策略可写，拒绝评审）"))
        }
    }

    /// The decision on a request.
    pub fn decide(&self, request: &PermissionRequest) -> (r: Decision)
        ensures
            r == self.rules().decides(request.level, request.reason@),
    {
        self.policy.decision(request)
    }
}

pub open spec fn not_read_only() -> Seq<char> {
    "critic 门禁要求只读策略（当前策略可写，拒绝评审）"@
}

/// Behind a gate that only lets read, nothing but reading is ever allowed, and
/// nothing is ever asked for.
pub proof fn gate_only_reads(policy: Policy, level: crate::permissions::Level, reason: Seq<char>)
    requires
        policy.read_only,
    ensures
        policy.decides(level, reason) == Decision::Allow ==> level is Read,
        !(level is Read) ==> policy.decides(level, reason) == Decision::Deny,
        policy.decides(level, reason) != Decision::Ask,
{
}

/// A draft with what the critic made of it.
pub struct ReviewRound {
    pub draft: String,
    pub verdict: CriticVerdict,
}

/// What a round says.
pub struct RoundModel {
    pub draft: Seq<char>,
    pub verdict: VerdictModel,
}

impl View for ReviewRound {
    type V = RoundModel;

    open spec fn view(&self) -> RoundModel {
        RoundModel { draft: self.draft@, verdict: self.verdict@ }
    }
}

pub open spec fn round_models(v: Seq<ReviewRound>) -> Seq<RoundModel> {
    v.map_values(|r: ReviewRound| r@)
}

/// What came of the reviews.
pub struct ReviewOutcome {
    pub final_draft: String,
    pub rounds: u32,
    /// How often the author revised the draft.
    pub revisions: u32,
    pub approved: bool,
    pub history: Vec<ReviewRound>,
}

/// How reviews go.
pub struct CriticConfig {
    pub max_rounds: u32,
    /// A draft with this score passes.
    pub min_score: u8,
    pub gate: ReadOnlyGate,
}

impl CriticConfig {
    pub fn new(gate: ReadOnlyGate) -> (r: CriticConfig)
        ensures
            r == (CriticConfig { max_rounds: 2, min_score: 80, gate }),
    {
        CriticConfig { max_rounds: 2, min_score: 80, gate }
    }

    /// With at most this many rounds, but at least one.
    pub fn with_max_rounds(self, max_rounds: u32) -> (r: CriticConfig)
        ensures
            r == (CriticConfig {
                max_rounds: if max_rounds < 1 {
                    1
                } else {
                    max_rounds
                },
                ..self
            }),
    {
        CriticConfig {
            max_rounds: if max_rounds < 1 {
                1
            } else {
                max_rounds
            },
            min_score: self.min_score,
            gate: self.gate,
        }
    }

    /// With this score to reach, but at most a hundred.
    pub fn with_min_score(self, min_score: u8) -> (r: CriticConfig)
        ensures
            r == (CriticConfig {
                min_score: if min_score > 100 {
                    100
                } else {
                    min_score
                },
                ..self
            }),
    {
        CriticConfig {
            max_rounds: self.max_rounds,
            min_score: if min_score > 100 {
                100
            } else {
                min_score
            },
            gate: self.gate,
        }
    }
}

/// The rounds between author and critic as far as they have come.
pub struct ReviewLoop {
    pub max_rounds: u32,
    pub min_score: u8,
    pub draft: String,
    pub rounds: u32,
    pub revisions: u32,
    pub history: Vec<ReviewRound>,
}

/// What comes after a review.
pub enum ReviewNext {
    Done(ReviewOutcome),
    /// The author is to revise the draft by the comments.
    Revise { draft: String, feedback: Vec<String> },
    Fail(String),
}

/// A draft passes where the critic approves of it or its score is reached.
pub open spec fn passes(v: VerdictModel, min_score: u8) -> bool {
    v.approved || v.score >= min_score
}

impl ReviewLoop {
    /// A draft waits for its review: each round before has been revised once.
    pub open spec fn wf(self) -> bool {
        &&& self.rounds == self.revisions
        &&& self.history@.len() == self.rounds
        &&& self.rounds == 0 || self.rounds < self.max_rounds
        &&& forall|i: int|
            0 <= i < self.history@.len() ==> !passes((#[trigger] round_models(self.history@)[i]).verdict, self.min_score)
    }

    /// Starts with a draft, where the rules allow nothing but reading.
    pub fn start(config: &CriticConfig, initial_draft: String) -> (r: Result<ReviewLoop, String>)
        ensures
            match r {
                Ok(l) => {
                    &&& config.gate.rules().read_only
                    &&& l.wf()
                    &&& l.max_rounds == config.max_rounds
                    &&& l.min_score == config.min_score
                    &&& l.draft == initial_draft
                    &&& l.rounds == 0
                    &&& l.history@.len() == 0
                },
                Err(e) => !config.gate.rules().read_only && e@ == not_read_only(),
            },
    {
        match config.gate.ensure_read_only() {
            Ok(_) => {},
            Err(e) => {
                return Err(e);
            },
        }
        Ok(
            ReviewLoop {
                max_rounds: config.max_rounds,
                min_score: config.min_score,
                draft: initial_draft,
                rounds: 0,
                revisions: 0,
                history: Vec::new(),
            },
        )
    }

    /// How it goes on after a review: a draft that passes is final, and so is the
    /// draft of the last round; else the comments go back to the author.
    pub fn reviewed(&mut self, verdict: Result<CriticVerdict, String>) -> (r: ReviewNext)
        requires
            old(self).wf(),
        ensures
            match verdict {
                Err(e) => r == ReviewNext::Fail(e) && *final(self) == *old(self),
                Ok(v) => {
                    let history = round_models(old(self).history@).push(
                        RoundModel { draft: old(self).draft@, verdict: v@ },
                    );
                    &&& final(self).max_rounds == old(self).max_rounds
                    &&& final(self).min_score == old(self).min_score
                    &&& final(self).draft@ == old(self).draft@
                    &&& final(self).rounds == old(self).rounds + 1
                    &&& final(self).revisions == old(self).revisions
                    &&& round_models(final(self).history@) == history
                    &&& match r {
                        ReviewNext::Done(o) => {
                            &&& passes(v@, old(self).min_score) || old(self).rounds + 1 >= old(self).max_rounds
                            &&& o.approved == passes(v@, old(self).min_score)
                            &&& o.final_draft@ == old(self).draft@
                            &&& o.rounds == old(self).rounds + 1
                            &&& o.revisions == old(self).revisions
                            &&& round_models(o.history@) == history
                        },
                        ReviewNext::Revise { draft, feedback } => {
                            &&& !passes(v@, old(self).min_score) && old(self).rounds + 1 < old(self).max_rounds
                            &&& draft@ == old(self).draft@
                            &&& texts(feedback@) == v@.comments
                        },
                        ReviewNext::Fail(_) => r is Done,
                    }
                },
            },
    {
        let verdict = match verdict {
            Ok(v) => v,
            Err(e) => {
                return ReviewNext::Fail(e);
            },
        };
        let ghost before = self.history@;
        self.rounds = self.rounds + 1;
        let approved = verdict.approved || verdict.score >= self.min_score;
        let feedback = copy_strings(&verdict.comments);
        let round = ReviewRound { draft: self.draft.clone(), verdict };
        let ghost m = round@;
        self.history.push(round);
        assert(round_models(self.history@) =~= round_models(before).push(m));
        if approved || self.rounds >= self.max_rounds {
            let history = copy_rounds(&self.history);
            return ReviewNext::Done(
                ReviewOutcome {
                    final_draft: self.draft.clone(),
                    rounds: self.rounds,
                    revisions: self.revisions,
                    approved,
                    history,
                },
            );
        }
        ReviewNext::Revise { draft: self.draft.clone(), feedback }
    }

    /// Takes in what the author made of the comments.
    pub fn revised(&mut self, draft: Result<String, String>) -> (r: Result<(), String>)
        requires
            old(self).rounds == old(self).revisions + 1,
            old(self).history@.len() == old(self).rounds,
            old(self).rounds < old(self).max_rounds,
            forall|i: int|
                0 <= i < old(self).history@.len() ==> !passes(
                    (#[trigger] round_models(old(self).history@)[i]).verdict,
                    old(self).min_score,
                ),
        ensures
            match draft {
                Ok(d) => {
                    &&& r is Ok
                    &&& final(self).wf()
                    &&& *final(self) == (ReviewLoop { draft: d, revisions: old(self).rounds, ..*old(self) })
                },
                Err(e) => r == Err::<(), String>(e) && *final(self) == *old(self),
            },
    {
        match draft {
            Ok(d) => {
                self.draft = d;
                self.revisions = self.revisions + 1;
                Ok(())
            },
            Err(e) => Err(e),
        }
    }
}

fn copy_rounds(v: &Vec<ReviewRound>) -> (r: Vec<ReviewRound>)
    ensures
        round_models(r@) == round_models(v@),
{
    let mut r: Vec<ReviewRound> = Vec::new();
    for i in 0..v.len()
        invariant
            r@.len() == i,
            forall|j: int| 0 <= j < i ==> (#[trigger] r@[j])@ == v@[j]@,
    {
        r.push(ReviewRound { draft: v[i].draft.clone(), verdict: v[i].verdict.clone() });
    }
    assert(round_models(r@) =~= round_models(v@));
    r
}

/// A draft that waits for its review makes at most as many rounds as there may
/// be, and at least one.
pub proof fn rounds_are_bounded(l: ReviewLoop)
    requires
        l.wf(),
    ensures
        1 <= l.rounds + 1 <= (if l.max_rounds < 1 {
            1
        } else {
            l.max_rounds as int
        }),
        l.revisions == l.rounds,
{
}

// ---------------------------------------------------------------------------
// Agreement
// ---------------------------------------------------------------------------

/// What a critic and a person made of the same draft.
#[derive(Debug, Clone, Copy, PartialEq, Eq, Structural)]
pub struct SamplePair {
    pub critic_approved: bool,
    pub human_approved: bool,
}

/// How often critic and people agree.
#[derive(Debug, Clone, Copy, PartialEq, Eq, Structural)]
pub struct ConsistencyReport {
    pub total: usize,
    pub agreed: usize,
}

/// The pairs in which both agree.
pub open spec fn agreements(v: Seq<SamplePair>) -> nat
    decreases v.len(),
{
    if v.len() == 0 {
        0
    } else {
        agreements(v.drop_last()) + (if v.last().critic_approved == v.last().human_approved {
            1nat
        } else {
            0nat
        })
    }
}

impl ConsistencyReport {
    /// Counts the pairs and the agreements.
    pub fn of(samples: &Vec<SamplePair>) -> (r: ConsistencyReport)
        ensures
            r.total == samples@.len(),
            r.agreed == agreements(samples@),
            r.agreed <= r.total,
    {
        let mut agreed: usize = 0;
        for i in 0..samples.len()
            invariant
                agreed == agreements(samples@.take(i as int)),
                agreed <= i,
        {
            assert(samples@.take(i + 1).drop_last() =~= samples@.take(i as int));
            if samples[i].critic_approved == samples[i].human_approved {
                agreed += 1;
            }
        }
        assert(samples@.take(samples@.len() as int) =~= samples@);
        ConsistencyReport { total: samples.len(), agreed }
    }

    /// Whether the share of agreements reaches the threshold; without samples it
    /// counts as whole.
    pub fn is_acceptable(&self, threshold: &Ratio) -> (r: bool)
        ensures
            r == (if self.total == 0 {
                threshold.num <= threshold.den
            } else {
                self.agreed * threshold.den >= threshold.num * self.total
            }),
    {
        if self.total == 0 {
            threshold.num <= threshold.den
        } else {
            assert(self.agreed * threshold.den <= u64::MAX * u32::MAX) by (nonlinear_arith)
                requires
                    self.agreed <= u64::MAX,
                    threshold.den <= u32::MAX,
            ;
            assert(threshold.num * self.total <= u64::MAX * u32::MAX) by (nonlinear_arith)
                requires
                    self.total <= u64::MAX,
                    threshold.num <= u32::MAX,
            ;
            self.agreed as u128 * threshold.den as u128 >= threshold.num as u128 * self.total as u128
        }
    }
}

/// Plays verdicts in their order; when they run out it approves.
pub struct ScriptedCritic {
    script: Vec<CriticVerdict>,
}

impl ScriptedCritic {
    /// The verdicts that are left.
    pub closed spec fn left(self) -> Seq<VerdictModel> {
        self.script@.map_values(|v: CriticVerdict| v@)
    }

    pub fn new(verdicts: Vec<CriticVerdict>) -> (r: ScriptedCritic)
        ensures
            r.left() == verdicts@.map_values(|v: CriticVerdict| v@),
    {
        ScriptedCritic { script: verdicts }
    }

    /// Approves of everything.
    pub fn approving() -> (r: ScriptedCritic)
        ensures
            r.left() == seq![approval(100)],
    {
        let mut v: Vec<CriticVerdict> = Vec::new();
        v.push(CriticVerdict::approve(100));
        let r = ScriptedCritic::new(v);
        assert(r.left() =~= seq![approval(100)]);
        r
    }

    /// The next verdict.
    pub fn review(&mut self) -> (r: CriticVerdict)
        ensures
            if old(self).left().len() == 0 {
                r@ == approval(100) && final(self).left() == old(self).left()
            } else {
                r@ == old(self).left()[0] && final(self).left() == old(self).left().skip(1)
            },
    {
        if self.script.len() == 0 {
            return CriticVerdict::approve(100);
        }
        let v = self.script.remove(0);
        assert(self.left() =~= old(self).left().skip(1));
        v
    }
}

/// A draft passes if it is approved or its score is high enough, and only then.
pub proof fn approved_or_good_enough_passes(v: VerdictModel, min_score: u8)
    ensures
        v.approved ==> passes(v, min_score),
        !v.approved ==> (passes(v, min_score) <==> v.score >= min_score),
        approval(v.score).approved && approval(v.score).score == v.score && approval(v.score).comments.len() == 0,
{
}

/// Critic and human agree on a sample if both approve or both do not; as many
/// agreements are counted as there are such samples.
pub proof fn agreements_are_counted(v: Seq<SamplePair>, s: SamplePair)
    ensures
        agreements(seq![]) == 0,
        s.critic_approved == s.human_approved ==> agreements(v.push(s)) == agreements(v) + 1,
        s.critic_approved != s.human_approved ==> agreements(v.push(s)) == agreements(v),
        agreements(v) <= v.len(),
    decreases v.len(),
{
    assert(v.push(s).drop_last() =~= v);
    if v.len() > 0 {
        agreements_are_counted(v.drop_last(), s);
    }
}

} // verus!
