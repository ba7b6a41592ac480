//! Plans: steps that depend on each other.

use crate::json::Json;
use crate::text::{contains_string, copy_str, same_text, texts};
use vstd::prelude::*;

verus! {

/// How far a step is.
#[derive(Debug, Clone, Copy, PartialEq, Eq, Structural)]
pub enum StepStatus {
    Pending,
    Running,
    Succeeded,
    Failed,
    Aborted,
}

impl StepStatus {
    /// The step may still be run.
    pub open spec fn resumable(self) -> bool {
        self is Pending || self is Running
    }

    /// Whether the step may still be run.
    pub fn can_resume(self) -> (r: bool)
        ensures
            r == self.resumable(),
    {
        matches!(self, StepStatus::Pending | StepStatus::Running)
    }

    /// Whether the step has come to an end.
    pub fn is_terminal(self) -> (r: bool)
        ensures
            r == !self.resumable(),
    {
        !matches!(self, StepStatus::Pending | StepStatus::Running)
    }
}

/// A condition on an output, in the form that whoever tests outputs reads.
pub struct VerificationSpec {
    pub rule: Json,
}

/// A step of a plan.
pub struct StepSpec {
    pub id: String,
    pub worker: String,
    pub input: Json,
    pub depends_on: Vec<String>,
    pub retries: u32,
    pub verify: Option<VerificationSpec>,
}

/// The steps towards a goal.
pub struct Plan {
    pub id: String,
    pub goal_id: String,
    pub steps: Vec<StepSpec>,
}

/// The position of the first step named `id` at or after `from`.
pub open spec fn step_index(steps: Seq<StepSpec>, id: Seq<char>, from: int) -> Option<int>
    decreases steps.len() - from,
{
    if from < 0 || from >= steps.len() {
        None
    } else if steps[from].id@ == id {
        Some(from)
    } else {
        step_index(steps, id, from + 1)
    }
}

/// What the step named `id` depends on directly.
pub open spec fn needs(steps: Seq<StepSpec>, id: Seq<char>) -> Seq<Seq<char>> {
    match step_index(steps, id, 0) {
        Some(i) => texts(steps[i].depends_on@),
        None => seq![],
    }
}

/// `p` leads from one of `first` along dependencies.
pub open spec fn need_path(steps: Seq<StepSpec>, first: Seq<Seq<char>>, p: Seq<Seq<char>>) -> bool {
    &&& p.len() >= 1
    &&& first.contains(p[0])
    &&& forall|i: int| 0 <= i < p.len() - 1 ==> needs(steps, #[trigger] p[i]).contains(p[i + 1])
}

/// Along dependencies one of the `targets` is met, from one of `first` on.
pub open spec fn needs_any(steps: Seq<StepSpec>, first: Seq<Seq<char>>, targets: Seq<Seq<char>>) -> bool {
    exists|p: Seq<Seq<char>>| #[trigger] need_path(steps, first, p) && targets.contains(p.last())
}

proof fn step_index_bounds(steps: Seq<StepSpec>, id: Seq<char>, from: int)
    requires
        0 <= from,
    ensures
        step_index(steps, id, from) matches Some(i) ==> from <= i < steps.len() && steps[i].id@ == id,
        step_index(steps, id, from) is None ==> forall|i: int|
            from <= i < steps.len() ==> #[trigger] steps[i].id@ != id,
    decreases steps.len() - from,
{
    if from < steps.len() && steps[from].id@ != id {
        step_index_bounds(steps, id, from + 1);
    }
}

impl Plan {
    /// A plan without steps.
    pub fn new(id: &str, goal_id: &str) -> (r: Plan)
        ensures
            r.id@ == id@,
            r.goal_id@ == goal_id@,
            r.steps@.len() == 0,
    {
        Plan { id: copy_str(id), goal_id: copy_str(goal_id), steps: Vec::new() }
    }

    /// The position of the first step named `id`.
    pub fn find(&self, id: &str) -> (r: Option<usize>)
        ensures
            match r {
                Some(i) => step_index(self.steps@, id@, 0) == Some(i as int) && i < self.steps@.len()
                    && self.steps@[i as int].id@ == id@,
                None => step_index(self.steps@, id@, 0) is None,
            },
    {
        let mut i: usize = 0;
        while i < self.steps.len()
            invariant
                i <= self.steps@.len(),
                step_index(self.steps@, id@, 0) == step_index(self.steps@, id@, i as int),
            decreases self.steps@.len() - i,
        {
            if same_text(self.steps[i].id.as_str(), id) {
                return Some(i);
            }
            i += 1;
        }
        None
    }

    /// The first step named `id`.
    pub fn step(&self, id: &str) -> (r: Option<&StepSpec>)
        ensures
            match r {
                Some(s) => step_index(self.steps@, id@, 0) matches Some(i) && *s == self.steps@[i],
                None => step_index(self.steps@, id@, 0) is None,
            },
    {
        match self.find(id) {
            Some(i) => Some(&self.steps[i]),
            None => None,
        }
    }
}

/// The names that stand in `first` or in the dependencies of a step.
spec fn universe(steps: Seq<StepSpec>, first: Seq<Seq<char>>) -> Set<Seq<char>>
    decreases steps.len(),
{
    if steps.len() == 0 {
        first.to_set()
    } else {
        universe(steps.drop_last(), first).union(texts(steps.last().depends_on@).to_set())
    }
}

proof fn universe_finite(steps: Seq<StepSpec>, first: Seq<Seq<char>>)
    ensures
        universe(steps, first).finite(),
        forall|k: Seq<char>| first.contains(k) ==> #[trigger] universe(steps, first).contains(k),
        forall|i: int, k: Seq<char>|
            0 <= i < steps.len() && #[trigger] texts(steps[i].depends_on@).contains(k) ==> universe(steps, first).contains(k),
    decreases steps.len(),
{
    vstd::seq_lib::seq_to_set_is_finite(first);
    if steps.len() > 0 {
        universe_finite(steps.drop_last(), first);
        vstd::seq_lib::seq_to_set_is_finite(texts(steps.last().depends_on@));
        assert forall|i: int, k: Seq<char>| 0 <= i < steps.len() && #[trigger] texts(steps[i].depends_on@).contains(k) implies universe(
            steps,
            first,
        ).contains(k) by {
            if i < steps.len() - 1 {
                assert(texts(steps.drop_last()[i].depends_on@).contains(k));
            }
        }
    }
}

proof fn distinct_within(s: Seq<Seq<char>>, u: Set<Seq<char>>)
    requires
        u.finite(),
        s.no_duplicates(),
        forall|i: int| 0 <= i < s.len() ==> u.contains(#[trigger] s[i]),
    ensures
        s.len() <= u.len(),
{
    s.unique_seq_to_set();
    assert(s.to_set().subset_of(u)) by {
        assert forall|k: Seq<char>| s.to_set().contains(k) implies u.contains(k) by {
            let i = choose|i: int| 0 <= i < s.len() && s[i] == k;
            assert(u.contains(s[i]));
        }
    }
    vstd::set_lib::lemma_len_subset(s.to_set(), u);
}

/// `k` is met along dependencies.
spec fn met(steps: Seq<StepSpec>, first: Seq<Seq<char>>, k: Seq<char>) -> bool {
    exists|p: Seq<Seq<char>>| #[trigger] need_path(steps, first, p) && p.last() == k
}

/// Every name that is to be looked at is met along dependencies.
spec fn all_met(steps: Seq<StepSpec>, first: Seq<Seq<char>>, names: Seq<Seq<char>>) -> bool {
    forall|i: int| 0 <= i < names.len() ==> met(steps, first, #[trigger] names[i])
}

proof fn first_are_met(steps: Seq<StepSpec>, first: Seq<Seq<char>>)
    ensures
        all_met(steps, first, first),
{
    assert forall|i: int| 0 <= i < first.len() implies met(steps, first, #[trigger] first[i]) by {
        let p = seq![first[i]];
        assert(first.contains(first[i]));
        assert(p[0] == first[i]);
        assert(need_path(steps, first, p));
        assert(p.last() == first[i]);
    }
}

proof fn needs_of_met(steps: Seq<StepSpec>, first: Seq<Seq<char>>, k: Seq<char>, d: Seq<char>)
    requires
        met(steps, first, k),
        needs(steps, k).contains(d),
    ensures
        met(steps, first, d),
{
    let p = choose|p: Seq<Seq<char>>| #[trigger] need_path(steps, first, p) && p.last() == k;
    path_extends(steps, first, p, d);
}

proof fn path_extends(steps: Seq<StepSpec>, first: Seq<Seq<char>>, p: Seq<Seq<char>>, k: Seq<char>)
    requires
        need_path(steps, first, p),
        needs(steps, p.last()).contains(k),
    ensures
        need_path(steps, first, p.push(k)),
        p.push(k).last() == k,
{
    let q = p.push(k);
    assert forall|i: int| 0 <= i < q.len() - 1 implies needs(steps, #[trigger] q[i]).contains(q[i + 1]) by {
        if i < p.len() - 1 {
            assert(needs(steps, p[i]).contains(p[i + 1]));
        }
    }
}

/// A path stays within names that are closed under dependencies.
proof fn path_stays(steps: Seq<StepSpec>, first: Seq<Seq<char>>, seen: Seq<Seq<char>>, p: Seq<Seq<char>>, i: int)
    requires
        need_path(steps, first, p),
        forall|k: Seq<char>| #[trigger] first.contains(k) ==> seen.contains(k),
        forall|k: Seq<char>, d: Seq<char>| seen.contains(k) && #[trigger] needs(steps, k).contains(d) ==> seen.contains(d),
        0 <= i < p.len(),
    ensures
        seen.contains(p[i]),
    decreases i,
{
    if i > 0 {
        path_stays(steps, first, seen, p, i - 1);
        assert(needs(steps, p[i - 1]).contains(p[i - 1 + 1]));
    }
}

/// Whether one of the `targets` is met along dependencies, from one of `first` on.
pub fn depends_on_any(plan: &Plan, first: &Vec<String>, targets: &Vec<String>) -> (r: bool)
    ensures
        r == needs_any(plan.steps@, texts(first@), texts(targets@)),
{
    let ghost steps = plan.steps@;
    let ghost start = texts(first@);
    let ghost goal = texts(targets@);
    let ghost u = universe(steps, start);
    let mut stack: Vec<String> = Vec::new();
    let mut seen: Vec<String> = Vec::new();
    proof {
        universe_finite(steps, start);
    }
    for i in 0..first.len()
        invariant
            stack@ == first@.take(i as int),
    {
        stack.push(first[i].clone());
        assert(first@.take(i + 1) =~= first@.take(i as int).push(first@[i as int]));
    }
    assert(stack@ =~= first@);
    proof {
        first_are_met(steps, start);
        assert forall|k: Seq<char>| #[trigger] start.contains(k) implies texts(seen@).contains(k) || texts(stack@).contains(k) by {}
    }
    while stack.len() > 0
        invariant
            steps == plan.steps@,
            start == texts(first@),
            goal == texts(targets@),
            u == universe(steps, start),
            u.finite(),
            all_met(steps, start, texts(stack@)),
            texts(seen@).no_duplicates(),
            texts(seen@).len() <= u.len(),
            forall|i: int| 0 <= i < seen@.len() ==> u.contains(#[trigger] texts(seen@)[i]),
            forall|i: int| 0 <= i < stack@.len() ==> u.contains(#[trigger] texts(stack@)[i]),
            forall|i: int| 0 <= i < seen@.len() ==> !goal.contains(#[trigger] texts(seen@)[i]),
            forall|k: Seq<char>|
                #[trigger] start.contains(k) ==> texts(seen@).contains(k) || texts(stack@).contains(k),
            forall|k: Seq<char>, d: Seq<char>|
                texts(seen@).contains(k) && #[trigger] needs(steps, k).contains(d) ==> texts(seen@).contains(d) || texts(
                    stack@,
                ).contains(d),
        decreases u.len() - seen@.len(), stack@.len(),
    {
        let ghost stack0 = texts(stack@);
        let ghost seen0 = texts(seen@);
        let dep = match stack.pop() {
            Some(d) => d,
            None => copy_str(""),
        };
        let ghost d = dep@;
        proof {
            assert(texts(stack@) =~= stack0.drop_last());
            assert(d == stack0.last());
            assert forall|k: Seq<char>| stack0.contains(k) implies k == d || texts(stack@).contains(k) by {
                let i = choose|i: int| 0 <= i < stack0.len() && stack0[i] == k;
                if i < stack0.len() - 1 {
                    assert(texts(stack@)[i] == k);
                }
            }
            assert(u.contains(stack0[stack0.len() - 1]));
        }
        if contains_string(targets, dep.as_str()) {
            proof {
                assert(met(steps, start, stack0[stack0.len() - 1]));
                let p = choose|p: Seq<Seq<char>>| #[trigger] need_path(steps, start, p) && p.last() == d;
                assert(goal.contains(p.last()));
            }
            return true;
        }
        proof {
            assert(met(steps, start, stack0[stack0.len() - 1]));
            assert forall|i: int| 0 <= i < texts(stack@).len() implies met(steps, start, #[trigger] texts(stack@)[i]) by {
                assert(texts(stack@)[i] == stack0[i]);
            }
        }
        if !contains_string(&seen, dep.as_str()) {
            proof {
                step_index_bounds(steps, d, 0);
            }
            seen.push(dep);
            proof {
                assert(texts(seen@) =~= seen0.push(d));
                distinct_within(texts(seen@), u);
                assert forall|k: Seq<char>| texts(seen@).contains(k) <==> seen0.contains(k) || k == d by {
                    if seen0.contains(k) {
                        let i = choose|i: int| 0 <= i < seen0.len() && seen0[i] == k;
                        assert(texts(seen@)[i] == k);
                    }
                    if k == d {
                        assert(texts(seen@)[seen0.len() as int] == k);
                    }
                }
            }
            let ghost rest = texts(stack@);
            match plan.find(seen[seen.len() - 1].as_str()) {
                Some(i) => {
                    let ghost more = texts(steps[i as int].depends_on@);
                    assert(needs(steps, d) == more);
                    push_all(&mut stack, &plan.steps[i].depends_on);
                    proof {
                        assert(texts(stack@) =~= rest + more);
                        assert forall|j: int| 0 <= j < texts(stack@).len() implies u.contains(#[trigger] texts(stack@)[j]) && met(
                            steps,
                            start,
                            texts(stack@)[j],
                        ) by {
                            if j < rest.len() {
                                assert(texts(stack@)[j] == rest[j]);
                            } else {
                                let k = texts(stack@)[j];
                                assert(more[j - rest.len()] == k);
                                assert(more.contains(k));
                                needs_of_met(steps, start, d, k);
                                universe_finite(steps, start);
                                assert(u.contains(k));
                            }
                        }
                        assert forall|k: Seq<char>| rest.contains(k) || more.contains(k) implies texts(stack@).contains(k) by {
                            if rest.contains(k) {
                                let j = choose|j: int| 0 <= j < rest.len() && rest[j] == k;
                                assert(texts(stack@)[j] == k);
                            } else {
                                let j = choose|j: int| 0 <= j < more.len() && more[j] == k;
                                assert(texts(stack@)[rest.len() + j] == k);
                            }
                        }
                    }
                },
                None => {
                    assert(needs(steps, d) =~= seq![]);
                },
            }
        }
    }
    proof {
        assert(texts(stack@).len() == 0);
        if needs_any(steps, start, goal) {
            let p = choose|p: Seq<Seq<char>>| #[trigger] need_path(steps, start, p) && goal.contains(p.last());
            path_stays(steps, start, texts(seen@), p, p.len() - 1);
            let i = choose|i: int| 0 <= i < texts(seen@).len() && texts(seen@)[i] == p[p.len() - 1];
            assert(!goal.contains(texts(seen@)[i]));
        }
    }
    false
}

fn push_all(stack: &mut Vec<String>, more: &Vec<String>)
    ensures
        final(stack)@ == old(stack)@ + more@,
{
    let ghost before = stack@;
    for i in 0..more.len()
        invariant
            stack@ == before + more@.take(i as int),
    {
        stack.push(more[i].clone());
        assert(before + more@.take(i + 1) =~= (before + more@.take(i as int)).push(more@[i as int]));
    }
    assert(more@.take(more@.len() as int) =~= more@);
}

// ---------------------------------------------------------------------------
// Laws
// ---------------------------------------------------------------------------

/// A step may still be run while it is waiting or under way, and no longer once it
/// has succeeded, failed or was given up.
pub proof fn ended_steps_stay_ended(s: StepStatus)
    ensures
        StepStatus::Pending.resumable() && StepStatus::Running.resumable(),
        s is Succeeded || s is Failed || s is Aborted ==> !s.resumable(),
{
}

/// The step that a name leads to has that name, and none before it has; where no
/// step has the name, it leads to none.
pub proof fn names_lead_to_the_first_step(steps: Seq<StepSpec>, id: Seq<char>, i: int)
    requires
        0 <= i < steps.len(),
        steps[i].id@ == id,
    ensures
        step_index(steps, id, 0) matches Some(n) && 0 <= n <= i && steps[n].id@ == id && forall|j: int|
            0 <= j < n ==> (#[trigger] steps[j]).id@ != id,
{
    first_step(steps, id, 0);
    if step_index(steps, id, 0) is None {
        assert(steps[i].id@ != id);
    } else {
        let n = step_index(steps, id, 0)->0;
        if n > i {
            assert(steps[i].id@ != id);
        }
    }
}

proof fn first_step(steps: Seq<StepSpec>, id: Seq<char>, from: int)
    requires
        0 <= from,
    ensures
        step_index(steps, id, from) matches Some(n) ==> from <= n < steps.len() && steps[n].id@ == id && forall|j: int|
            from <= j < n ==> (#[trigger] steps[j]).id@ != id,
        step_index(steps, id, from) is None ==> forall|j: int| from <= j < steps.len() ==> (#[trigger] steps[j]).id@ != id,
    decreases steps.len() - from,
{
    if from < steps.len() && steps[from].id@ != id {
        first_step(steps, id, from + 1);
    }
}

/// What is named is met; and what a step that is met depends on is met too, step
/// after step.
pub proof fn dependencies_carry_on(
    steps: Seq<StepSpec>,
    first: Seq<Seq<char>>,
    targets: Seq<Seq<char>>,
    j: int,
    i: int,
)
    requires
        0 <= j < first.len(),
    ensures
        targets.contains(first[j]) ==> needs_any(steps, first, targets),
        0 <= i < steps.len() && steps[i].id@ == first[j] && (forall|l: int|
            0 <= l < i ==> (#[trigger] steps[l]).id@ != first[j]) && needs_any(
            steps,
            texts(steps[i].depends_on@),
            targets,
        ) ==> needs_any(steps, first, targets),
{
    if targets.contains(first[j]) {
        let p = seq![first[j]];
        assert(need_path(steps, first, p));
        assert(targets.contains(p.last()));
    }
    if 0 <= i < steps.len() && steps[i].id@ == first[j] && (forall|l: int|
        0 <= l < i ==> (#[trigger] steps[l]).id@ != first[j]) && needs_any(steps, texts(steps[i].depends_on@), targets) {
        names_lead_to_the_first_step(steps, first[j], i);
        let q = choose|p: Seq<Seq<char>>| #[trigger] need_path(steps, texts(steps[i].depends_on@), p) && targets.contains(p.last());
        let p = seq![first[j]] + q;
        assert forall|l: int| 0 <= l < p.len() - 1 implies needs(steps, #[trigger] p[l]).contains(p[l + 1]) by {
            if l == 0 {
                assert(step_index(steps, first[j], 0) == Some(i));
                assert(p[1] == q[0]);
            } else {
                assert(p[l] == q[l - 1] && p[l + 1] == q[l]);
                assert(needs(steps, q[l - 1]).contains(q[l - 1 + 1]));
            }
        }
        assert(p[0] == first[j]);
        assert(need_path(steps, first, p));
        assert(p.last() == q.last());
    }
}

/// Steps that depend on nothing but each other never meet a step that is none of
/// them.
pub proof fn closed_parts_meet_no_others(
    steps: Seq<StepSpec>,
    first: Seq<Seq<char>>,
    targets: Seq<Seq<char>>,
    part: Set<Seq<char>>,
)
    requires
        forall|j: int| 0 <= j < first.len() ==> part.contains(#[trigger] first[j]),
        forall|i: int, j: int|
            0 <= i < steps.len() && part.contains((#[trigger] steps[i]).id@) && 0 <= j < steps[i].depends_on@.len()
                ==> part.contains((#[trigger] steps[i].depends_on@[j])@),
        forall|j: int| 0 <= j < targets.len() ==> !part.contains(#[trigger] targets[j]),
    ensures
        !needs_any(steps, first, targets),
{
    if needs_any(steps, first, targets) {
        let p = choose|p: Seq<Seq<char>>| #[trigger] need_path(steps, first, p) && targets.contains(p.last());
        stays_in_the_part(steps, first, part, p, p.len() - 1);
        let j = choose|j: int| 0 <= j < targets.len() && targets[j] == p.last();
        assert(!part.contains(targets[j]));
    }
}

proof fn stays_in_the_part(
    steps: Seq<StepSpec>,
    first: Seq<Seq<char>>,
    part: Set<Seq<char>>,
    p: Seq<Seq<char>>,
    n: int,
)
    requires
        need_path(steps, first, p),
        0 <= n < p.len(),
        forall|j: int| 0 <= j < first.len() ==> part.contains(#[trigger] first[j]),
        forall|i: int, j: int|
            0 <= i < steps.len() && part.contains((#[trigger] steps[i]).id@) && 0 <= j < steps[i].depends_on@.len()
                ==> part.contains((#[trigger] steps[i].depends_on@[j])@),
    ensures
        part.contains(p[n]),
    decreases n,
{
    if n == 0 {
        let j = choose|j: int| 0 <= j < first.len() && first[j] == p[0];
        assert(part.contains(first[j]));
    } else {
        stays_in_the_part(steps, first, part, p, n - 1);
        let from = p[n - 1];
        assert(needs(steps, from).contains(p[n - 1 + 1]));
        step_index_bounds(steps, from, 0);
        let i = step_index(steps, from, 0)->0;
        let ds = texts(steps[i].depends_on@);
        let j = choose|j: int| 0 <= j < ds.len() && ds[j] == p[n];
        assert(steps[i].depends_on@[j]@ == p[n]);
    }
}

} // verus!
