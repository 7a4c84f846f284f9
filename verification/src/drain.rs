//! Draining a node, and the budgets that are never met by force.
//!
//! Three strategies, and which one applies is a property of the workload rather
//! than of the node. A measurement and a CI job run to completion. A
//! devcontainer moves, up to a cap. What is bound to a disk inside the node goes
//! down with it, and the plan says so.
use vstd::prelude::*;

use crate::named::{is_listed, listed};
use crate::order::{
    ascending,
    ascending_keys_are_unique,
    in_order,
    key_less,
    key_views,
    order_of,
    order_of_is_a_stable_order,
    precedes,
    stable_order,
    stable_order_is_a_permutation,
    text_less,
    text_less_trichotomy,
    Key,
};
use crate::text::{decimal, decimal_of, same};

verus! {

/// What a node is running that a rollout has to deal with.
#[derive(Debug, PartialEq, Eq)]
pub struct Workload {
    /// Stable identifier: a session id, a runner name, a unit name.
    pub id: String,
    /// Which budget class it falls under.
    pub class: WorkloadClass,
    /// Declared memory, for the migration capacity cap.
    pub memory_gib: u32,
    /// Seconds since this workload was last attached to, for ordering the
    /// migration queue.
    pub idle_seconds: u64,
}

/// The classes that have a budget.
#[derive(Debug, Clone, Copy, PartialEq, Eq, Structural)]
pub enum WorkloadClass {
    /// A measurement in flight. Never killed, never migrated.
    BenchJob,
    /// A CI job on an ephemeral runner.
    CiJob,
    /// A devcontainer, which is the only thing that moves.
    Devcontainer,
    /// Bound to a disk physically inside the storage node.
    StorageService,
}

/// What to do with one workload.
#[derive(Debug, PartialEq, Eq)]
pub enum Strategy {
    /// Let it finish; stop re-registering the runner that would take another.
    Wait,
    /// Move it to the migration target.
    Migrate {
        /// The node that receives it.
        to: String,
    },
    /// Stop it, with notice to its owner. The session survives; the process
    /// does not.
    StopWithNotice {
        /// Why it is being stopped rather than moved, in the notice's words.
        because: String,
    },
    /// It goes down with the node, and the window is stated.
    CannotMove {
        /// The stated unavailability window.
        window: String,
    },
}

/// What a [`Strategy`] says, as values.
pub enum Course {
    Wait,
    Migrate { to: Seq<char> },
    StopWithNotice { because: Seq<char> },
    CannotMove { window: Seq<char> },
}

impl View for Strategy {
    type V = Course;

    open spec fn view(&self) -> Course {
        match self {
            Strategy::Wait => Course::Wait,
            Strategy::Migrate { to } => Course::Migrate { to: to@ },
            Strategy::StopWithNotice { because } => Course::StopWithNotice { because: because@ },
            Strategy::CannotMove { window } => Course::CannotMove { window: window@ },
        }
    }
}

/// One workload and what will happen to it.
#[derive(Debug, PartialEq, Eq)]
pub struct Step {
    /// Which workload.
    pub workload: Workload,
    /// What happens to it.
    pub strategy: Strategy,
}

/// The plan for draining one node.
#[derive(Debug, PartialEq, Eq)]
pub struct Plan {
    /// Every workload, in the order it will be handled.
    pub steps: Vec<Step>,
}

/// Where a drain may send work, and how much of it.
#[derive(Debug)]
pub struct Capacity {
    /// The only node that can receive devcontainers.
    pub target: String,
    /// Nodes that receive no migrated workload under any circumstance.
    pub never_receives: Vec<String>,
    /// Beyond this, the excess is stopped with notice.
    pub memory_cap_gib: u32,
}

/// One budget.
#[derive(Debug)]
pub struct Budget {
    /// The class it applies to.
    pub class: String,
    /// The per-item budget.
    pub seconds: u64,
    /// What happens when it is exceeded.
    pub on_exceed: OnExceed,
}

/// What happens when a budget is exceeded.
#[derive(Debug, Clone, Copy, PartialEq, Eq, Structural)]
pub enum OnExceed {
    /// Halt the rollout and alert. Never kill the work.
    Halt,
    /// Stop the remainder with notice and continue.
    StopWithNotice,
}

/// The outcome of measuring a drain against its budgets.
#[derive(Debug, PartialEq, Eq)]
pub enum BudgetOutcome {
    /// Inside every budget.
    WithinBudget,
    /// A budget was exceeded and the rollout halts.
    Halt {
        /// Which class.
        class: String,
        /// How long it took.
        elapsed_s: u64,
        /// What it was allowed.
        budget_s: u64,
    },
    /// A budget was exceeded and the remainder is stopped with notice.
    StopRemainder {
        /// Which class.
        class: String,
        /// How long it took.
        elapsed_s: u64,
        /// What it was allowed.
        budget_s: u64,
    },
}

impl WorkloadClass {
    /// The budget class name, as the policy spells it.
    pub open spec fn budget_spec(self) -> Seq<char> {
        match self {
            WorkloadClass::BenchJob => "bench-job"@,
            WorkloadClass::CiJob => "ci-job"@,
            WorkloadClass::Devcontainer => "devcontainer-migration"@,
            WorkloadClass::StorageService => "total"@,
        }
    }

    /// The budget class name, as the policy spells it.
    pub fn budget_class(self) -> (r: &'static str)
        ensures
            r@ == self.budget_spec(),
    {
        match self {
            WorkloadClass::BenchJob => "bench-job",
            WorkloadClass::CiJob => "ci-job",
            WorkloadClass::Devcontainer => "devcontainer-migration",
            WorkloadClass::StorageService => "total",
        }
    }
}

impl Workload {
    /// A copy of the workload.
    pub fn copy(&self) -> (r: Workload)
        ensures
            r == *self,
    {
        Workload {
            id: self.id.clone(),
            class: self.class,
            memory_gib: self.memory_gib,
            idle_seconds: self.idle_seconds,
        }
    }
}

// ---- the decision ----

/// The positions of the devcontainers among the first `n` workloads.
pub open spec fn containers(workloads: Seq<Workload>, n: int) -> Seq<int>
    decreases n,
{
    if n <= 0 {
        Seq::empty()
    } else if workloads[n - 1].class == WorkloadClass::Devcontainer {
        containers(workloads, n - 1).push(n - 1)
    } else {
        containers(workloads, n - 1)
    }
}

/// What devcontainers are ordered by: how long they have been idle, then their
/// identifier.
pub open spec fn idle_keys(workloads: Seq<Workload>, at: Seq<int>) -> Seq<(int, Seq<char>)> {
    Seq::new(at.len(), |i: int| (workloads[at[i]].idle_seconds as int, workloads[at[i]].id@))
}

/// The positions of the devcontainers, most recently attached first.
pub open spec fn queue(workloads: Seq<Workload>) -> Seq<int> {
    let at = containers(workloads, workloads.len() as int);
    in_order(at, idle_keys(workloads, at))
}

/// The memory left of `cap` when the first `n` of the queue have been asked,
/// each taking what it needs where that is left.
pub open spec fn left(workloads: Seq<Workload>, queue: Seq<int>, cap: int, n: int) -> int
    decreases n,
{
    if n <= 0 {
        cap
    } else {
        let before = left(workloads, queue, cap, n - 1);
        let needs = workloads[queue[n - 1]].memory_gib;
        if needs <= before {
            before - needs
        } else {
            before
        }
    }
}

/// The positions among the first `n` of the queue that fit under the cap.
pub open spec fn fitting(workloads: Seq<Workload>, queue: Seq<int>, cap: int, n: int) -> Set<int>
    decreases n,
{
    if n <= 0 {
        Set::empty()
    } else {
        let before = fitting(workloads, queue, cap, n - 1);
        if workloads[queue[n - 1]].memory_gib <= left(workloads, queue, cap, n - 1) {
            before.insert(queue[n - 1])
        } else {
            before
        }
    }
}

/// The positions that move.
pub open spec fn moving(workloads: Seq<Workload>, capacity: Capacity) -> Set<int> {
    if listed(capacity.never_receives@, capacity.target@) {
        Set::empty()
    } else {
        let queue = queue(workloads);
        fitting(workloads, queue, capacity.memory_cap_gib as int, queue.len() as int)
    }
}

/// What happens to the workload at `i`.
///
/// A measurement is never killed and never moved, and nothing migrates to a
/// node that never receives work. The rest is a matter of the cap.
pub open spec fn course(workloads: Seq<Workload>, capacity: Capacity, i: int) -> Course {
    match workloads[i].class {
        WorkloadClass::BenchJob => Course::Wait,
        WorkloadClass::CiJob => Course::Wait,
        WorkloadClass::StorageService => Course::CannotMove {
            window: "bound to lv_data, a disk physically inside the storage node (§14.2)"@,
        },
        WorkloadClass::Devcontainer => if listed(capacity.never_receives@, capacity.target@) {
            Course::StopWithNotice {
                because: capacity.target@
                    + " receives no migrated workload (§2.3)"@,
            }
        } else if moving(workloads, capacity).contains(i) {
            Course::Migrate { to: capacity.target@ }
        } else {
            Course::StopWithNotice {
                because: "the "@
                    + decimal(capacity.memory_cap_gib as nat)
                    + " GiB migration cap is spent; the session survives, the process does not (§14.3)"@,
            }
        },
    }
}

/// Whether `plan` handles every workload, in order, as decided.
pub open spec fn plans(plan: Plan, workloads: Seq<Workload>, capacity: Capacity) -> bool {
    &&& plan.steps@.len() == workloads.len()
    &&& forall|i: int|
        0 <= i < workloads.len() ==> (#[trigger] plan.steps@[i]).workload == workloads[i]
            && plan.steps@[i].strategy@ == course(workloads, capacity, i)
}

proof fn lemma_containers(workloads: Seq<Workload>, n: int)
    requires
        0 <= n <= workloads.len(),
    ensures
        containers(workloads, n).len() <= n,
        forall|k: int|
            0 <= k < containers(workloads, n).len() ==> 0 <= #[trigger] containers(workloads, n)[k]
                < n && workloads[containers(workloads, n)[k]].class == WorkloadClass::Devcontainer,
        forall|j: int, k: int|
            0 <= j < k < containers(workloads, n).len() ==> #[trigger] containers(workloads, n)[j]
                < #[trigger] containers(workloads, n)[k],
    decreases n,
{
    if n > 0 {
        lemma_containers(workloads, n - 1);
    }
}

proof fn lemma_queue(workloads: Seq<Workload>)
    ensures
        queue(workloads).len() <= workloads.len(),
        queue(workloads).no_duplicates(),
        forall|k: int|
            0 <= k < queue(workloads).len() ==> 0 <= #[trigger] queue(workloads)[k]
                < workloads.len() && workloads[queue(workloads)[k]].class
                == WorkloadClass::Devcontainer,
{
    let n = workloads.len() as int;
    lemma_containers(workloads, n);
    let at = containers(workloads, n);
    let keys = idle_keys(workloads, at);
    let order = order_of(keys);
    order_of_is_a_stable_order(keys);
    stable_order_is_a_permutation(keys, order);
    let q = queue(workloads);
    assert forall|k: int| 0 <= k < q.len() implies 0 <= #[trigger] q[k] < workloads.len()
        && workloads[q[k]].class == WorkloadClass::Devcontainer by {
        assert(q[k] == at[order[k]]);
    }
    assert forall|i: int, j: int| 0 <= i < q.len() && 0 <= j < q.len() && i != j implies q[i]
        != q[j] by {
        assert(q[i] == at[order[i]] && q[j] == at[order[j]]);
        assert(order[i] != order[j]);
        if order[i] < order[j] {
            assert(at[order[i]] < at[order[j]]);
        } else {
            assert(at[order[j]] < at[order[i]]);
        }
    }
}

/// The positions of the devcontainers, most recently attached first.
fn queue_of(workloads: &[Workload]) -> (out: Vec<usize>)
    ensures
        out.len() == queue(workloads@).len(),
        forall|i: int|
            0 <= i < out.len() ==> #[trigger] out@[i] == queue(workloads@)[i] && out@[i]
                < workloads.len(),
{
    let mut at: Vec<usize> = Vec::new();
    let mut keys: Vec<Key> = Vec::new();
    let mut n: usize = 0;
    while n < workloads.len()
        invariant
            n <= workloads.len(),
            at.len() == containers(workloads@, n as int).len(),
            keys.len() == at.len(),
            forall|i: int|
                0 <= i < at.len() ==> #[trigger] at@[i] == containers(workloads@, n as int)[i]
                    && at@[i] < n,
            forall|i: int|
                0 <= i < at.len() ==> (#[trigger] keys@[i])@ == (
                    workloads@[at@[i] as int].idle_seconds as int,
                    workloads@[at@[i] as int].id@,
                ),
        decreases workloads.len() - n,
    {
        if workloads[n].class == WorkloadClass::Devcontainer {
            at.push(n);
            keys.push(
                Key { number: workloads[n].idle_seconds, text: workloads[n].id.clone() },
            );
        }
        n = n + 1;
    }
    let ghost all = containers(workloads@, workloads@.len() as int);
    proof {
        assert forall|i: int| 0 <= i < keys.len() implies (#[trigger] keys@[i])@ == idle_keys(
            workloads@,
            all,
        )[i] by {
            assert(at@[i] == all[i]);
        }
        assert(key_views(keys@) =~= idle_keys(workloads@, all));
    }
    let order = stable_order(&keys);
    let mut out: Vec<usize> = Vec::new();
    let mut j: usize = 0;
    while j < order.len()
        invariant
            j <= order.len(),
            order.len() == at.len(),
            all == containers(workloads@, workloads@.len() as int),
            at.len() == all.len(),
            forall|i: int|
                0 <= i < at.len() ==> #[trigger] at@[i] == all[i] && at@[i] < workloads.len(),
            forall|i: int|
                0 <= i < order.len() ==> (#[trigger] order@[i]) < at.len() && order@[i]
                    == order_of(idle_keys(workloads@, all))[i],
            out.len() == j,
            forall|i: int|
                0 <= i < j ==> #[trigger] out@[i] == queue(workloads@)[i] && out@[i]
                    < workloads.len(),
        decreases order.len() - j,
    {
        out.push(at[order[j]]);
        j = j + 1;
    }
    out
}

/// Which positions move.
fn moving_of(workloads: &[Workload], capacity: &Capacity) -> (moves: Vec<bool>)
    ensures
        moves.len() == workloads.len(),
        forall|i: int|
            0 <= i < moves.len() ==> #[trigger] moves@[i] == moving(workloads@, *capacity).contains(
                i,
            ),
{
    let mut moves: Vec<bool> = Vec::new();
    let mut i: usize = 0;
    while i < workloads.len()
        invariant
            i <= workloads.len(),
            moves.len() == i,
            forall|k: int| 0 <= k < i ==> !#[trigger] moves@[k],
        decreases workloads.len() - i,
    {
        moves.push(false);
        i = i + 1;
    }
    if is_listed(&capacity.never_receives, capacity.target.as_str()) {
        return moves;
    }
    let order = queue_of(workloads);
    let ghost q = queue(workloads@);
    let ghost cap = capacity.memory_cap_gib as int;
    let mut budget_left: u32 = capacity.memory_cap_gib;
    let mut n: usize = 0;
    while n < order.len()
        invariant
            n <= order.len(),
            order.len() == q.len(),
            forall|k: int|
                0 <= k < order.len() ==> #[trigger] order@[k] == q[k] && order@[k]
                    < workloads.len(),
            budget_left == left(workloads@, q, cap, n as int),
            moves.len() == workloads.len(),
            forall|k: int|
                0 <= k < moves.len() ==> #[trigger] moves@[k] == fitting(
                    workloads@,
                    q,
                    cap,
                    n as int,
                ).contains(k),
        decreases order.len() - n,
    {
        let at: usize = order[n];
        if workloads[at].memory_gib <= budget_left {
            budget_left = budget_left - workloads[at].memory_gib;
            moves.set(at, true);
        }
        n = n + 1;
    }
    moves
}

/// Plan a drain.
///
/// Pure: it decides, it does not act.
pub fn plan(workloads: &[Workload], capacity: &Capacity) -> (r: Plan)
    ensures
        plans(r, workloads@, *capacity),
{
    let forbidden = is_listed(&capacity.never_receives, capacity.target.as_str());
    let moves = moving_of(workloads, capacity);
    let mut steps: Vec<Step> = Vec::new();
    let mut i: usize = 0;
    while i < workloads.len()
        invariant
            i <= workloads.len(),
            forbidden == listed(capacity.never_receives@, capacity.target@),
            moves.len() == workloads.len(),
            forall|k: int|
                0 <= k < moves.len() ==> #[trigger] moves@[k] == moving(
                    workloads@,
                    *capacity,
                ).contains(k),
            steps.len() == i,
            forall|k: int|
                0 <= k < i ==> (#[trigger] steps@[k]).workload == workloads@[k]
                    && steps@[k].strategy@ == course(workloads@, *capacity, k),
        decreases workloads.len() - i,
    {
        let strategy = match workloads[i].class {
            WorkloadClass::BenchJob => Strategy::Wait,
            WorkloadClass::CiJob => Strategy::Wait,
            WorkloadClass::StorageService => Strategy::CannotMove {
                window: "bound to lv_data, a disk physically inside the storage node (§14.2)".to_owned(),
            },
            WorkloadClass::Devcontainer => if forbidden {
                Strategy::StopWithNotice {
                    because: capacity.target.clone()
                        .concat(" receives no migrated workload (§2.3)"),
                }
            } else if moves[i] {
                Strategy::Migrate { to: capacity.target.clone() }
            } else {
                Strategy::StopWithNotice {
                    because: "the ".to_owned()
                        .concat(decimal_of(capacity.memory_cap_gib as u64).as_str())
                        .concat(" GiB migration cap is spent; the session survives, the process does not (§14.3)"),
                }
            },
        };
        steps.push(Step { workload: workloads[i].copy(), strategy });
        i = i + 1;
    }
    Plan { steps }
}

// ---- reading a plan ----

/// The steps of `steps` that move.
pub open spec fn migrating_steps(steps: Seq<Step>) -> Seq<Step>
    decreases steps.len(),
{
    if steps.len() == 0 {
        Seq::empty()
    } else if steps.last().strategy is Migrate {
        migrating_steps(steps.drop_last()).push(steps.last())
    } else {
        migrating_steps(steps.drop_last())
    }
}

/// The steps of `steps` that stop with notice.
pub open spec fn stopping_steps(steps: Seq<Step>) -> Seq<Step>
    decreases steps.len(),
{
    if steps.len() == 0 {
        Seq::empty()
    } else if steps.last().strategy is StopWithNotice {
        stopping_steps(steps.drop_last()).push(steps.last())
    } else {
        stopping_steps(steps.drop_last())
    }
}

/// The declared memory of everything that moves.
pub open spec fn migrating_memory(steps: Seq<Step>) -> int
    decreases steps.len(),
{
    if steps.len() == 0 {
        0
    } else {
        migrating_memory(steps.drop_last()) + if steps.last().strategy is Migrate {
            steps.last().workload.memory_gib as int
        } else {
            0
        }
    }
}

impl Plan {
    /// The workloads that will move.
    pub fn migrating(&self) -> (out: Vec<&Step>)
        ensures
            out.len() == migrating_steps(self.steps@).len(),
            forall|i: int|
                0 <= i < out.len() ==> *(#[trigger] out@[i]) == migrating_steps(self.steps@)[i],
    {
        let mut out: Vec<&Step> = Vec::new();
        let mut i: usize = 0;
        while i < self.steps.len()
            invariant
                i <= self.steps.len(),
                out.len() == migrating_steps(self.steps@.take(i as int)).len(),
                forall|k: int|
                    0 <= k < out.len() ==> *(#[trigger] out@[k]) == migrating_steps(
                        self.steps@.take(i as int),
                    )[k],
            decreases self.steps.len() - i,
        {
            proof {
                assert(self.steps@.take(i + 1).drop_last() =~= self.steps@.take(i as int));
            }
            if let Strategy::Migrate { to } = &self.steps[i].strategy {
                out.push(&self.steps[i]);
            }
            i = i + 1;
        }
        proof {
            assert(self.steps@.take(i as int) =~= self.steps@);
        }
        out
    }

    /// The workloads that will be stopped with notice.
    pub fn stopping(&self) -> (out: Vec<&Step>)
        ensures
            out.len() == stopping_steps(self.steps@).len(),
            forall|i: int|
                0 <= i < out.len() ==> *(#[trigger] out@[i]) == stopping_steps(self.steps@)[i],
    {
        let mut out: Vec<&Step> = Vec::new();
        let mut i: usize = 0;
        while i < self.steps.len()
            invariant
                i <= self.steps.len(),
                out.len() == stopping_steps(self.steps@.take(i as int)).len(),
                forall|k: int|
                    0 <= k < out.len() ==> *(#[trigger] out@[k]) == stopping_steps(
                        self.steps@.take(i as int),
                    )[k],
            decreases self.steps.len() - i,
        {
            proof {
                assert(self.steps@.take(i + 1).drop_last() =~= self.steps@.take(i as int));
            }
            if let Strategy::StopWithNotice { because } = &self.steps[i].strategy {
                out.push(&self.steps[i]);
            }
            i = i + 1;
        }
        proof {
            assert(self.steps@.take(i as int) =~= self.steps@);
        }
        out
    }

    /// Total declared memory of everything that moves.
    pub fn migrating_memory_gib(&self) -> (total: u32)
        requires
            migrating_memory(self.steps@) <= u32::MAX,
        ensures
            total == migrating_memory(self.steps@),
    {
        let mut total: u32 = 0;
        let mut i: usize = 0;
        while i < self.steps.len()
            invariant
                i <= self.steps.len(),
                migrating_memory(self.steps@) <= u32::MAX,
                total == migrating_memory(self.steps@.take(i as int)),
            decreases self.steps.len() - i,
        {
            proof {
                assert(self.steps@.take(i + 1).drop_last() =~= self.steps@.take(i as int));
                lemma_memory_grows(self.steps@, i + 1);
            }
            if let Strategy::Migrate { to } = &self.steps[i].strategy {
                total = total + self.steps[i].workload.memory_gib;
            }
            i = i + 1;
        }
        proof {
            assert(self.steps@.take(i as int) =~= self.steps@);
        }
        total
    }
}

proof fn lemma_memory_grows(steps: Seq<Step>, n: int)
    requires
        0 <= n <= steps.len(),
    ensures
        migrating_memory(steps.take(n)) <= migrating_memory(steps),
    decreases steps.len() - n,
{
    if n < steps.len() {
        lemma_memory_grows(steps, n + 1);
        assert(steps.take(n + 1).drop_last() =~= steps.take(n));
    } else {
        assert(steps.take(n) =~= steps);
    }
}

// ---- budgets ----

impl OnExceed {
    /// Parse the token the policy uses.
    ///
    /// An unrecognised token is `Halt`: the outcome that asks a human rather
    /// than the one that acts.
    pub fn parse(token: &str) -> (r: OnExceed)
        ensures
            r == (if token@ == "stop-with-notice"@ {
                OnExceed::StopWithNotice
            } else {
                OnExceed::Halt
            }),
    {
        if same(token, "stop-with-notice") {
            OnExceed::StopWithNotice
        } else {
            OnExceed::Halt
        }
    }
}

impl BudgetOutcome {
    /// What the outcome says.
    pub open spec fn text_spec(&self) -> Seq<char> {
        match self {
            BudgetOutcome::WithinBudget => "within budget"@,
            BudgetOutcome::Halt { class, elapsed_s, budget_s } => {
                class@
                    + " took "@
                    + decimal(elapsed_s as nat)
                    + "s against a "@
                    + decimal(budget_s as nat)
                    + "s budget. The rollout halts and asks for a human: killing the work to meet the budget is worse than staying on the old image (§14.4)"@
            },
            BudgetOutcome::StopRemainder { class, elapsed_s, budget_s } => {
                class@
                    + " took "@
                    + decimal(elapsed_s as nat)
                    + "s against a "@
                    + decimal(budget_s as nat)
                    + "s budget; the remainder is stopped with notice (§14.4)"@
            },
        }
    }

    /// What the outcome says.
    pub fn to_text(&self) -> (r: String)
        ensures
            r@ == self.text_spec(),
    {
        match self {
            BudgetOutcome::WithinBudget => "within budget".to_owned(),
            BudgetOutcome::Halt { class, elapsed_s, budget_s } => {
                class.clone()
                    .concat(" took ")
                    .concat(decimal_of(*elapsed_s as u64).as_str())
                    .concat("s against a ")
                    .concat(decimal_of(*budget_s as u64).as_str())
                    .concat("s budget. The rollout halts and asks for a human: killing the work to meet the budget is worse than staying on the old image (§14.4)")
            },
            BudgetOutcome::StopRemainder { class, elapsed_s, budget_s } => {
                class.clone()
                    .concat(" took ")
                    .concat(decimal_of(*elapsed_s as u64).as_str())
                    .concat("s against a ")
                    .concat(decimal_of(*budget_s as u64).as_str())
                    .concat("s budget; the remainder is stopped with notice (§14.4)")
            },
        }
    }
}

/// Measure elapsed time against a class's budget.
pub fn against_budget(budget: &Budget, elapsed_s: u64) -> (r: BudgetOutcome)
    ensures
        elapsed_s <= budget.seconds <==> r is WithinBudget,
        elapsed_s > budget.seconds ==> r == (match budget.on_exceed {
            OnExceed::Halt => BudgetOutcome::Halt {
                class: budget.class,
                elapsed_s,
                budget_s: budget.seconds,
            },
            OnExceed::StopWithNotice => BudgetOutcome::StopRemainder {
                class: budget.class,
                elapsed_s,
                budget_s: budget.seconds,
            },
        }),
{
    if elapsed_s <= budget.seconds {
        return BudgetOutcome::WithinBudget;
    }
    match budget.on_exceed {
        OnExceed::Halt => BudgetOutcome::Halt {
            class: budget.class.clone(),
            elapsed_s,
            budget_s: budget.seconds,
        },
        OnExceed::StopWithNotice => BudgetOutcome::StopRemainder {
            class: budget.class.clone(),
            elapsed_s,
            budget_s: budget.seconds,
        },
    }
}

impl Strategy {
    /// The notice text.
    pub open spec fn notice_spec(&self) -> Seq<char> {
        match self {
            Strategy::StopWithNotice { because } => because@,
            Strategy::CannotMove { window } => window@,
            Strategy::Wait => "waiting for the workload to finish"@,
            Strategy::Migrate { to } => "migrating to "@
                + to@,
        }
    }

    /// The notice text.
    pub fn to_notice(self) -> (r: String)
        ensures
            r@ == self.notice_spec(),
    {
        match self {
            Strategy::StopWithNotice { because } => because,
            Strategy::CannotMove { window } => window,
            Strategy::Wait => "waiting for the workload to finish".to_owned(),
            Strategy::Migrate { to } => "migrating to ".to_owned()
                .concat(to.as_str()),
        }
    }
}

// ---- laws of draining ----

/// The declared memory of the positions of `set` below `n`.
spec fn memory_of(workloads: Seq<Workload>, set: Set<int>, n: int) -> int
    decreases n,
{
    if n <= 0 {
        0
    } else {
        memory_of(workloads, set, n - 1) + if set.contains(n - 1) {
            workloads[n - 1].memory_gib as int
        } else {
            0
        }
    }
}

proof fn lemma_memory_insert(workloads: Seq<Workload>, set: Set<int>, k: int, n: int)
    requires
        0 <= n,
        0 <= k,
        !set.contains(k),
    ensures
        memory_of(workloads, set.insert(k), n) == memory_of(workloads, set, n) + if k < n {
            workloads[k].memory_gib as int
        } else {
            0
        },
    decreases n,
{
    if n > 0 {
        lemma_memory_insert(workloads, set, k, n - 1);
    }
}

proof fn lemma_fitting(workloads: Seq<Workload>, cap: int, n: int)
    requires
        0 <= n <= queue(workloads).len(),
        0 <= cap,
    ensures
        0 <= left(workloads, queue(workloads), cap, n),
        memory_of(
            workloads,
            fitting(workloads, queue(workloads), cap, n),
            workloads.len() as int,
        ) == cap - left(workloads, queue(workloads), cap, n),
        forall|p: int|
            fitting(workloads, queue(workloads), cap, n).contains(p) ==> exists|k: int|
                0 <= k < n && #[trigger] queue(workloads)[k] == p,
    decreases n,
{
    lemma_queue(workloads);
    let q = queue(workloads);
    if n > 0 {
        lemma_fitting(workloads, cap, n - 1);
        let before = fitting(workloads, q, cap, n - 1);
        let at = q[n - 1];
        assert(!before.contains(at)) by {
            if before.contains(at) {
                let k = choose|k: int| 0 <= k < n - 1 && #[trigger] q[k] == at;
                assert(q[k] != q[n - 1]);
            }
        }
        lemma_memory_insert(workloads, before, at, workloads.len() as int);
        assert forall|p: int| fitting(workloads, q, cap, n).contains(p) implies exists|k: int|
            0 <= k < n && #[trigger] q[k] == p by {
            if before.contains(p) {
                let k = choose|k: int| 0 <= k < n - 1 && #[trigger] q[k] == p;
                assert(q[k] == p);
            } else {
                assert(q[n - 1] == p);
            }
        }
    } else {
        lemma_memory_none(workloads, workloads.len() as int);
    }
}

proof fn lemma_memory_none(workloads: Seq<Workload>, n: int)
    ensures
        memory_of(workloads, Set::empty(), n) == 0,
    decreases n,
{
    if n > 0 {
        lemma_memory_none(workloads, n - 1);
    }
}

proof fn lemma_steps_memory(plan: Plan, workloads: Seq<Workload>, capacity: Capacity, n: int)
    requires
        plans(plan, workloads, capacity),
        0 <= n <= workloads.len(),
    ensures
        migrating_memory(plan.steps@.take(n)) == memory_of(
            workloads,
            moving(workloads, capacity),
            n,
        ),
    decreases n,
{
    if n > 0 {
        lemma_steps_memory(plan, workloads, capacity, n - 1);
        let steps = plan.steps@.take(n);
        assert(steps.drop_last() =~= plan.steps@.take(n - 1));
        assert(steps.last() == plan.steps@[n - 1]);
        assert(plan.steps@[n - 1].strategy@ == course(workloads, capacity, n - 1));
        if moving(workloads, capacity).contains(n - 1) {
            lemma_queue(workloads);
            let q = queue(workloads);
            lemma_fitting(workloads, capacity.memory_cap_gib as int, q.len() as int);
            let k = choose|k: int| 0 <= k < q.len() && #[trigger] q[k] == n - 1;
            assert(workloads[q[k]].class == WorkloadClass::Devcontainer);
        }
    }
}

/// The memory of everything that moves never exceeds the cap.
pub proof fn the_cap_is_never_exceeded(plan: Plan, workloads: Seq<Workload>, capacity: Capacity)
    requires
        plans(plan, workloads, capacity),
    ensures
        migrating_memory(plan.steps@) <= capacity.memory_cap_gib,
{
    let n = workloads.len() as int;
    lemma_steps_memory(plan, workloads, capacity, n);
    assert(plan.steps@.take(n) =~= plan.steps@);
    if listed(capacity.never_receives@, capacity.target@) {
        lemma_memory_none(workloads, n);
    } else {
        lemma_fitting(
            workloads,
            capacity.memory_cap_gib as int,
            queue(workloads).len() as int,
        );
    }
}

proof fn lemma_left_shrinks(workloads: Seq<Workload>, queue: Seq<int>, cap: int, k: int, n: int)
    requires
        0 <= k <= n,
    ensures
        left(workloads, queue, cap, n) <= left(workloads, queue, cap, k),
    decreases n,
{
    if k < n {
        lemma_left_shrinks(workloads, queue, cap, k, n - 1);
    }
}

/// Nothing that still fits is stopped: where a devcontainer is stopped for the
/// cap, it would exceed the cap beside what moves.
pub proof fn nothing_that_fits_is_stopped(
    plan: Plan,
    workloads: Seq<Workload>,
    capacity: Capacity,
    i: int,
)
    requires
        plans(plan, workloads, capacity),
        !listed(capacity.never_receives@, capacity.target@),
        0 <= i < workloads.len(),
        workloads[i].class == WorkloadClass::Devcontainer,
        plan.steps@[i].strategy !is Migrate,
    ensures
        migrating_memory(plan.steps@) + workloads[i].memory_gib > capacity.memory_cap_gib,
{
    let n = workloads.len() as int;
    let cap = capacity.memory_cap_gib as int;
    let q = queue(workloads);
    assert(plan.steps@[i].strategy@ == course(workloads, capacity, i));
    lemma_queue(workloads);
    lemma_queued(workloads, i);
    let k = choose|k: int| 0 <= k < q.len() && q[k] == i;
    lemma_fits(workloads, q, cap, k, q.len() as int);
    lemma_left_shrinks(workloads, q, cap, k, q.len() as int);
    lemma_fitting(workloads, cap, q.len() as int);
    lemma_steps_memory(plan, workloads, capacity, n);
    assert(plan.steps@.take(n) =~= plan.steps@);
}

/// Nothing migrates to a node that never receives work.
pub proof fn nothing_migrates_to_a_reserved_node(
    plan: Plan,
    workloads: Seq<Workload>,
    capacity: Capacity,
    i: int,
)
    requires
        plans(plan, workloads, capacity),
        listed(capacity.never_receives@, capacity.target@),
        0 <= i < workloads.len(),
    ensures
        plan.steps@[i].strategy !is Migrate,
{
    assert(plan.steps@[i].strategy@ == course(workloads, capacity, i));
}

/// What migrates is a devcontainer, and it goes to the target.
pub proof fn only_devcontainers_migrate(
    plan: Plan,
    workloads: Seq<Workload>,
    capacity: Capacity,
    i: int,
)
    requires
        plans(plan, workloads, capacity),
        0 <= i < workloads.len(),
        plan.steps@[i].strategy is Migrate,
    ensures
        workloads[i].class == WorkloadClass::Devcontainer,
        plan.steps@[i].strategy@ == (Course::Migrate { to: capacity.target@ }),
{
    assert(plan.steps@[i].strategy@ == course(workloads, capacity, i));
}

/// A measurement and a CI job are waited for, whatever the capacity.
pub proof fn a_job_is_never_killed_and_never_moved(
    plan: Plan,
    workloads: Seq<Workload>,
    capacity: Capacity,
    i: int,
)
    requires
        plans(plan, workloads, capacity),
        0 <= i < workloads.len(),
        workloads[i].class == WorkloadClass::BenchJob || workloads[i].class
            == WorkloadClass::CiJob,
    ensures
        plan.steps@[i].strategy is Wait,
{
    assert(plan.steps@[i].strategy@ == course(workloads, capacity, i));
}

/// Two plans of the same drain decide the same of every workload.
pub proof fn the_plan_is_deterministic(
    a: Plan,
    b: Plan,
    workloads: Seq<Workload>,
    capacity: Capacity,
    i: int,
)
    requires
        plans(a, workloads, capacity),
        plans(b, workloads, capacity),
        0 <= i < workloads.len(),
    ensures
        a.steps@.len() == b.steps@.len(),
        a.steps@[i].workload == b.steps@[i].workload,
        a.steps@[i].strategy@ == b.steps@[i].strategy@,
{
    assert(a.steps@[i].workload == workloads[i] && b.steps@[i].workload == workloads[i]);
}

/// Whether no two workloads share an identifier.
pub open spec fn distinct_ids(workloads: Seq<Workload>) -> bool {
    forall|i: int, j: int|
        0 <= i < j < workloads.len() ==> (#[trigger] workloads[i]).id@ != (
        #[trigger] workloads[j]).id@
}

/// The order in which workloads are listed does not matter: where no two share
/// an identifier, each is decided alike in any order.
pub proof fn the_order_of_the_workloads_does_not_matter(
    a: Plan,
    b: Plan,
    first: Seq<Workload>,
    second: Seq<Workload>,
    capacity: Capacity,
    i: int,
    j: int,
)
    requires
        plans(a, first, capacity),
        plans(b, second, capacity),
        first.to_multiset() == second.to_multiset(),
        distinct_ids(first),
        0 <= i < first.len(),
        0 <= j < second.len(),
        first[i] == second[j],
    ensures
        a.steps@[i].strategy@ == b.steps@[j].strategy@,
{
    assert(a.steps@[i].strategy@ == course(first, capacity, i));
    assert(b.steps@[j].strategy@ == course(second, capacity, j));
    lemma_same_workloads(first, second);
    if first[i].class == WorkloadClass::Devcontainer && !listed(
        capacity.never_receives@,
        capacity.target@,
    ) {
        let cap = capacity.memory_cap_gib as int;
        let (p, q) = (queue(first), queue(second));
        lemma_same_queue(first, second);
        lemma_queued(first, i);
        lemma_queued(second, j);
        lemma_queue(first);
        lemma_queue(second);
        let k = choose|k: int| 0 <= k < p.len() && p[k] == i;
        let l = choose|l: int| 0 <= l < q.len() && q[l] == j;
        assert(first[p[l]] == second[q[l]]);
        assert(p[l] == i) by {
            if p[l] < i {
                assert(first[p[l]].id@ != first[i].id@);
            } else if i < p[l] {
                assert(first[i].id@ != first[p[l]].id@);
            }
        }
        assert(k == l);
        lemma_same_left(first, second, p, q, cap, k);
        lemma_fits(first, p, cap, k, p.len() as int);
        lemma_fits(second, q, cap, k, q.len() as int);
    }
}

proof fn lemma_same_workloads(first: Seq<Workload>, second: Seq<Workload>)
    requires
        first.to_multiset() == second.to_multiset(),
        distinct_ids(first),
    ensures
        first.len() == second.len(),
        distinct_ids(second),
        forall|w: Workload| first.contains(w) <==> second.contains(w),
{
    first.to_multiset_ensures();
    second.to_multiset_ensures();
    assert forall|w: Workload| first.contains(w) <==> second.contains(w) by {
        assert(first.contains(w) <==> first.to_multiset().count(w) > 0);
        assert(second.contains(w) <==> second.to_multiset().count(w) > 0);
    }
    assert(first.no_duplicates());
    first.lemma_multiset_has_no_duplicates();
    second.lemma_multiset_has_no_duplicates_conv();
    assert forall|i: int, j: int| 0 <= i < j < second.len() implies (
    #[trigger] second[i]).id@ != (#[trigger] second[j]).id@ by {
        assert(second.contains(second[i]) && second.contains(second[j]));
        let x = choose|x: int| 0 <= x < first.len() && first[x] == second[i];
        let y = choose|y: int| 0 <= y < first.len() && first[y] == second[j];
        assert(second[i] != second[j]);
        if x < y {
            assert(first[x].id@ != first[y].id@);
        } else {
            assert(y < x);
            assert(first[y].id@ != first[x].id@);
        }
    }
}

proof fn lemma_contained(workloads: Seq<Workload>, n: int, i: int)
    requires
        0 <= i < n <= workloads.len(),
        workloads[i].class == WorkloadClass::Devcontainer,
    ensures
        containers(workloads, n).contains(i),
    decreases n,
{
    let at = containers(workloads, n);
    if i == n - 1 {
        assert(at[at.len() - 1] == i);
    } else {
        lemma_contained(workloads, n - 1, i);
        let before = containers(workloads, n - 1);
        let k = choose|k: int| 0 <= k < before.len() && before[k] == i;
        assert(at[k] == i);
    }
}

/// Every devcontainer is queued.
proof fn lemma_queued(workloads: Seq<Workload>, i: int)
    requires
        0 <= i < workloads.len(),
        workloads[i].class == WorkloadClass::Devcontainer,
    ensures
        queue(workloads).contains(i),
{
    let at = containers(workloads, workloads.len() as int);
    lemma_contained(workloads, workloads.len() as int, i);
    let k = choose|k: int| 0 <= k < at.len() && at[k] == i;
    let keys = idle_keys(workloads, at);
    let order = order_of(keys);
    order_of_is_a_stable_order(keys);
    stable_order_is_a_permutation(keys, order);
    assert(order.contains(k));
    let l = choose|l: int| 0 <= l < order.len() && order[l] == k;
    assert(queue(workloads)[l] == i);
}

/// What the queue is ordered by, in its order.
spec fn queue_keys(workloads: Seq<Workload>) -> Seq<(int, Seq<char>)> {
    idle_keys(workloads, queue(workloads))
}

proof fn lemma_queue_ascends(workloads: Seq<Workload>)
    requires
        distinct_ids(workloads),
    ensures
        ascending(queue_keys(workloads)),
{
    let at = containers(workloads, workloads.len() as int);
    let keys = idle_keys(workloads, at);
    let order = order_of(keys);
    order_of_is_a_stable_order(keys);
    lemma_queue(workloads);
    let q = queue(workloads);
    assert forall|i: int, j: int| 0 <= i < j < q.len() implies key_less(
        #[trigger] queue_keys(workloads)[i],
        #[trigger] queue_keys(workloads)[j],
    ) by {
        assert(precedes(keys, order[i], order[j]));
        assert(q[i] == at[order[i]] && q[j] == at[order[j]]);
        assert(q[i] != q[j]);
        if q[i] < q[j] {
            assert(workloads[q[i]].id@ != workloads[q[j]].id@);
        } else {
            assert(workloads[q[j]].id@ != workloads[q[i]].id@);
        }
    }
}

proof fn lemma_queue_key_moves(first: Seq<Workload>, second: Seq<Workload>, i: int)
    requires
        forall|w: Workload| first.contains(w) <==> second.contains(w),
        0 <= i < queue(first).len(),
    ensures
        queue_keys(second).contains(queue_keys(first)[i]),
{
    lemma_queue(first);
    let w = first[queue(first)[i]];
    assert(first.contains(w));
    let j = choose|j: int| 0 <= j < second.len() && second[j] == w;
    lemma_queued(second, j);
    let k = choose|k: int| 0 <= k < queue(second).len() && queue(second)[k] == j;
    assert(queue_keys(second)[k] == queue_keys(first)[i]);
}

/// The same workloads queue alike in any order.
proof fn lemma_same_queue(first: Seq<Workload>, second: Seq<Workload>)
    requires
        distinct_ids(first),
        distinct_ids(second),
        forall|w: Workload| first.contains(w) <==> second.contains(w),
    ensures
        queue(first).len() == queue(second).len(),
        forall|k: int|
            0 <= k < queue(first).len() ==> first[#[trigger] queue(first)[k]]
                == second[queue(second)[k]],
{
    let (p, q) = (queue(first), queue(second));
    let (a, b) = (queue_keys(first), queue_keys(second));
    lemma_queue(first);
    lemma_queue(second);
    lemma_queue_ascends(first);
    lemma_queue_ascends(second);
    assert forall|key: (int, Seq<char>)| a.contains(key) <==> b.contains(key) by {
        if a.contains(key) {
            let i = choose|i: int| 0 <= i < a.len() && a[i] == key;
            lemma_queue_key_moves(first, second, i);
        }
        if b.contains(key) {
            let i = choose|i: int| 0 <= i < b.len() && b[i] == key;
            lemma_queue_key_moves(second, first, i);
        }
    }
    ascending_keys_are_unique(a, b);
    assert forall|k: int| 0 <= k < p.len() implies first[#[trigger] p[k]] == second[q[k]] by {
        assert(a[k] == b[k]);
        let w = second[q[k]];
        assert(second.contains(w));
        let x = choose|x: int| 0 <= x < first.len() && first[x] == w;
        assert(first[p[k]].id@ == w.id@);
        if x < p[k] {
            assert(first[x].id@ != first[p[k]].id@);
        } else if p[k] < x {
            assert(first[p[k]].id@ != first[x].id@);
        }
    }
}

proof fn lemma_same_left(
    first: Seq<Workload>,
    second: Seq<Workload>,
    p: Seq<int>,
    q: Seq<int>,
    cap: int,
    n: int,
)
    requires
        p.len() == q.len(),
        0 <= n <= p.len(),
        forall|k: int| 0 <= k < p.len() ==> first[#[trigger] p[k]] == second[q[k]],
    ensures
        left(first, p, cap, n) == left(second, q, cap, n),
    decreases n,
{
    if n > 0 {
        lemma_same_left(first, second, p, q, cap, n - 1);
        assert(first[p[n - 1]] == second[q[n - 1]]);
    }
}

/// Who is asked at `k` moves if and only if what it needs is left then.
proof fn lemma_fits(workloads: Seq<Workload>, queue: Seq<int>, cap: int, k: int, n: int)
    requires
        queue.no_duplicates(),
        0 <= k < n <= queue.len(),
    ensures
        fitting(workloads, queue, cap, n).contains(queue[k]) <==> workloads[queue[k]].memory_gib
            <= left(workloads, queue, cap, k),
    decreases n,
{
    if k < n - 1 {
        lemma_fits(workloads, queue, cap, k, n - 1);
        assert(queue[k] != queue[n - 1]);
    } else {
        lemma_unasked(workloads, queue, cap, k, k);
    }
}

proof fn lemma_unasked(workloads: Seq<Workload>, queue: Seq<int>, cap: int, k: int, n: int)
    requires
        queue.no_duplicates(),
        0 <= n <= k < queue.len(),
    ensures
        !fitting(workloads, queue, cap, n).contains(queue[k]),
    decreases n,
{
    if n > 0 {
        lemma_unasked(workloads, queue, cap, k, n - 1);
        assert(queue[k] != queue[n - 1]);
    }
}

/// An exceeded budget never reads as within it, and what halts is what the
/// policy says halts.
pub proof fn a_job_budget_halts(budget: Budget, elapsed_s: u64, r: BudgetOutcome)
    requires
        call_ensures(against_budget, (&budget, elapsed_s), r),
        elapsed_s > budget.seconds,
        budget.on_exceed == OnExceed::Halt,
    ensures
        r is Halt,
{
}

// ---- laws of one plan ----

/// The queue counts up in idle time, and in identifiers among the equally idle.
pub proof fn the_queue_counts_up_in_idle_time(workloads: Seq<Workload>, i: int, j: int)
    requires
        0 <= i < j < queue(workloads).len(),
    ensures
        ({
            let (a, b) = (workloads[queue(workloads)[i]], workloads[queue(workloads)[j]]);
            &&& a.idle_seconds <= b.idle_seconds
            &&& a.idle_seconds == b.idle_seconds ==> !text_less(b.id@, a.id@)
        }),
{
    let at = containers(workloads, workloads.len() as int);
    let keys = idle_keys(workloads, at);
    let order = order_of(keys);
    order_of_is_a_stable_order(keys);
    lemma_queue(workloads);
    assert(precedes(keys, order[i], order[j]));
    assert(queue(workloads)[i] == at[order[i]] && queue(workloads)[j] == at[order[j]]);
    text_less_trichotomy(workloads[at[order[i]]].id@, workloads[at[order[j]]].id@);
}

/// Whether the workload at `i` goes before the one at `j`: it has been idle for
/// fewer seconds, or for as many and has the lower identifier.
pub open spec fn goes_before(workloads: Seq<Workload>, i: int, j: int) -> bool {
    ||| workloads[i].idle_seconds < workloads[j].idle_seconds
    ||| workloads[i].idle_seconds == workloads[j].idle_seconds && text_less(
        workloads[i].id@,
        workloads[j].id@,
    )
}

/// Who was attached more recently moves first: of two devcontainers of which the
/// less idle one needs no more memory, it is never stopped while the other
/// moves. Equally idle ones go by their identifiers.
pub proof fn the_less_idle_moves_first(
    workloads: &[Workload],
    capacity: Capacity,
    r: Plan,
    i: int,
    j: int,
)
    requires
        call_ensures(plan, (workloads, &capacity), r),
        0 <= i < workloads@.len(),
        0 <= j < workloads@.len(),
        workloads@[i].class == WorkloadClass::Devcontainer,
        workloads@[j].class == WorkloadClass::Devcontainer,
        workloads@[i].memory_gib <= workloads@[j].memory_gib,
        goes_before(workloads@, i, j),
        r.steps@[j].strategy is Migrate,
    ensures
        r.steps@[i].strategy is Migrate,
{
    let w = workloads@;
    let cap = capacity.memory_cap_gib as int;
    let q = queue(w);
    assert(plans(r, w, capacity));
    assert(r.steps@[i].strategy@ == course(w, capacity, i));
    assert(r.steps@[j].strategy@ == course(w, capacity, j));
    lemma_queue(w);
    lemma_queued(w, i);
    lemma_queued(w, j);
    let k = choose|k: int| 0 <= k < q.len() && q[k] == i;
    let l = choose|l: int| 0 <= l < q.len() && q[l] == j;
    if l < k {
        the_queue_counts_up_in_idle_time(w, l, k);
        text_less_trichotomy(w[i].id@, w[j].id@);
    }
    text_less_trichotomy(w[i].id@, w[j].id@);
    assert(k < l);
    lemma_fits(w, q, cap, k, q.len() as int);
    lemma_fits(w, q, cap, l, q.len() as int);
    lemma_left_shrinks(w, q, cap, k, l);
}

/// The most recently attached devcontainer moves wherever it fits under the cap
/// and the target may receive it, whatever else runs.
pub proof fn the_least_idle_moves_where_it_fits(
    workloads: &[Workload],
    capacity: Capacity,
    r: Plan,
    i: int,
)
    requires
        call_ensures(plan, (workloads, &capacity), r),
        0 <= i < workloads@.len(),
        workloads@[i].class == WorkloadClass::Devcontainer,
        workloads@[i].memory_gib <= capacity.memory_cap_gib,
        forall|n: int|
            0 <= n < capacity.never_receives@.len() ==> (#[trigger] capacity.never_receives@[n])@
                != capacity.target@,
        forall|j: int|
            0 <= j < workloads@.len() && j != i && (#[trigger] workloads@[j]).class
                == WorkloadClass::Devcontainer ==> goes_before(workloads@, i, j),
    ensures
        r.steps@[i].strategy@ == (Course::Migrate { to: capacity.target@ }),
{
    let w = workloads@;
    let cap = capacity.memory_cap_gib as int;
    let q = queue(w);
    assert(r.steps@[i].strategy@ == course(w, capacity, i));
    lemma_queue(w);
    lemma_queued(w, i);
    let k = choose|k: int| 0 <= k < q.len() && q[k] == i;
    if k > 0 {
        the_queue_counts_up_in_idle_time(w, 0, k);
        assert(q[0] != q[k]);
        assert(goes_before(w, i, q[0]));
        text_less_trichotomy(w[i].id@, w[q[0]].id@);
    }
    lemma_fits(w, q, cap, 0, q.len() as int);
    assert(!listed(capacity.never_receives@, capacity.target@));
}

/// Each workload has its step, in its place, and what becomes of it goes by its
/// class: a measurement and a CI job are waited for, what is bound to a disk
/// cannot move, and a devcontainer moves to the target or is stopped with
/// notice. Nothing moves to a node that never receives work, wherever it stands
/// among those.
pub proof fn a_workload_is_handled_by_its_class(
    workloads: &[Workload],
    capacity: Capacity,
    r: Plan,
    i: int,
    n: int,
)
    requires
        call_ensures(plan, (workloads, &capacity), r),
        0 <= i < workloads@.len(),
    ensures
        r.steps@.len() == workloads@.len(),
        r.steps@[i].workload == workloads@[i],
        workloads@[i].class == WorkloadClass::BenchJob ==> r.steps@[i].strategy is Wait,
        workloads@[i].class == WorkloadClass::CiJob ==> r.steps@[i].strategy is Wait,
        workloads@[i].class == WorkloadClass::StorageService ==> r.steps@[i].strategy
            is CannotMove,
        workloads@[i].class == WorkloadClass::Devcontainer ==> r.steps@[i].strategy
            is StopWithNotice || r.steps@[i].strategy@ == (Course::Migrate {
            to: capacity.target@,
        }),
        0 <= n < capacity.never_receives@.len() && capacity.never_receives@[n]@
            == capacity.target@ ==> r.steps@[i].strategy !is Migrate,
{
    assert(r.steps@[i].workload == workloads@[i]);
    assert(r.steps@[i].strategy@ == course(workloads@, capacity, i));
    if 0 <= n < capacity.never_receives@.len() && capacity.never_receives@[n]@
        == capacity.target@ {
        assert(listed(capacity.never_receives@, capacity.target@));
    }
}

/// Why a devcontainer is stopped is said: the target that receives nothing is
/// named, or the cap that is spent is given in GiB.
pub proof fn a_stopped_devcontainer_is_told_why(
    workloads: &[Workload],
    capacity: Capacity,
    r: Plan,
    i: int,
    n: int,
)
    requires
        call_ensures(plan, (workloads, &capacity), r),
        0 <= i < workloads@.len(),
        workloads@[i].class == WorkloadClass::Devcontainer,
        r.steps@[i].strategy is StopWithNotice,
    ensures
        0 <= n < capacity.never_receives@.len() && capacity.never_receives@[n]@
            == capacity.target@ ==> capacity.target@.is_prefix_of(
            r.steps@[i].strategy->because@,
        ),
        (forall|m: int|
            0 <= m < capacity.never_receives@.len() ==> (#[trigger] capacity.never_receives@[m])@
                != capacity.target@) ==> ("the "@ + decimal(capacity.memory_cap_gib as nat)
            + " GiB migration cap is spent"@).is_prefix_of(r.steps@[i].strategy->because@),
{
    reveal_strlit(
        " GiB migration cap is spent; the session survives, the process does not (§14.3)",
    );
    reveal_strlit(" GiB migration cap is spent");
    assert(r.steps@[i].strategy@ == course(workloads@, capacity, i));
    let because = r.steps@[i].strategy->because@;
    if listed(capacity.never_receives@, capacity.target@) {
        assert(because.take(capacity.target@.len() as int) =~= capacity.target@);
    } else {
        let tail = " GiB migration cap is spent; the session survives, the process does not (§14.3)"@;
        let said = " GiB migration cap is spent"@;
        assert(tail.take(said.len() as int) =~= said);
        let head = "the "@ + decimal(capacity.memory_cap_gib as nat);
        assert(because =~= head + tail);
        assert forall|k: int| 0 <= k < (head + said).len() implies because[k] == (head + said)[k] by {
            if k >= head.len() {
                assert(tail.take(said.len() as int)[k - head.len()] == said[k - head.len()]);
            }
        }
        assert(because.take((head + said).len() as int) =~= head + said);
    }
    if 0 <= n < capacity.never_receives@.len() && capacity.never_receives@[n]@
        == capacity.target@ {
        assert(listed(capacity.never_receives@, capacity.target@));
    }
}

/// A plan read back lists each step that moves, and each that is stopped, and no
/// other.
pub proof fn a_plan_reads_back(r: Plan, moving: Vec<&Step>, stopping: Vec<&Step>, i: int)
    requires
        call_ensures(Plan::migrating, (&r,), moving),
        call_ensures(Plan::stopping, (&r,), stopping),
    ensures
        0 <= i < r.steps@.len() && r.steps@[i].strategy is Migrate ==> exists|k: int|
            0 <= k < moving@.len() && *(#[trigger] moving@[k]) == r.steps@[i],
        0 <= i < r.steps@.len() && r.steps@[i].strategy is StopWithNotice ==> exists|k: int|
            0 <= k < stopping@.len() && *(#[trigger] stopping@[k]) == r.steps@[i],
        0 <= i < moving@.len() ==> r.steps@.contains(*moving@[i]) && moving@[i].strategy
            is Migrate,
        0 <= i < stopping@.len() ==> r.steps@.contains(*stopping@[i]) && stopping@[i].strategy
            is StopWithNotice,
{
    lemma_reads_back(r.steps@);
    if 0 <= i < r.steps@.len() {
        assert(r.steps@.contains(r.steps@[i]));
        if r.steps@[i].strategy is Migrate {
            assert(migrating_steps(r.steps@).contains(r.steps@[i]));
            let k = migrating_steps(r.steps@).index_of(r.steps@[i]);
            assert(*moving@[k] == r.steps@[i]);
        }
        if r.steps@[i].strategy is StopWithNotice {
            assert(stopping_steps(r.steps@).contains(r.steps@[i]));
            let k = stopping_steps(r.steps@).index_of(r.steps@[i]);
            assert(*stopping@[k] == r.steps@[i]);
        }
    }
    if 0 <= i < moving@.len() {
        assert(migrating_steps(r.steps@).contains(migrating_steps(r.steps@)[i]));
    }
    if 0 <= i < stopping@.len() {
        assert(stopping_steps(r.steps@).contains(stopping_steps(r.steps@)[i]));
    }
}

proof fn lemma_reads_back(steps: Seq<Step>)
    ensures
        forall|s: Step|
            #[trigger] migrating_steps(steps).contains(s) <==> steps.contains(s) && s.strategy
                is Migrate,
        forall|s: Step|
            #[trigger] stopping_steps(steps).contains(s) <==> steps.contains(s) && s.strategy
                is StopWithNotice,
    decreases steps.len(),
{
    if steps.len() > 0 {
        let (before, last) = (steps.drop_last(), steps.last());
        lemma_reads_back(before);
        assert(steps =~= before.push(last));
        assert forall|s: Step| steps.contains(s) <==> before.contains(s) || s == last by {
            lemma_pushed(before, last, s);
        }
        assert forall|s: Step|
            #[trigger] migrating_steps(steps).contains(s) <==> steps.contains(s) && s.strategy
                is Migrate by {
            lemma_pushed(migrating_steps(before), last, s);
        }
        assert forall|s: Step|
            #[trigger] stopping_steps(steps).contains(s) <==> steps.contains(s) && s.strategy
                is StopWithNotice by {
            lemma_pushed(stopping_steps(before), last, s);
        }
    }
}

proof fn lemma_pushed(list: Seq<Step>, last: Step, s: Step)
    ensures
        list.push(last).contains(s) <==> list.contains(s) || s == last,
{
    let all = list.push(last);
    assert(all[all.len() - 1] == last);
    if list.contains(s) {
        let i = list.index_of(s);
        assert(all[i] == s);
    }
    if all.contains(s) {
        let i = all.index_of(s);
        if i < list.len() {
            assert(list[i] == s);
        }
    }
}

/// A class has the budget that the policy names after it.
pub proof fn a_class_has_its_budget(class: WorkloadClass, name: &'static str)
    requires
        call_ensures(WorkloadClass::budget_class, (class,), name),
    ensures
        class == WorkloadClass::BenchJob ==> name@ == "bench-job"@,
        class == WorkloadClass::CiJob ==> name@ == "ci-job"@,
        class == WorkloadClass::Devcontainer ==> name@ == "devcontainer-migration"@,
        class == WorkloadClass::StorageService ==> name@ == "total"@,
{
}

/// What an exceeded budget says names the class, and gives the time it took and
/// the time it had.
pub proof fn an_exceeded_budget_is_reported(budget: Budget, elapsed_s: u64, r: BudgetOutcome, text: String)
    requires
        call_ensures(against_budget, (&budget, elapsed_s), r),
        call_ensures(BudgetOutcome::to_text, (&r,), text),
        elapsed_s > budget.seconds,
    ensures
        (budget.class@ + " took "@ + decimal(elapsed_s as nat) + "s against a "@ + decimal(
            budget.seconds as nat,
        )).is_prefix_of(text@),
        budget.on_exceed == OnExceed::Halt ==> r is Halt,
        budget.on_exceed == OnExceed::StopWithNotice ==> r is StopRemainder,
{
    let head = budget.class@ + " took "@ + decimal(elapsed_s as nat) + "s against a "@ + decimal(
        budget.seconds as nat,
    );
    assert(text@.take(head.len() as int) =~= head);
}

/// The notice of a step says where it goes, or why it does not.
pub proof fn a_notice_says_what_happens(s: Strategy, notice: String)
    requires
        call_ensures(Strategy::to_notice, (s,), notice),
    ensures
        match s {
            Strategy::Migrate { to } => notice@ == "migrating to "@ + to@,
            Strategy::StopWithNotice { because } => notice@ == because@,
            Strategy::CannotMove { window } => notice@ == window@,
            Strategy::Wait => notice@ == "waiting for the workload to finish"@,
        },
{
}

} // verus!
