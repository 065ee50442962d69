//! Parallel composite: tick every child that has not yet resolved, remember
//! each child's outcome, and judge the recorded outcomes against a policy.
//!
//! "Parallel" names the aggregation, not the execution: children are ticked
//! one after another within the one synchronous call. A child whose recorded
//! outcome is already `Passed` or `Failed` keeps it and is not re-ticked
//! until `reset`. Unlike `Sequence` and `Selector`, a parallel node does
//! *not* reset itself on resolution — the owner resets it before expecting
//! it to run again cleanly.

use vstd::prelude::*;
use crate::blackboard::BlackBoard;
use crate::model::{NodeView, policy_ok};
use crate::node::{
    Agent,
    Node,
    NodeResult,
    TreeNode,
    lemma_children_refreshed,
    lemma_children_shape,
    lemma_views_pointwise,
    lemma_views_wf,
};

verus! {

/// When does a parallel node pass overall?
#[derive(Clone, Copy, PartialEq, Eq, Structural, Debug)]
pub enum ParallelPolicy {
    /// Passed once every child passed; one failure fails the node at once.
    RequireAll,
    /// Passed once any child passed; failed only when every child failed.
    RequireOne,
    /// Passed once this many children passed; failed as soon as so many
    /// children failed that the count can no longer be reached.
    RequireCount(usize),
}

/// How many entries of `s` equal `x`.
pub open spec fn count_of(s: Seq<NodeResult>, x: NodeResult) -> int
    decreases s,
{
    if s.len() == 0 {
        0
    } else {
        count_of(s.drop_last(), x) + if s.last() == x {
            1int
        } else {
            0int
        }
    }
}

pub proof fn lemma_count_bounds(s: Seq<NodeResult>, x: NodeResult)
    ensures
        0 <= count_of(s, x) <= s.len(),
    decreases s,
{
    if s.len() > 0 {
        lemma_count_bounds(s.drop_last(), x);
    }
}

pub proof fn lemma_count_take_step(s: Seq<NodeResult>, i: int, x: NodeResult)
    requires
        0 <= i < s.len(),
    ensures
        count_of(s.take(i + 1), x) == count_of(s.take(i), x) + if s[i] == x {
            1int
        } else {
            0int
        },
{
    assert(s.take(i + 1).drop_last() =~= s.take(i));
    assert(s.take(i + 1).last() == s[i]);
}

/// The policy verdict over the current counts: exactly the three rules of
/// `RequireAll`, `RequireOne` and `RequireCount`.
pub open spec fn eval_policy(
    policy: ParallelPolicy,
    passed: int,
    failed: int,
    total: int,
) -> NodeResult {
    match policy {
        ParallelPolicy::RequireAll => {
            if passed == total {
                NodeResult::Passed
            } else if failed > 0 {
                NodeResult::Failed
            } else {
                NodeResult::Running
            }
        },
        ParallelPolicy::RequireOne => {
            if passed >= 1 {
                NodeResult::Passed
            } else if failed == total {
                NodeResult::Failed
            } else {
                NodeResult::Running
            }
        },
        ParallelPolicy::RequireCount(required) => {
            if passed >= required as int {
                NodeResult::Passed
            } else if failed > total - required as int {
                NodeResult::Failed
            } else {
                NodeResult::Running
            }
        },
    }
}

/// Law: under `RequireAll` a single recorded failure resolves the node to
/// `Failed` on that same tick, however many children are still running.
pub proof fn lemma_require_all_fail_fast(passed: int, failed: int, total: int)
    requires
        0 <= passed,
        1 <= failed,
        passed + failed <= total,
    ensures
        eval_policy(ParallelPolicy::RequireAll, passed, failed, total) == NodeResult::Failed,
{
}

/// Law: under `RequireCount(required)` the node passes as soon as `required`
/// children have passed, whatever the others are doing; and once more than
/// `total - required` children have failed, the count can no longer be
/// reached and the node fails.
pub proof fn lemma_require_count_resolution(
    required: usize,
    passed: int,
    failed: int,
    total: int,
)
    ensures
        passed >= required as int ==> eval_policy(
            ParallelPolicy::RequireCount(required),
            passed,
            failed,
            total,
        ) == NodeResult::Passed,
        passed < required as int && failed > total - required as int ==> eval_policy(
            ParallelPolicy::RequireCount(required),
            passed,
            failed,
            total,
        ) == NodeResult::Failed,
{
}

pub struct Parallel {
    pub name: String,
    pub policy: ParallelPolicy,
    pub states: Vec<NodeResult>,
    pub children: Vec<TreeNode>,
}

impl View for Parallel {
    type V = NodeView;

    open spec fn view(&self) -> NodeView {
        NodeView::Parallel {
            name: self.name@,
            policy: self.policy,
            states: self.states@,
            children: TreeNode::views(self.children@),
        }
    }
}

impl Parallel {
    /// A parallel node over `children`, all initially recorded `Running`.
    /// A `RequireCount` policy must not ask for more passes than there are
    /// children.
    pub fn new(name: &str, children: Vec<TreeNode>, policy: ParallelPolicy) -> (p: Parallel)
        requires
            policy_ok(policy, children@.len() as int),
        ensures
            p@ == (NodeView::Parallel {
                name: name@,
                policy,
                states: Seq::new(children@.len(), |i: int| NodeResult::Running),
                children: TreeNode::views(children@),
            }),
            NodeView::wf_all(TreeNode::views(children@)) ==> p@.wf(),
    {
        let n = children.len();
        let mut states: Vec<NodeResult> = Vec::new();
        let mut i: usize = 0;
        while i < n
            invariant
                i <= n,
                states@.len() == i,
                forall|j: int| 0 <= j < i ==> states@[j] == NodeResult::Running,
            decreases n - i,
        {
            states.push(NodeResult::Running);
            i += 1;
        }
        proof {
            assert(states@ =~= Seq::new(children@.len(), |k: int| NodeResult::Running));
            lemma_views_pointwise(children@);
        }
        Parallel { name: name.to_owned(), policy, states, children }
    }

    /// Judge the recorded outcomes against the policy, exactly as
    /// `eval_policy` states it.
    pub fn evaluate_policy(&self) -> (r: NodeResult)
        requires
            self@.wf(),
        ensures
            r == eval_policy(
                self.policy,
                count_of(self.states@, NodeResult::Passed),
                count_of(self.states@, NodeResult::Failed),
                self.states@.len() as int,
            ),
    {
        let n = self.states.len();
        let mut passed: usize = 0;
        let mut failed: usize = 0;
        let mut i: usize = 0;
        while i < n
            invariant
                i <= n,
                n == self.states@.len(),
                passed == count_of(self.states@.take(i as int), NodeResult::Passed),
                failed == count_of(self.states@.take(i as int), NodeResult::Failed),
                passed <= i,
                failed <= i,
            decreases n - i,
        {
            proof {
                lemma_count_take_step(self.states@, i as int, NodeResult::Passed);
                lemma_count_take_step(self.states@, i as int, NodeResult::Failed);
                lemma_count_bounds(self.states@.take(i as int + 1), NodeResult::Passed);
                lemma_count_bounds(self.states@.take(i as int + 1), NodeResult::Failed);
            }
            match self.states[i] {
                NodeResult::Passed => {
                    passed += 1;
                },
                NodeResult::Failed => {
                    failed += 1;
                },
                NodeResult::Running => {},
            }
            i += 1;
        }
        proof {
            assert(self.states@.take(n as int) =~= self.states@);
        }
        match self.policy {
            ParallelPolicy::RequireAll => {
                if passed == n {
                    NodeResult::Passed
                } else if failed > 0 {
                    NodeResult::Failed
                } else {
                    NodeResult::Running
                }
            },
            ParallelPolicy::RequireOne => {
                if passed > 0 {
                    NodeResult::Passed
                } else if failed == n {
                    NodeResult::Failed
                } else {
                    NodeResult::Running
                }
            },
            ParallelPolicy::RequireCount(required) => {
                if passed >= required {
                    NodeResult::Passed
                } else if n - required < failed {
                    NodeResult::Failed
                } else {
                    NodeResult::Running
                }
            },
        }
    }

    /// One tick: every child still recorded `Running` is ticked once and its
    /// outcome recorded; resolved children keep their memorized outcome and
    /// are not re-entered. The answer is the policy verdict over the
    /// recorded outcomes as they stand after this update. No self-reset
    /// happens on resolution.
    pub fn tick<A: Agent>(&mut self, agent: &mut A, blackboard: &mut BlackBoard) -> (r:
        NodeResult)
        requires
            old(self)@.wf(),
        ensures
            final(self)@.wf(),
            final(self)@.refreshed() == old(self)@.refreshed(),
            final(self).name@ == old(self).name@,
            final(self).policy == old(self).policy,
            final(self).states@.len() == old(self).states@.len(),
            final(self).children@.len() == old(self).children@.len(),
            forall|j: int|
                0 <= j < old(self).states@.len() && old(self).states@[j] != NodeResult::Running
                    ==> final(self).states@[j] == old(self).states@[j] && final(self).children@[j] == old(self).children@[j],
            r == eval_policy(
                old(self).policy,
                count_of(final(self).states@, NodeResult::Passed),
                count_of(final(self).states@, NodeResult::Failed),
                final(self).states@.len() as int,
            ),
        decreases *old(self),
    {
        proof {
            lemma_views_pointwise(self.children@);
            lemma_views_wf(self.children@);
        }
        let n = self.children.len();
        let mut i: usize = 0;
        while i < n
            invariant
                i <= n,
                n == self.children@.len(),
                self.children@.len() == old(self).children@.len(),
                self.states@.len() == old(self).states@.len(),
                self.states@.len() == self.children@.len(),
                self.name@ == old(self).name@,
                self.policy == old(self).policy,
                policy_ok(self.policy, self.children@.len() as int),
                forall|j: int|
                    i <= j < self.children@.len() ==> self.children@[j] == old(self).children@[j]
                        && self.states@[j] == old(self).states@[j],
                forall|j: int|
                    0 <= j < old(self).states@.len() && old(self).states@[j]
                        != NodeResult::Running ==> self.states@[j] == old(self).states@[j]
                        && self.children@[j] == old(self).children@[j],
                forall|j: int|
                    0 <= j < self.children@.len() ==> (#[trigger] self.children@[j])@.wf(),
                forall|j: int|
                    0 <= j < self.children@.len() ==> (#[trigger] self.children@[j])@.refreshed()
                        == old(self).children@[j]@.refreshed(),
            decreases n - i,
        {
            let keep_going = match self.states[i] {
                NodeResult::Running => true,
                _ => false,
            };
            if keep_going {
                let r = self.children[i].tick(agent, blackboard);
                self.states[i] = r;
            }
            i += 1;
        }
        proof {
            lemma_views_wf(self.children@);
            lemma_children_shape(self.children@, old(self).children@);
            assert(self@.refreshed() =~= old(self)@.refreshed());
        }
        self.evaluate_policy()
    }

    /// Reset every child and set every recorded outcome back to `Running`.
    pub fn reset(&mut self)
        requires
            old(self)@.wf(),
        ensures
            final(self)@.wf(),
            final(self)@ == old(self)@.refreshed(),
            final(self).name@ == old(self).name@,
            final(self).policy == old(self).policy,
            final(self).states@.len() == old(self).states@.len(),
            final(self).children@.len() == old(self).children@.len(),
        decreases *old(self),
    {
        proof {
            lemma_views_pointwise(self.children@);
            lemma_views_wf(self.children@);
        }
        let n = self.children.len();
        let mut i: usize = 0;
        while i < n
            invariant
                i <= n,
                n == self.children@.len(),
                self.children@.len() == old(self).children@.len(),
                self.states@.len() == old(self).states@.len(),
                self.states@.len() == self.children@.len(),
                self.name@ == old(self).name@,
                self.policy == old(self).policy,
                forall|j: int|
                    i <= j < self.children@.len() ==> self.children@[j] == old(self).children@[j],
                forall|j: int|
                    0 <= j < i ==> (#[trigger] self.children@[j])@ == old(self).children@[j]@.refreshed(),
                forall|j: int| 0 <= j < i ==> (#[trigger] self.states@[j]) == NodeResult::Running,
                forall|j: int|
                    0 <= j < i ==> (#[trigger] self.children@[j])@.wf(),
                forall|j: int|
                    i <= j < self.children@.len() ==> (#[trigger] self.children@[j])@.wf(),
            decreases n - i,
        {
            self.children[i].reset();
            self.states[i] = NodeResult::Running;
            i += 1;
        }
        proof {
            lemma_children_refreshed(self.children@, old(self).children@);
            lemma_views_wf(self.children@);
            crate::model::lemma_refreshed_wf(old(self)@);
            assert(self.states@ =~= Seq::new(
                old(self).states@.len(),
                |k: int| NodeResult::Running,
            ));
            assert(self@ =~= old(self)@.refreshed());
        }
    }

    pub fn name(&self) -> (n: &str)
        ensures
            n@ == self@.name_of(),
    {
        self.name.as_str()
    }
}

impl Node for Parallel {
    open spec fn inv(&self) -> bool {
        self@.wf()
    }

    fn tick<A: Agent>(&mut self, agent: &mut A, blackboard: &mut BlackBoard) -> (r: NodeResult) {
        Parallel::tick(self, agent, blackboard)
    }

    fn reset(&mut self) {
        Parallel::reset(self);
    }

    fn name(&self) -> &str {
        Parallel::name(self)
    }
}

} // verus!
