//! Sequence composite: "do child 0, then child 1, ... — all must pass."
//!
//! The sequence keeps a resume cursor. A tick continues from the cursor, not
//! from the first child, so a subtree that answered `Running` is the one
//! re-entered next cycle and completed children do not re-fire. A failing
//! child fails the whole sequence at once and resets it; running off the end
//! passes and resets it, ready to start over next cycle.

use vstd::prelude::*;
use crate::blackboard::BlackBoard;
use crate::model::NodeView;
use crate::model::lemma_refreshed_idempotent;
use crate::node::{
    Agent,
    Node,
    NodeResult,
    TreeNode,
    lemma_children_refreshed,
    lemma_children_shape,
    lemma_views_pointwise,
    lemma_views_wf,
};

verus! {

pub struct Sequence {
    pub name: String,
    pub cursor: usize,
    pub children: Vec<TreeNode>,
}

impl View for Sequence {
    type V = NodeView;

    open spec fn view(&self) -> NodeView {
        NodeView::Sequence {
            name: self.name@,
            cursor: self.cursor as int,
            children: TreeNode::views(self.children@),
        }
    }
}

impl Sequence {
    pub fn new(name: &str, children: Vec<TreeNode>) -> (s: Sequence)
        ensures
            s@ == (NodeView::Sequence {
                name: name@,
                cursor: 0,
                children: TreeNode::views(children@),
            }),
            NodeView::wf_all(TreeNode::views(children@)) ==> s@.wf(),
    {
        Sequence { name: name.to_owned(), cursor: 0, children }
    }

    /// One tick of the sequence, resuming at the cursor.
    ///
    /// - A child's `Passed` advances the cursor and the tick cascades on
    ///   within the same call.
    /// - A child's `Failed` resolves the sequence to `Failed` and fully
    ///   resets it, so the next tick starts over from the first child.
    /// - A child's `Running` is answered with `Running`; the cursor parks on
    ///   that child, children before it are left exactly as they were (their
    ///   work is not redone), and children after it are untouched.
    /// - Reaching the end — immediately, for an empty sequence — resolves to
    ///   `Passed` and fully resets.
    pub fn tick<A: Agent>(&mut self, agent: &mut A, blackboard: &mut BlackBoard) -> (r:
        NodeResult)
        requires
            old(self)@.wf(),
        ensures
            final(self)@.wf(),
            final(self)@.refreshed() == old(self)@.refreshed(),
            final(self).name@ == old(self).name@,
            final(self).children@.len() == old(self).children@.len(),
            r != NodeResult::Running ==> final(self)@.is_fresh() && final(self).cursor == 0,
            r == NodeResult::Running ==> {
                &&& old(self).cursor <= final(self).cursor < final(self).children@.len()
                &&& forall|j: int|
                    0 <= j < old(self).cursor ==> final(self).children@[j] == old(self).children@[j]
                &&& forall|j: int|
                    final(self).cursor < j < final(self).children@.len() ==> final(self).children@[j] == old(self).children@[j]
            },
            old(self).children@.len() == 0 ==> r == NodeResult::Passed,
        decreases *old(self),
    {
        proof {
            lemma_views_pointwise(self.children@);
            lemma_views_wf(self.children@);
        }
        while self.cursor < self.children.len()
            invariant
                self.children@.len() == old(self).children@.len(),
                self.name@ == old(self).name@,
                old(self).cursor <= self.cursor <= self.children@.len(),
                forall|j: int|
                    0 <= j < old(self).cursor ==> self.children@[j] == old(self).children@[j],
                forall|j: int|
                    self.cursor <= j < self.children@.len() ==> self.children@[j] == old(self).children@[j],
                forall|j: int|
                    0 <= j < self.children@.len() ==> (#[trigger] self.children@[j])@.wf(),
                forall|j: int|
                    0 <= j < self.children@.len() ==> (#[trigger] self.children@[j])@.refreshed()
                        == old(self).children@[j]@.refreshed(),
            decreases self.children@.len() - self.cursor,
        {
            let i = self.cursor;
            let r = self.children[i].tick(agent, blackboard);
            match r {
                NodeResult::Passed => {
                    self.cursor = i + 1;
                },
                NodeResult::Failed => {
                    proof {
                        lemma_views_wf(self.children@);
                        lemma_children_shape(self.children@, old(self).children@);
                    }
                    self.reset();
                    proof {
                        lemma_refreshed_idempotent(old(self)@);
                    }
                    return NodeResult::Failed;
                },
                NodeResult::Running => {
                    proof {
                        lemma_views_wf(self.children@);
                        lemma_children_shape(self.children@, old(self).children@);
                    }
                    return NodeResult::Running;
                },
            }
        }
        proof {
            lemma_views_wf(self.children@);
            lemma_children_shape(self.children@, old(self).children@);
        }
        self.reset();
        proof {
            lemma_refreshed_idempotent(old(self)@);
        }
        NodeResult::Passed
    }

    /// Put the cursor back on the first child and reset every child.
    pub fn reset(&mut self)
        requires
            old(self)@.wf(),
        ensures
            final(self)@.wf(),
            final(self)@ == old(self)@.refreshed(),
            final(self).cursor == 0,
            final(self).name@ == old(self).name@,
            final(self).children@.len() == old(self).children@.len(),
        decreases *old(self),
    {
        proof {
            lemma_views_pointwise(self.children@);
            lemma_views_wf(self.children@);
        }
        self.cursor = 0;
        let n = self.children.len();
        let mut i: usize = 0;
        while i < n
            invariant
                n == self.children@.len(),
                self.children@.len() == old(self).children@.len(),
                self.name@ == old(self).name@,
                self.cursor == 0,
                i <= n,
                forall|j: int|
                    i <= j < self.children@.len() ==> self.children@[j] == old(self).children@[j],
                forall|j: int|
                    0 <= j < i ==> (#[trigger] self.children@[j])@ == old(self).children@[j]@.refreshed(),
                forall|j: int|
                    0 <= j < i ==> (#[trigger] self.children@[j])@.wf(),
                forall|j: int|
                    i <= j < self.children@.len() ==> (#[trigger] self.children@[j])@.wf(),
            decreases n - i,
        {
            self.children[i].reset();
            i += 1;
        }
        proof {
            lemma_children_refreshed(self.children@, old(self).children@);
            lemma_views_wf(self.children@);
            crate::model::lemma_refreshed_wf(old(self)@);
            assert(self@ =~= old(self)@.refreshed());
        }
    }

    pub fn name(&self) -> (n: &str)
        ensures
            n@ == self@.name_of(),
    {
        self.name.as_str()
    }
}

impl Node for Sequence {
    open spec fn inv(&self) -> bool {
        self@.wf()
    }

    fn tick<A: Agent>(&mut self, agent: &mut A, blackboard: &mut BlackBoard) -> (r: NodeResult) {
        Sequence::tick(self, agent, blackboard)
    }

    fn reset(&mut self) {
        Sequence::reset(self);
    }

    fn name(&self) -> &str {
        Sequence::name(self)
    }
}

} // verus!
