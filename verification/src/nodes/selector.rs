//! Selector composite: "try child 0, then child 1, ... — the first to pass
//! wins." The mirror of `Sequence` with the roles of `Passed` and `Failed`
//! swapped: a failing child makes the cursor move on to the next alternative
//! within the same tick; a passing or still-running child short-circuits the
//! rest. Resolving — either way — fully resets the selector so the next
//! cycle starts again from the first alternative.

use vstd::prelude::*;
use crate::blackboard::BlackBoard;
use crate::model::NodeView;
use crate::model::lemma_refreshed_idempotent;
use crate::node::{
    Agent,
    Node,
    NodeResult,
    TreeNode,
    lemma_children_refreshed,
    lemma_children_shape,
    lemma_views_pointwise,
    lemma_views_wf,
};

verus! {

pub struct Selector {
    pub name: String,
    pub cursor: usize,
    pub children: Vec<TreeNode>,
}

impl View for Selector {
    type V = NodeView;

    open spec fn view(&self) -> NodeView {
        NodeView::Selector {
            name: self.name@,
            cursor: self.cursor as int,
            children: TreeNode::views(self.children@),
        }
    }
}

impl Selector {
    pub fn new(name: &str, children: Vec<TreeNode>) -> (s: Selector)
        ensures
            s@ == (NodeView::Selector {
                name: name@,
                cursor: 0,
                children: TreeNode::views(children@),
            }),
            NodeView::wf_all(TreeNode::views(children@)) ==> s@.wf(),
    {
        Selector { name: name.to_owned(), cursor: 0, children }
    }

    /// One tick of the selector, resuming at the cursor.
    ///
    /// - A child's `Failed` advances the cursor to the next alternative and
    ///   the tick cascades on within the same call.
    /// - A child's `Passed` resolves the selector to `Passed` and fully
    ///   resets it.
    /// - A child's `Running` is answered with `Running`; the cursor parks on
    ///   that child, whose in-progress state is preserved, and children
    ///   after it stay untouched.
    /// - Exhausting the alternatives — immediately, for an empty selector —
    ///   resolves to `Failed` and fully resets.
    pub fn tick<A: Agent>(&mut self, agent: &mut A, blackboard: &mut BlackBoard) -> (r:
        NodeResult)
        requires
            old(self)@.wf(),
        ensures
            final(self)@.wf(),
            final(self)@.refreshed() == old(self)@.refreshed(),
            final(self).name@ == old(self).name@,
            final(self).children@.len() == old(self).children@.len(),
            r != NodeResult::Running ==> final(self)@.is_fresh() && final(self).cursor == 0,
            r == NodeResult::Running ==> {
                &&& old(self).cursor <= final(self).cursor < final(self).children@.len()
                &&& forall|j: int|
                    0 <= j < old(self).cursor ==> final(self).children@[j] == old(self).children@[j]
                &&& forall|j: int|
                    final(self).cursor < j < final(self).children@.len() ==> final(self).children@[j] == old(self).children@[j]
            },
            old(self).children@.len() == 0 ==> r == NodeResult::Failed,
        decreases *old(self),
    {
        proof {
            lemma_views_pointwise(self.children@);
            lemma_views_wf(self.children@);
        }
        while self.cursor < self.children.len()
            invariant
                self.children@.len() == old(self).children@.len(),
                self.name@ == old(self).name@,
                old(self).cursor <= self.cursor <= self.children@.len(),
                forall|j: int|
                    0 <= j < old(self).cursor ==> self.children@[j] == old(self).children@[j],
                forall|j: int|
                    self.cursor <= j < self.children@.len() ==> self.children@[j] == old(self).children@[j],
                forall|j: int|
                    0 <= j < self.children@.len() ==> (#[trigger] self.children@[j])@.wf(),
                forall|j: int|
                    0 <= j < self.children@.len() ==> (#[trigger] self.children@[j])@.refreshed()
                        == old(self).children@[j]@.refreshed(),
            decreases self.children@.len() - self.cursor,
        {
            let i = self.cursor;
            let r = self.children[i].tick(agent, blackboard);
            match r {
                NodeResult::Failed => {
                    self.cursor = i + 1;
                },
                NodeResult::Passed => {
                    proof {
                        lemma_views_wf(self.children@);
                        lemma_children_shape(self.children@, old(self).children@);
                    }
                    self.reset();
                    proof {
                        lemma_refreshed_idempotent(old(self)@);
                    }
                    return NodeResult::Passed;
                },
                NodeResult::Running => {
                    proof {
                        lemma_views_wf(self.children@);
                        lemma_children_shape(self.children@, old(self).children@);
                    }
                    return NodeResult::Running;
                },
            }
        }
        proof {
            lemma_views_wf(self.children@);
            lemma_children_shape(self.children@, old(self).children@);
        }
        self.reset();
        proof {
            lemma_refreshed_idempotent(old(self)@);
        }
        NodeResult::Failed
    }

    /// Put the cursor back on the first alternative and reset every child.
    pub fn reset(&mut self)
        requires
            old(self)@.wf(),
        ensures
            final(self)@.wf(),
            final(self)@ == old(self)@.refreshed(),
            final(self).cursor == 0,
            final(self).name@ == old(self).name@,
            final(self).children@.len() == old(self).children@.len(),
        decreases *old(self),
    {
        proof {
            lemma_views_pointwise(self.children@);
            lemma_views_wf(self.children@);
        }
        self.cursor = 0;
        let n = self.children.len();
        let mut i: usize = 0;
        while i < n
            invariant
                n == self.children@.len(),
                self.children@.len() == old(self).children@.len(),
                self.name@ == old(self).name@,
                self.cursor == 0,
                i <= n,
                forall|j: int|
                    i <= j < self.children@.len() ==> self.children@[j] == old(self).children@[j],
                forall|j: int|
                    0 <= j < i ==> (#[trigger] self.children@[j])@ == old(self).children@[j]@.refreshed(),
                forall|j: int|
                    0 <= j < i ==> (#[trigger] self.children@[j])@.wf(),
                forall|j: int|
                    i <= j < self.children@.len() ==> (#[trigger] self.children@[j])@.wf(),
            decreases n - i,
        {
            self.children[i].reset();
            i += 1;
        }
        proof {
            lemma_children_refreshed(self.children@, old(self).children@);
            lemma_views_wf(self.children@);
            crate::model::lemma_refreshed_wf(old(self)@);
            assert(self@ =~= old(self)@.refreshed());
        }
    }

    pub fn name(&self) -> (n: &str)
        ensures
            n@ == self@.name_of(),
    {
        self.name.as_str()
    }
}

impl Node for Selector {
    open spec fn inv(&self) -> bool {
        self@.wf()
    }

    fn tick<A: Agent>(&mut self, agent: &mut A, blackboard: &mut BlackBoard) -> (r: NodeResult) {
        Selector::tick(self, agent, blackboard)
    }

    fn reset(&mut self) {
        Selector::reset(self);
    }

    fn name(&self) -> &str {
        Selector::name(self)
    }
}

} // verus!
