//! Inverter decorator: swaps its child's `Passed` and `Failed`; a `Running`
//! child passes through unchanged.

use vstd::prelude::*;
use crate::blackboard::BlackBoard;
use crate::model::NodeView;
use crate::node::{Agent, Node, NodeResult, TreeNode};

verus! {

/// `Passed` and `Failed` swapped; `Running` untouched.
pub open spec fn invert_result(r: NodeResult) -> NodeResult {
    match r {
        NodeResult::Passed => NodeResult::Failed,
        NodeResult::Failed => NodeResult::Passed,
        NodeResult::Running => NodeResult::Running,
    }
}

/// Law: inversion swaps pass and fail in both directions and leaves a
/// running result alone.
pub proof fn lemma_invert_swaps()
    ensures
        invert_result(NodeResult::Passed) == NodeResult::Failed,
        invert_result(NodeResult::Failed) == NodeResult::Passed,
        invert_result(NodeResult::Running) == NodeResult::Running,
{
}

/// Law: inverting twice gives the original result back.
pub proof fn lemma_invert_involution(r: NodeResult)
    ensures
        invert_result(invert_result(r)) == r,
{
}

/// The executable inversion, exact against its model.
pub fn invert(r: NodeResult) -> (out: NodeResult)
    ensures
        out == invert_result(r),
{
    match r {
        NodeResult::Passed => NodeResult::Failed,
        NodeResult::Failed => NodeResult::Passed,
        NodeResult::Running => NodeResult::Running,
    }
}

pub struct Inverter {
    pub name: String,
    pub child: Box<TreeNode>,
}

impl View for Inverter {
    type V = NodeView;

    open spec fn view(&self) -> NodeView {
        NodeView::Inverter { name: self.name@, child: Box::new(self.child.view_of()) }
    }
}

impl Inverter {
    pub fn new(name: &str, child: TreeNode) -> (n: Inverter)
        ensures
            n@ == (NodeView::Inverter { name: name@, child: Box::new(child@) }),
            child@.wf() ==> n@.wf(),
    {
        Inverter { name: name.to_owned(), child: Box::new(child) }
    }

    /// Tick the child and answer its inverted result.
    pub fn tick<A: Agent>(&mut self, agent: &mut A, blackboard: &mut BlackBoard) -> (r:
        NodeResult)
        requires
            old(self)@.wf(),
        ensures
            final(self)@.wf(),
            final(self)@.refreshed() == old(self)@.refreshed(),
            final(self).name@ == old(self).name@,
        decreases *old(self),
    {
        let r = self.child.tick(agent, blackboard);
        invert(r)
    }

    pub fn reset(&mut self)
        requires
            old(self)@.wf(),
        ensures
            final(self)@.wf(),
            final(self)@ == old(self)@.refreshed(),
        decreases *old(self),
    {
        self.child.reset();
    }

    pub fn name(&self) -> (n: &str)
        ensures
            n@ == self@.name_of(),
    {
        self.name.as_str()
    }
}

impl Node for Inverter {
    open spec fn inv(&self) -> bool {
        self@.wf()
    }

    fn tick<A: Agent>(&mut self, agent: &mut A, blackboard: &mut BlackBoard) -> (r: NodeResult) {
        Inverter::tick(self, agent, blackboard)
    }

    fn reset(&mut self) {
        Inverter::reset(self);
    }

    fn name(&self) -> &str {
        Inverter::name(self)
    }
}

} // verus!
