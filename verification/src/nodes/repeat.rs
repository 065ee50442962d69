//! Repeat-until-pass decorator: a passing child passes; any other outcome —
//! `Failed` included — is reported as `Running`, so the child is retried on
//! the next tick instead of propagating its failure. The retry is unbounded
//! by design; a caller wanting a cap composes one through the blackboard.

use vstd::prelude::*;
use crate::blackboard::BlackBoard;
use crate::model::NodeView;
use crate::node::{Agent, Node, NodeResult, TreeNode};

verus! {

/// `Passed` stays `Passed`; `Failed` and `Running` both become `Running`.
pub open spec fn retry_result(r: NodeResult) -> NodeResult {
    match r {
        NodeResult::Passed => NodeResult::Passed,
        NodeResult::Failed => NodeResult::Running,
        NodeResult::Running => NodeResult::Running,
    }
}

/// The executable retry mapping, exact against its model. It never answers
/// `Failed`.
pub fn retried(r: NodeResult) -> (out: NodeResult)
    ensures
        out == retry_result(r),
        out != NodeResult::Failed,
{
    match r {
        NodeResult::Passed => NodeResult::Passed,
        NodeResult::Failed => NodeResult::Running,
        NodeResult::Running => NodeResult::Running,
    }
}

pub struct Repeat {
    pub name: String,
    pub child: Box<TreeNode>,
}

impl View for Repeat {
    type V = NodeView;

    open spec fn view(&self) -> NodeView {
        NodeView::Repeat { name: self.name@, child: Box::new(self.child.view_of()) }
    }
}

impl Repeat {
    pub fn new(name: &str, child: TreeNode) -> (n: Repeat)
        ensures
            n@ == (NodeView::Repeat { name: name@, child: Box::new(child@) }),
            child@.wf() ==> n@.wf(),
    {
        Repeat { name: name.to_owned(), child: Box::new(child) }
    }

    /// Tick the child; pass a pass through, and turn anything else into
    /// `Running` so the child is tried again next cycle.
    pub fn tick<A: Agent>(&mut self, agent: &mut A, blackboard: &mut BlackBoard) -> (r:
        NodeResult)
        requires
            old(self)@.wf(),
        ensures
            final(self)@.wf(),
            final(self)@.refreshed() == old(self)@.refreshed(),
            final(self).name@ == old(self).name@,
            r != NodeResult::Failed,
        decreases *old(self),
    {
        let r = self.child.tick(agent, blackboard);
        retried(r)
    }

    pub fn reset(&mut self)
        requires
            old(self)@.wf(),
        ensures
            final(self)@.wf(),
            final(self)@ == old(self)@.refreshed(),
        decreases *old(self),
    {
        self.child.reset();
    }

    pub fn name(&self) -> (n: &str)
        ensures
            n@ == self@.name_of(),
    {
        self.name.as_str()
    }
}

impl Node for Repeat {
    open spec fn inv(&self) -> bool {
        self@.wf()
    }

    fn tick<A: Agent>(&mut self, agent: &mut A, blackboard: &mut BlackBoard) -> (r: NodeResult) {
        Repeat::tick(self, agent, blackboard)
    }

    fn reset(&mut self) {
        Repeat::reset(self);
    }

    fn name(&self) -> &str {
        Repeat::name(self)
    }
}

} // verus!
