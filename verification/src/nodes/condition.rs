//! Condition leaf: wraps one caller-supplied predicate over the blackboard.
//! A condition only gates — it reads the blackboard, never writes it, and
//! never reports `Running`.

use vstd::prelude::*;
use crate::blackboard::BlackBoard;
use crate::model::NodeView;
use crate::node::{Agent, Node, NodeResult};

verus! {

pub struct Condition {
    pub name: String,
}

impl View for Condition {
    type V = NodeView;

    open spec fn view(&self) -> NodeView {
        NodeView::Condition { name: self.name@ }
    }
}

impl Condition {
    pub fn new(name: &str) -> (c: Condition)
        ensures
            c@ == (NodeView::Condition { name: name@ }),
            c@.wf(),
    {
        Condition { name: name.to_owned() }
    }

    /// Evaluate the predicate this leaf names: `Passed` when it holds,
    /// `Failed` when it does not. A condition resolves on every tick — it
    /// never answers `Running`.
    pub fn tick<A: Agent>(&mut self, agent: &mut A, blackboard: &mut BlackBoard) -> (r:
        NodeResult)
        ensures
            *final(self) == *old(self),
            r == NodeResult::Passed || r == NodeResult::Failed,
    {
        let ok = agent.check(self.name.as_str(), blackboard);
        if ok {
            NodeResult::Passed
        } else {
            NodeResult::Failed
        }
    }

    pub fn reset(&mut self)
        ensures
            *final(self) == *old(self),
    {
    }

    pub fn name(&self) -> (n: &str)
        ensures
            n@ == self@.name_of(),
    {
        self.name.as_str()
    }
}

impl Node for Condition {
    open spec fn inv(&self) -> bool {
        self@.wf()
    }

    fn tick<A: Agent>(&mut self, agent: &mut A, blackboard: &mut BlackBoard) -> (r: NodeResult) {
        Condition::tick(self, agent, blackboard)
    }

    fn reset(&mut self) {
        Condition::reset(self);
    }

    fn name(&self) -> &str {
        Condition::name(self)
    }
}

} // verus!
