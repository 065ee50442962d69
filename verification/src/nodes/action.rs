//! Action leaf: wraps one caller-supplied behavior, named so the agent can
//! dispatch to it. Ticking runs the behavior; an action keeps no state of its
//! own between ticks, so `reset` has nothing to do.

use vstd::prelude::*;
use crate::blackboard::BlackBoard;
use crate::model::NodeView;
use crate::node::{Agent, Node, NodeResult};

verus! {

pub struct Action {
    pub name: String,
}

impl View for Action {
    type V = NodeView;

    open spec fn view(&self) -> NodeView {
        NodeView::Action { name: self.name@ }
    }
}

impl Action {
    pub fn new(name: &str) -> (a: Action)
        ensures
            a@ == (NodeView::Action { name: name@ }),
            a@.wf(),
    {
        Action { name: name.to_owned() }
    }

    /// Run the behavior this leaf names and hand its result through
    /// unmodified. The leaf itself is unchanged by a tick: any state it
    /// wants across ticks must live in the blackboard.
    pub fn tick<A: Agent>(&mut self, agent: &mut A, blackboard: &mut BlackBoard) -> (r:
        NodeResult)
        ensures
            *final(self) == *old(self),
    {
        agent.act(self.name.as_str(), blackboard)
    }

    pub fn reset(&mut self)
        ensures
            *final(self) == *old(self),
    {
    }

    pub fn name(&self) -> (n: &str)
        ensures
            n@ == self@.name_of(),
    {
        self.name.as_str()
    }
}

impl Node for Action {
    open spec fn inv(&self) -> bool {
        self@.wf()
    }

    fn tick<A: Agent>(&mut self, agent: &mut A, blackboard: &mut BlackBoard) -> (r: NodeResult) {
        Action::tick(self, agent, blackboard)
    }

    fn reset(&mut self) {
        Action::reset(self);
    }

    fn name(&self) -> &str {
        Action::name(self)
    }
}

} // verus!
