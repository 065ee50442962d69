//! The tree driver: owns exactly one root node and one blackboard, and
//! exposes the single external entry point — tick the root against the owned
//! blackboard — plus reset and blackboard access for seeding and observing
//! state between ticks.

use vstd::prelude::*;
use crate::blackboard::BlackBoard;
use crate::node::{Agent, NodeResult, TreeNode};

verus! {

pub struct BehavioralTree {
    pub root: TreeNode,
    pub blackboard: BlackBoard,
}

impl BehavioralTree {
    /// A tree over `root` with an empty blackboard.
    pub fn new(root: TreeNode) -> (t: BehavioralTree)
        ensures
            t.root == root,
            t.blackboard@ == Map::<Seq<char>, crate::blackboard::Value>::empty(),
    {
        BehavioralTree { root, blackboard: BlackBoard::new() }
    }

    /// Tick the root once against the owned blackboard. The tree shape
    /// survives, and a well-formed tree stays well formed whatever the
    /// leaves return.
    pub fn tick<A: Agent>(&mut self, agent: &mut A) -> (r: NodeResult)
        requires
            old(self).root@.wf(),
        ensures
            final(self).root@.wf(),
            final(self).root@.refreshed() == old(self).root@.refreshed(),
    {
        self.root.tick(agent, &mut self.blackboard)
    }

    /// Put the whole tree back into its freshly built state; the blackboard
    /// is left untouched.
    pub fn reset(&mut self)
        requires
            old(self).root@.wf(),
        ensures
            final(self).root@.wf(),
            final(self).root@ == old(self).root@.refreshed(),
            final(self).blackboard == old(self).blackboard,
    {
        self.root.reset();
    }

    /// The owned blackboard, for the caller to seed initial state and
    /// observe side effects between ticks.
    pub fn blackboard(&mut self) -> (bb: &mut BlackBoard)
        ensures
            *bb == old(self).blackboard,
            final(self).root == old(self).root,
            final(self).blackboard == *final(bb),
    {
        &mut self.blackboard
    }
}

} // verus!
