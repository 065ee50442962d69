//! Timeout decorator: bounds how long a child may keep answering `Running`.
//!
//! The first tick after a (re)start records the clock as the start instant.
//! A tick that finds the limit already reached force-fails: it answers
//! `Failed` and resets — clearing the timer and resetting the child —
//! without ticking the child that cycle. Otherwise the child is ticked; when
//! it resolves the timer is cleared and its result passes through, and while
//! it runs the timer keeps running. So the timer is live exactly while the
//! answer is `Running`.

use vstd::prelude::*;
use crate::blackboard::BlackBoard;
use crate::model::NodeView;
use crate::model::lemma_refreshed_idempotent;
use crate::node::{Agent, Node, NodeResult, TreeNode};

verus! {

/// Has a timer started at `start` reached `limit_ms` by `now`? A clock that
/// jumped backwards counts as no elapsed time.
pub open spec fn timer_expired(start: u64, now: u64, limit_ms: u64) -> bool {
    now >= start && now - start >= limit_ms
}

/// The executable expiry test, exact against its model.
pub fn expired(start: u64, now: u64, limit_ms: u64) -> (b: bool)
    ensures
        b == timer_expired(start, now, limit_ms),
{
    now >= start && now - start >= limit_ms
}

pub struct Timeout {
    pub name: String,
    pub limit_ms: u64,
    pub started: Option<u64>,
    pub child: Box<TreeNode>,
}

impl View for Timeout {
    type V = NodeView;

    open spec fn view(&self) -> NodeView {
        NodeView::Timeout {
            name: self.name@,
            limit_ms: self.limit_ms,
            started: self.started,
            child: Box::new(self.child.view_of()),
        }
    }
}

impl Timeout {
    pub fn new(name: &str, child: TreeNode, limit_ms: u64) -> (t: Timeout)
        ensures
            t@ == (NodeView::Timeout {
                name: name@,
                limit_ms,
                started: None,
                child: Box::new(child@),
            }),
            child@.wf() ==> t@.wf(),
    {
        Timeout { name: name.to_owned(), limit_ms, started: None, child: Box::new(child) }
    }

    /// One tick under the time bound. The timer is live afterwards exactly
    /// when the answer is `Running`, and a live timer is never restarted:
    /// it keeps the instant recorded when the child began running.
    pub fn tick<A: Agent>(&mut self, agent: &mut A, blackboard: &mut BlackBoard) -> (r:
        NodeResult)
        requires
            old(self)@.wf(),
        ensures
            final(self)@.wf(),
            final(self)@.refreshed() == old(self)@.refreshed(),
            final(self).name@ == old(self).name@,
            final(self).limit_ms == old(self).limit_ms,
            final(self).started is Some <==> r == NodeResult::Running,
            old(self).started is Some && final(self).started is Some ==> final(self).started
                == old(self).started,
        decreases *old(self),
    {
        let now = agent.now_ms();
        let start = match self.started {
            Some(s) => s,
            None => {
                self.started = Some(now);
                now
            },
        };
        if expired(start, now, self.limit_ms) {
            self.reset();
            proof {
                lemma_refreshed_idempotent(old(self)@);
            }
            return NodeResult::Failed;
        }
        let r = self.child.tick(agent, blackboard);
        match r {
            NodeResult::Running => {},
            _ => {
                self.started = None;
            },
        }
        r
    }

    /// Clear the timer and reset the child.
    pub fn reset(&mut self)
        requires
            old(self)@.wf(),
        ensures
            final(self)@.wf(),
            final(self)@ == old(self)@.refreshed(),
        decreases *old(self),
    {
        self.child.reset();
        self.started = None;
    }

    pub fn name(&self) -> (n: &str)
        ensures
            n@ == self@.name_of(),
    {
        self.name.as_str()
    }
}

impl Node for Timeout {
    open spec fn inv(&self) -> bool {
        self@.wf()
    }

    fn tick<A: Agent>(&mut self, agent: &mut A, blackboard: &mut BlackBoard) -> (r: NodeResult) {
        Timeout::tick(self, agent, blackboard)
    }

    fn reset(&mut self) {
        Timeout::reset(self);
    }

    fn name(&self) -> &str {
        Timeout::name(self)
    }
}

} // verus!
