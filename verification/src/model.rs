//! Mathematical model of behavior-tree nodes.
//!
//! Every executable node type has a view into `NodeView`, a ghost datatype
//! that records the node kind, its name, its children, and the mutable
//! per-node progress state (resume cursor, recorded child outcomes, timer).
//! The contracts of `tick` and `reset` are stated over this model.

use vstd::prelude::*;
use crate::node::NodeResult;
use crate::nodes::parallel::ParallelPolicy;

verus! {

/// The model of one tree node: its kind, name, children and mutable state.
#[verifier::ext_equal]
pub enum NodeView {
    Action { name: Seq<char> },
    Condition { name: Seq<char> },
    Sequence { name: Seq<char>, cursor: int, children: Seq<NodeView> },
    Selector { name: Seq<char>, cursor: int, children: Seq<NodeView> },
    Parallel {
        name: Seq<char>,
        policy: ParallelPolicy,
        states: Seq<NodeResult>,
        children: Seq<NodeView>,
    },
    Inverter { name: Seq<char>, child: Box<NodeView> },
    Repeat { name: Seq<char>, child: Box<NodeView> },
    Timeout { name: Seq<char>, limit_ms: u64, started: Option<u64>, child: Box<NodeView> },
}

/// A `RequireCount` policy must not ask for more passes than there are children.
pub open spec fn policy_ok(policy: ParallelPolicy, total: int) -> bool {
    match policy {
        ParallelPolicy::RequireAll => true,
        ParallelPolicy::RequireOne => true,
        ParallelPolicy::RequireCount(required) => required <= total,
    }
}

impl NodeView {
    /// Structural well-formedness: cursors stay within the child list, the
    /// recorded outcome vector of a parallel node matches its children, and
    /// every subtree is well formed in turn.
    pub open spec fn wf(self) -> bool
        decreases self,
    {
        match self {
            NodeView::Action { .. } => true,
            NodeView::Condition { .. } => true,
            NodeView::Sequence { cursor, children, .. } => {
                &&& 0 <= cursor <= children.len()
                &&& Self::wf_all(children)
            },
            NodeView::Selector { cursor, children, .. } => {
                &&& 0 <= cursor <= children.len()
                &&& Self::wf_all(children)
            },
            NodeView::Parallel { policy, states, children, .. } => {
                &&& states.len() == children.len()
                &&& policy_ok(policy, children.len() as int)
                &&& Self::wf_all(children)
            },
            NodeView::Inverter { child, .. } => child.wf(),
            NodeView::Repeat { child, .. } => child.wf(),
            NodeView::Timeout { child, .. } => child.wf(),
        }
    }

    pub open spec fn wf_all(s: Seq<NodeView>) -> bool
        decreases s,
    {
        if s.len() == 0 {
            true
        } else {
            Self::wf_all(s.drop_last()) && s.last().wf()
        }
    }

    /// The state a node is in right after `reset`: cursors back at the first
    /// child, all recorded parallel outcomes back to `Running`, timers
    /// cleared, and every subtree refreshed as well. The tree shape, names
    /// and configuration are untouched.
    pub open spec fn refreshed(self) -> NodeView
        decreases self,
    {
        match self {
            NodeView::Action { name } => NodeView::Action { name },
            NodeView::Condition { name } => NodeView::Condition { name },
            NodeView::Sequence { name, children, .. } => NodeView::Sequence {
                name,
                cursor: 0,
                children: Self::refreshed_all(children),
            },
            NodeView::Selector { name, children, .. } => NodeView::Selector {
                name,
                cursor: 0,
                children: Self::refreshed_all(children),
            },
            NodeView::Parallel { name, policy, states, children } => NodeView::Parallel {
                name,
                policy,
                states: Seq::new(states.len(), |i: int| NodeResult::Running),
                children: Self::refreshed_all(children),
            },
            NodeView::Inverter { name, child } => NodeView::Inverter {
                name,
                child: Box::new(child.refreshed()),
            },
            NodeView::Repeat { name, child } => NodeView::Repeat {
                name,
                child: Box::new(child.refreshed()),
            },
            NodeView::Timeout { name, limit_ms, child, .. } => NodeView::Timeout {
                name,
                limit_ms,
                started: None,
                child: Box::new(child.refreshed()),
            },
        }
    }

    pub open spec fn refreshed_all(s: Seq<NodeView>) -> Seq<NodeView>
        decreases s,
    {
        if s.len() == 0 {
            Seq::empty()
        } else {
            Self::refreshed_all(s.drop_last()).push(s.last().refreshed())
        }
    }

    /// A node is fresh when a reset would not change it.
    pub open spec fn is_fresh(self) -> bool {
        self.refreshed() == self
    }

    pub open spec fn name_of(self) -> Seq<char> {
        match self {
            NodeView::Action { name } => name,
            NodeView::Condition { name } => name,
            NodeView::Sequence { name, .. } => name,
            NodeView::Selector { name, .. } => name,
            NodeView::Parallel { name, .. } => name,
            NodeView::Inverter { name, .. } => name,
            NodeView::Repeat { name, .. } => name,
            NodeView::Timeout { name, .. } => name,
        }
    }
}

pub proof fn lemma_wf_all_pointwise(s: Seq<NodeView>)
    ensures
        NodeView::wf_all(s) <==> (forall|j: int| 0 <= j < s.len() ==> (#[trigger] s[j]).wf()),
    decreases s,
{
    if s.len() > 0 {
        lemma_wf_all_pointwise(s.drop_last());
        assert(forall|j: int| 0 <= j < s.len() - 1 ==> s.drop_last()[j] == s[j]);
        assert(s.last() == s[s.len() - 1]);
    }
}

pub proof fn lemma_refreshed_all_pointwise(s: Seq<NodeView>)
    ensures
        NodeView::refreshed_all(s).len() == s.len(),
        forall|j: int|
            0 <= j < s.len() ==> NodeView::refreshed_all(s)[j] == (#[trigger] s[j]).refreshed(),
    decreases s,
{
    if s.len() > 0 {
        lemma_refreshed_all_pointwise(s.drop_last());
        assert(forall|j: int| 0 <= j < s.len() - 1 ==> s.drop_last()[j] == s[j]);
    }
}

/// Law: a reset is idempotent. A node that has just been reset is fresh, and
/// resetting it again changes nothing. Since `reset` ends in exactly the view
/// `refreshed(...)`, a reset node carries the same state a newly built copy
/// of the same tree starts in, so the ticks that follow behave identically.
pub proof fn lemma_refreshed_idempotent(v: NodeView)
    ensures
        v.refreshed().refreshed() == v.refreshed(),
        v.refreshed().is_fresh(),
    decreases v,
{
    match v {
        NodeView::Action { .. } => {},
        NodeView::Condition { .. } => {},
        NodeView::Sequence { children, .. } => {
            lemma_refreshed_all_idempotent(children);
        },
        NodeView::Selector { children, .. } => {
            lemma_refreshed_all_idempotent(children);
        },
        NodeView::Parallel { states, children, .. } => {
            lemma_refreshed_all_idempotent(children);
            assert(Seq::new(Seq::new(states.len(), |i: int| NodeResult::Running).len(), |i: int| NodeResult::Running)
                =~= Seq::new(states.len(), |i: int| NodeResult::Running));
            assert(v.refreshed().refreshed() =~= v.refreshed());
        },
        NodeView::Inverter { child, .. } => {
            lemma_refreshed_idempotent(*child);
        },
        NodeView::Repeat { child, .. } => {
            lemma_refreshed_idempotent(*child);
        },
        NodeView::Timeout { child, .. } => {
            lemma_refreshed_idempotent(*child);
        },
    }
}

pub proof fn lemma_refreshed_all_idempotent(s: Seq<NodeView>)
    ensures
        NodeView::refreshed_all(NodeView::refreshed_all(s)) == NodeView::refreshed_all(s),
    decreases s,
{
    if s.len() > 0 {
        lemma_refreshed_all_idempotent(s.drop_last());
        lemma_refreshed_idempotent(s.last());
        let r = NodeView::refreshed_all(s);
        assert(r.drop_last() =~= NodeView::refreshed_all(s.drop_last()));
        assert(r.last() == s.last().refreshed());
    }
}

/// Law: resetting preserves well-formedness.
pub proof fn lemma_refreshed_wf(v: NodeView)
    requires
        v.wf(),
    ensures
        v.refreshed().wf(),
    decreases v,
{
    match v {
        NodeView::Action { .. } => {},
        NodeView::Condition { .. } => {},
        NodeView::Sequence { children, .. } => {
            lemma_refreshed_all_wf(children);
            lemma_refreshed_all_pointwise(children);
        },
        NodeView::Selector { children, .. } => {
            lemma_refreshed_all_wf(children);
            lemma_refreshed_all_pointwise(children);
        },
        NodeView::Parallel { states, children, .. } => {
            lemma_refreshed_all_wf(children);
            lemma_refreshed_all_pointwise(children);
        },
        NodeView::Inverter { child, .. } => {
            lemma_refreshed_wf(*child);
        },
        NodeView::Repeat { child, .. } => {
            lemma_refreshed_wf(*child);
        },
        NodeView::Timeout { child, .. } => {
            lemma_refreshed_wf(*child);
        },
    }
}

pub proof fn lemma_refreshed_all_wf(s: Seq<NodeView>)
    requires
        NodeView::wf_all(s),
    ensures
        NodeView::wf_all(NodeView::refreshed_all(s)),
    decreases s,
{
    if s.len() > 0 {
        lemma_refreshed_all_wf(s.drop_last());
        lemma_refreshed_wf(s.last());
        let r = NodeView::refreshed_all(s);
        assert(r.drop_last() =~= NodeView::refreshed_all(s.drop_last()));
        assert(r.last() == s.last().refreshed());
    }
}

} // verus!
