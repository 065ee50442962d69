//! The node abstraction: the tri-state tick result, the capability trait
//! every tree element offers, the closed set of node kinds, and the hook
//! through which caller-supplied leaf behaviors and the clock are reached.

use vstd::prelude::*;
use crate::blackboard::BlackBoard;
use crate::model::NodeView;
use crate::model::lemma_refreshed_all_pointwise;
use crate::model::lemma_wf_all_pointwise;
use crate::nodes::action::Action;
use crate::nodes::condition::Condition;
use crate::nodes::inverter::Inverter;
use crate::nodes::parallel::Parallel;
use crate::nodes::repeat::Repeat;
use crate::nodes::selector::Selector;
use crate::nodes::sequence::Sequence;
use crate::nodes::timeout::Timeout;

verus! {

/// The three-valued outcome of one tick. `Running` means "not resolved yet:
/// tick me again next cycle and I resume from my recorded progress point."
#[derive(Clone, Copy, PartialEq, Eq, Structural, Debug)]
pub enum NodeResult {
    Passed,
    Failed,
    Running,
}

/// Caller-supplied collaborators of one tree instance: the domain logic
/// behind `Action` and `Condition` leaves, and the clock `Timeout` reads.
///
/// Nothing is promised about these calls; every node contract above them
/// holds for every outcome an implementation may produce. An action may
/// mutate the blackboard; a condition only reads it; the clock reports
/// milliseconds and need not be monotone.
pub trait Agent {
    fn act(&mut self, name: &str, blackboard: &mut BlackBoard) -> NodeResult;

    fn check(&mut self, name: &str, blackboard: &BlackBoard) -> bool;

    fn now_ms(&mut self) -> u64;
}

/// The capability every tree element implements: tick it, reset it, name it.
pub trait Node {
    spec fn inv(&self) -> bool;

    fn tick<A: Agent>(&mut self, agent: &mut A, blackboard: &mut BlackBoard) -> (r: NodeResult)
        requires
            old(self).inv(),
        ensures
            final(self).inv(),
    ;

    fn reset(&mut self)
        requires
            old(self).inv(),
        ensures
            final(self).inv(),
    ;

    fn name(&self) -> &str;
}

/// One tree element: a closed set of node kinds ticked uniformly. Composites
/// and decorators own their children outright; the tree is strict, with no
/// sharing and no cycles.
pub enum TreeNode {
    Action(Action),
    Condition(Condition),
    Sequence(Sequence),
    Selector(Selector),
    Parallel(Parallel),
    Inverter(Inverter),
    Repeat(Repeat),
    Timeout(Timeout),
}

impl TreeNode {
    pub open spec fn view_of(self) -> NodeView
        decreases self,
    {
        match self {
            TreeNode::Action(a) => NodeView::Action { name: a.name@ },
            TreeNode::Condition(c) => NodeView::Condition { name: c.name@ },
            TreeNode::Sequence(s) => NodeView::Sequence {
                name: s.name@,
                cursor: s.cursor as int,
                children: Self::views(s.children@),
            },
            TreeNode::Selector(s) => NodeView::Selector {
                name: s.name@,
                cursor: s.cursor as int,
                children: Self::views(s.children@),
            },
            TreeNode::Parallel(p) => NodeView::Parallel {
                name: p.name@,
                policy: p.policy,
                states: p.states@,
                children: Self::views(p.children@),
            },
            TreeNode::Inverter(i) => NodeView::Inverter {
                name: i.name@,
                child: Box::new(i.child.view_of()),
            },
            TreeNode::Repeat(r) => NodeView::Repeat {
                name: r.name@,
                child: Box::new(r.child.view_of()),
            },
            TreeNode::Timeout(t) => NodeView::Timeout {
                name: t.name@,
                limit_ms: t.limit_ms,
                started: t.started,
                child: Box::new(t.child.view_of()),
            },
        }
    }

    pub open spec fn views(s: Seq<TreeNode>) -> Seq<NodeView>
        decreases s,
    {
        if s.len() == 0 {
            Seq::empty()
        } else {
            Self::views(s.drop_last()).push(s.last().view_of())
        }
    }
}

impl View for TreeNode {
    type V = NodeView;

    open spec fn view(&self) -> NodeView {
        self.view_of()
    }
}

pub proof fn lemma_views_pointwise(s: Seq<TreeNode>)
    ensures
        TreeNode::views(s).len() == s.len(),
        forall|j: int| 0 <= j < s.len() ==> TreeNode::views(s)[j] == (#[trigger] s[j]).view_of(),
    decreases s,
{
    if s.len() > 0 {
        lemma_views_pointwise(s.drop_last());
        assert(forall|j: int| 0 <= j < s.len() - 1 ==> s.drop_last()[j] == s[j]);
    }
}

/// A well-formed child list is well formed member by member.
pub proof fn lemma_views_wf(s: Seq<TreeNode>)
    ensures
        TreeNode::views(s).len() == s.len(),
        NodeView::wf_all(TreeNode::views(s)) <==> (forall|j: int|
            0 <= j < s.len() ==> (#[trigger] s[j]).view_of().wf()),
{
    let vs = TreeNode::views(s);
    lemma_views_pointwise(s);
    lemma_wf_all_pointwise(vs);
    if NodeView::wf_all(vs) {
        assert forall|j: int| 0 <= j < s.len() implies (#[trigger] s[j]).view_of().wf() by {
            assert(vs[j] == s[j].view_of());
            assert(vs[j].wf());
        }
    }
    if forall|j: int| 0 <= j < s.len() ==> (#[trigger] s[j]).view_of().wf() {
        assert forall|j: int| 0 <= j < vs.len() implies (#[trigger] vs[j]).wf() by {
            assert(vs[j] == s[j].view_of());
            assert(s[j].view_of().wf());
        }
        assert(NodeView::wf_all(vs));
    }
}

/// Appending a child appends its view, and the extended list is well formed
/// exactly when the list so far and the new child are.
pub proof fn lemma_views_push(s: Seq<TreeNode>, c: TreeNode)
    ensures
        TreeNode::views(s.push(c)) == TreeNode::views(s).push(c.view_of()),
        NodeView::wf_all(TreeNode::views(s.push(c))) == (NodeView::wf_all(TreeNode::views(s))
            && c.view_of().wf()),
{
    assert(s.push(c).drop_last() =~= s);
    assert(s.push(c).last() == c);
    assert(TreeNode::views(s).push(c.view_of()).drop_last() =~= TreeNode::views(s));
    assert(TreeNode::views(s).push(c.view_of()).last() == c.view_of());
}

/// A child list whose members have each been put into their refreshed state
/// is, as a whole, the refreshed original list.
pub proof fn lemma_children_refreshed(cur: Seq<TreeNode>, orig: Seq<TreeNode>)
    requires
        cur.len() == orig.len(),
        forall|j: int|
            0 <= j < cur.len() ==> (#[trigger] cur[j]).view_of() == orig[j].view_of().refreshed(),
    ensures
        TreeNode::views(cur) == NodeView::refreshed_all(TreeNode::views(orig)),
{
    let vc = TreeNode::views(cur);
    let vo = TreeNode::views(orig);
    lemma_views_pointwise(cur);
    lemma_views_pointwise(orig);
    lemma_refreshed_all_pointwise(vo);
    assert forall|j: int| 0 <= j < vc.len() implies vc[j] == NodeView::refreshed_all(vo)[j] by {
        assert(vc[j] == cur[j].view_of());
        assert(vo[j] == orig[j].view_of());
        assert(NodeView::refreshed_all(vo)[j] == vo[j].refreshed());
    }
    assert(vc =~= NodeView::refreshed_all(vo));
}

/// Ticking children in place does not change what the list refreshes to:
/// two lists that agree member by member on the refreshed view agree on the
/// refreshed list.
pub proof fn lemma_children_shape(cur: Seq<TreeNode>, orig: Seq<TreeNode>)
    requires
        cur.len() == orig.len(),
        forall|j: int|
            0 <= j < cur.len() ==> (#[trigger] cur[j]).view_of().refreshed()
                == orig[j].view_of().refreshed(),
    ensures
        NodeView::refreshed_all(TreeNode::views(cur)) == NodeView::refreshed_all(
            TreeNode::views(orig),
        ),
{
    let vc = TreeNode::views(cur);
    let vo = TreeNode::views(orig);
    lemma_views_pointwise(cur);
    lemma_views_pointwise(orig);
    lemma_refreshed_all_pointwise(vc);
    lemma_refreshed_all_pointwise(vo);
    assert forall|j: int|
        0 <= j < vc.len() implies NodeView::refreshed_all(vc)[j] == NodeView::refreshed_all(
        vo,
    )[j] by {
        assert(vc[j] == cur[j].view_of());
        assert(vo[j] == orig[j].view_of());
        assert(NodeView::refreshed_all(vc)[j] == vc[j].refreshed());
        assert(NodeView::refreshed_all(vo)[j] == vo[j].refreshed());
    }
    assert(NodeView::refreshed_all(vc) =~= NodeView::refreshed_all(vo));
}

impl TreeNode {
    /// Tick this node once: run its own step of the protocol, recursing
    /// depth-first into children. The tree shape survives every tick, and a
    /// well-formed node stays well formed whatever the leaves return.
    pub fn tick<A: Agent>(&mut self, agent: &mut A, blackboard: &mut BlackBoard) -> (r:
        NodeResult)
        requires
            old(self)@.wf(),
        ensures
            final(self)@.wf(),
            final(self)@.refreshed() == old(self)@.refreshed(),
        decreases *old(self),
    {
        match self {
            TreeNode::Action(a) => a.tick(agent, blackboard),
            TreeNode::Condition(c) => c.tick(agent, blackboard),
            TreeNode::Sequence(s) => s.tick(agent, blackboard),
            TreeNode::Selector(s) => s.tick(agent, blackboard),
            TreeNode::Parallel(p) => p.tick(agent, blackboard),
            TreeNode::Inverter(i) => i.tick(agent, blackboard),
            TreeNode::Repeat(r) => r.tick(agent, blackboard),
            TreeNode::Timeout(t) => t.tick(agent, blackboard),
        }
    }

    /// Put this node (and, recursively, its whole subtree) back into the
    /// state a freshly built copy starts in.
    pub fn reset(&mut self)
        requires
            old(self)@.wf(),
        ensures
            final(self)@.wf(),
            final(self)@ == old(self)@.refreshed(),
        decreases *old(self),
    {
        match self {
            TreeNode::Action(a) => a.reset(),
            TreeNode::Condition(c) => c.reset(),
            TreeNode::Sequence(s) => s.reset(),
            TreeNode::Selector(s) => s.reset(),
            TreeNode::Parallel(p) => p.reset(),
            TreeNode::Inverter(i) => i.reset(),
            TreeNode::Repeat(r) => r.reset(),
            TreeNode::Timeout(t) => t.reset(),
        }
    }

    pub fn name(&self) -> (n: &str)
        ensures
            n@ == self@.name_of(),
    {
        match self {
            TreeNode::Action(a) => a.name(),
            TreeNode::Condition(c) => c.name(),
            TreeNode::Sequence(s) => s.name(),
            TreeNode::Selector(s) => s.name(),
            TreeNode::Parallel(p) => p.name(),
            TreeNode::Inverter(i) => i.name(),
            TreeNode::Repeat(r) => r.name(),
            TreeNode::Timeout(t) => t.name(),
        }
    }
}

impl Node for TreeNode {
    open spec fn inv(&self) -> bool {
        self@.wf()
    }

    fn tick<A: Agent>(&mut self, agent: &mut A, blackboard: &mut BlackBoard) -> (r: NodeResult) {
        TreeNode::tick(self, agent, blackboard)
    }

    fn reset(&mut self) {
        TreeNode::reset(self);
    }

    fn name(&self) -> &str {
        TreeNode::name(self)
    }
}

} // verus!
