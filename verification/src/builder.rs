//! Convenience constructors for assembling trees: free builders for the
//! leaves and decorators, and child-collecting builders for the composites.

use vstd::prelude::*;
use crate::model::{NodeView, policy_ok};
use crate::node::{NodeResult, TreeNode, lemma_views_push};
use crate::nodes::action::Action;
use crate::nodes::inverter::Inverter;
use crate::nodes::parallel::{Parallel, ParallelPolicy};
use crate::nodes::selector::Selector;
use crate::nodes::sequence::Sequence;
use crate::nodes::timeout::Timeout;

verus! {

pub struct TreeBuilder;

impl TreeBuilder {
    pub fn new() -> TreeBuilder {
        TreeBuilder
    }

    /// A leaf running the caller-supplied behavior of this name.
    pub fn action(name: &str) -> (n: TreeNode)
        ensures
            n@ == (NodeView::Action { name: name@ }),
            n@.wf(),
    {
        TreeNode::Action(Action::new(name))
    }

    pub fn sequence(name: &str) -> (b: SequenceBuilder)
        ensures
            b.name@ == name@,
            b.children@.len() == 0,
            NodeView::wf_all(TreeNode::views(b.children@)),
    {
        SequenceBuilder::new(name)
    }

    pub fn selector(name: &str) -> (b: SelectorBuilder)
        ensures
            b.name@ == name@,
            b.children@.len() == 0,
            NodeView::wf_all(TreeNode::views(b.children@)),
    {
        SelectorBuilder::new(name)
    }

    pub fn parallel(name: &str, policy: ParallelPolicy) -> (b: ParallelBuilder)
        ensures
            b.name@ == name@,
            b.policy == policy,
            b.children@.len() == 0,
            NodeView::wf_all(TreeNode::views(b.children@)),
    {
        ParallelBuilder::new(name, policy)
    }

    pub fn inverter(name: &str, child: TreeNode) -> (n: TreeNode)
        ensures
            n@ == (NodeView::Inverter { name: name@, child: Box::new(child@) }),
            child@.wf() ==> n@.wf(),
    {
        TreeNode::Inverter(Inverter::new(name, child))
    }

    pub fn timeout(name: &str, child: TreeNode, limit_ms: u64) -> (n: TreeNode)
        ensures
            n@ == (NodeView::Timeout {
                name: name@,
                limit_ms,
                started: None,
                child: Box::new(child@),
            }),
            child@.wf() ==> n@.wf(),
    {
        TreeNode::Timeout(Timeout::new(name, child, limit_ms))
    }
}

pub struct SequenceBuilder {
    pub name: String,
    pub children: Vec<TreeNode>,
}

impl SequenceBuilder {
    pub fn new(name: &str) -> (b: SequenceBuilder)
        ensures
            b.name@ == name@,
            b.children@.len() == 0,
            NodeView::wf_all(TreeNode::views(b.children@)),
    {
        let b = SequenceBuilder { name: name.to_owned(), children: Vec::new() };
        proof {
            assert(TreeNode::views(b.children@) =~= Seq::<NodeView>::empty());
        }
        b
    }

    pub fn child(self, child: TreeNode) -> (b: SequenceBuilder)
        ensures
            b.name@ == self.name@,
            b.children@ == self.children@.push(child),
            NodeView::wf_all(TreeNode::views(b.children@)) == (NodeView::wf_all(
                TreeNode::views(self.children@),
            ) && child@.wf()),
    {
        proof {
            lemma_views_push(self.children@, child);
        }
        let mut b = self;
        b.children.push(child);
        b
    }

    pub fn build(self) -> (n: TreeNode)
        ensures
            n@ == (NodeView::Sequence {
                name: self.name@,
                cursor: 0,
                children: TreeNode::views(self.children@),
            }),
            NodeView::wf_all(TreeNode::views(self.children@)) ==> n@.wf(),
    {
        TreeNode::Sequence(Sequence::new(self.name.as_str(), self.children))
    }
}

pub struct SelectorBuilder {
    pub name: String,
    pub children: Vec<TreeNode>,
}

impl SelectorBuilder {
    pub fn new(name: &str) -> (b: SelectorBuilder)
        ensures
            b.name@ == name@,
            b.children@.len() == 0,
            NodeView::wf_all(TreeNode::views(b.children@)),
    {
        let b = SelectorBuilder { name: name.to_owned(), children: Vec::new() };
        proof {
            assert(TreeNode::views(b.children@) =~= Seq::<NodeView>::empty());
        }
        b
    }

    pub fn child(self, child: TreeNode) -> (b: SelectorBuilder)
        ensures
            b.name@ == self.name@,
            b.children@ == self.children@.push(child),
            NodeView::wf_all(TreeNode::views(b.children@)) == (NodeView::wf_all(
                TreeNode::views(self.children@),
            ) && child@.wf()),
    {
        proof {
            lemma_views_push(self.children@, child);
        }
        let mut b = self;
        b.children.push(child);
        b
    }

    pub fn build(self) -> (n: TreeNode)
        ensures
            n@ == (NodeView::Selector {
                name: self.name@,
                cursor: 0,
                children: TreeNode::views(self.children@),
            }),
            NodeView::wf_all(TreeNode::views(self.children@)) ==> n@.wf(),
    {
        TreeNode::Selector(Selector::new(self.name.as_str(), self.children))
    }
}

pub struct ParallelBuilder {
    pub name: String,
    pub policy: ParallelPolicy,
    pub children: Vec<TreeNode>,
}

impl ParallelBuilder {
    pub fn new(name: &str, policy: ParallelPolicy) -> (b: ParallelBuilder)
        ensures
            b.name@ == name@,
            b.policy == policy,
            b.children@.len() == 0,
            NodeView::wf_all(TreeNode::views(b.children@)),
    {
        let b = ParallelBuilder { name: name.to_owned(), policy, children: Vec::new() };
        proof {
            assert(TreeNode::views(b.children@) =~= Seq::<NodeView>::empty());
        }
        b
    }

    pub fn child(self, child: TreeNode) -> (b: ParallelBuilder)
        ensures
            b.name@ == self.name@,
            b.policy == self.policy,
            b.children@ == self.children@.push(child),
            NodeView::wf_all(TreeNode::views(b.children@)) == (NodeView::wf_all(
                TreeNode::views(self.children@),
            ) && child@.wf()),
    {
        proof {
            lemma_views_push(self.children@, child);
        }
        let mut b = self;
        b.children.push(child);
        b
    }

    pub fn build(self) -> (n: TreeNode)
        requires
            policy_ok(self.policy, self.children@.len() as int),
        ensures
            n@ == (NodeView::Parallel {
                name: self.name@,
                policy: self.policy,
                states: Seq::new(self.children@.len(), |i: int| NodeResult::Running),
                children: TreeNode::views(self.children@),
            }),
            NodeView::wf_all(TreeNode::views(self.children@)) ==> n@.wf(),
    {
        TreeNode::Parallel(Parallel::new(self.name.as_str(), self.children, self.policy))
    }
}

} // verus!
