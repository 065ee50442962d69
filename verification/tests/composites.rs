use behavior_tree::blackboard::{BlackBoard, Value};
use behavior_tree::builder::TreeBuilder;
use behavior_tree::node::{Agent, NodeResult, TreeNode};
use behavior_tree::nodes::parallel::ParallelPolicy;
use behavior_tree::nodes::repeat::Repeat;
use behavior_tree::tree::BehavioralTree;

fn bump(blackboard: &mut BlackBoard, key: &str) -> i64 {
    let n = blackboard.get_int(key).unwrap_or(0) + 1;
    blackboard.set(key, Value::Int(n));
    n
}

fn fires(tree: &mut BehavioralTree, key: &str) -> i64 {
    tree.blackboard().get_int(key).unwrap_or(0)
}

/// Leaf behaviors keyed by action name; side effects and call counts live in
/// the blackboard under "<name>_calls".
struct ScriptAgent;

impl Agent for ScriptAgent {
    fn act(&mut self, name: &str, blackboard: &mut BlackBoard) -> NodeResult {
        let calls = bump(blackboard, &format!("{}_calls", name));
        match name {
            "pass" | "pass2" | "action1" | "action2" => NodeResult::Passed,
            "fail" | "fail2" => NodeResult::Failed,
            "run" | "run2" => NodeResult::Running,
            "run_then_pass" => {
                if calls >= 2 {
                    NodeResult::Passed
                } else {
                    NodeResult::Running
                }
            }
            "fail_then_pass" => {
                if calls >= 2 {
                    NodeResult::Passed
                } else {
                    NodeResult::Failed
                }
            }
            _ => NodeResult::Failed,
        }
    }

    fn check(&mut self, _name: &str, _blackboard: &BlackBoard) -> bool {
        true
    }

    fn now_ms(&mut self) -> u64 {
        0
    }
}

#[test]
fn test_sequence_resumes_at_running_child() {
    let mut agent = ScriptAgent;
    let root = TreeBuilder::sequence("seq")
        .child(TreeBuilder::action("pass"))
        .child(TreeBuilder::action("run_then_pass"))
        .build();
    let mut tree = BehavioralTree::new(root);
    assert_eq!(tree.tick(&mut agent), NodeResult::Running);
    assert_eq!(fires(&mut tree, "pass_calls"), 1);
    // The second tick resumes at the running child: the first child's side
    // effect does not fire again.
    assert_eq!(tree.tick(&mut agent), NodeResult::Passed);
    assert_eq!(fires(&mut tree, "pass_calls"), 1);
    assert_eq!(fires(&mut tree, "run_then_pass_calls"), 2);
}

#[test]
fn test_sequence_failed_child_resets() {
    let mut agent = ScriptAgent;
    let root = TreeBuilder::sequence("seq")
        .child(TreeBuilder::action("pass"))
        .child(TreeBuilder::action("fail"))
        .build();
    let mut tree = BehavioralTree::new(root);
    assert_eq!(tree.tick(&mut agent), NodeResult::Failed);
    assert_eq!(fires(&mut tree, "pass_calls"), 1);
    // The failure reset the whole sequence: the next tick starts again from
    // child 0.
    assert_eq!(tree.tick(&mut agent), NodeResult::Failed);
    assert_eq!(fires(&mut tree, "pass_calls"), 2);
}

#[test]
fn test_sequence_cascades_to_pass() {
    let mut agent = ScriptAgent;
    let root = TreeBuilder::sequence("seq")
        .child(TreeBuilder::action("pass"))
        .child(TreeBuilder::action("pass2"))
        .build();
    let mut tree = BehavioralTree::new(root);
    assert_eq!(tree.tick(&mut agent), NodeResult::Passed);
    assert_eq!(fires(&mut tree, "pass_calls"), 1);
    assert_eq!(fires(&mut tree, "pass2_calls"), 1);
}

#[test]
fn test_empty_sequence_passes_and_empty_selector_fails() {
    let mut agent = ScriptAgent;
    let mut seq_tree = BehavioralTree::new(TreeBuilder::sequence("empty").build());
    assert_eq!(seq_tree.tick(&mut agent), NodeResult::Passed);
    let mut sel_tree = BehavioralTree::new(TreeBuilder::selector("empty").build());
    assert_eq!(sel_tree.tick(&mut agent), NodeResult::Failed);
}

#[test]
fn test_selector_short_circuit() {
    let mut agent = ScriptAgent;
    let root = TreeBuilder::selector("sel")
        .child(TreeBuilder::action("pass"))
        .child(TreeBuilder::action("fail"))
        .build();
    let mut tree = BehavioralTree::new(root);
    assert_eq!(tree.tick(&mut agent), NodeResult::Passed);
    // The first child passed, so the second was never ticked.
    assert_eq!(fires(&mut tree, "fail_calls"), 0);
}

#[test]
fn test_selector_all_failed() {
    let mut agent = ScriptAgent;
    let root = TreeBuilder::selector("sel")
        .child(TreeBuilder::action("fail"))
        .child(TreeBuilder::action("fail2"))
        .build();
    let mut tree = BehavioralTree::new(root);
    assert_eq!(tree.tick(&mut agent), NodeResult::Failed);
    assert_eq!(fires(&mut tree, "fail_calls"), 1);
    assert_eq!(fires(&mut tree, "fail2_calls"), 1);
}

#[test]
fn test_selector_resumes_at_running_child() {
    let mut agent = ScriptAgent;
    let root = TreeBuilder::selector("sel")
        .child(TreeBuilder::action("fail"))
        .child(TreeBuilder::action("run_then_pass"))
        .build();
    let mut tree = BehavioralTree::new(root);
    assert_eq!(tree.tick(&mut agent), NodeResult::Running);
    assert_eq!(fires(&mut tree, "fail_calls"), 1);
    // The second tick resumes at the running alternative; the failed first
    // child is not retried this cycle.
    assert_eq!(tree.tick(&mut agent), NodeResult::Passed);
    assert_eq!(fires(&mut tree, "fail_calls"), 1);
}

#[test]
fn test_parallel_execution() {
    let mut agent = ScriptAgent;
    let root = TreeBuilder::parallel("parallel_test", ParallelPolicy::RequireAll)
        .child(TreeBuilder::action("action1"))
        .child(TreeBuilder::action("action2"))
        .build();
    let mut tree = BehavioralTree::new(root);
    let result = tree.tick(&mut agent);
    assert_eq!(result, NodeResult::Passed);
}

#[test]
fn test_parallel_require_all_fail_fast() {
    let mut agent = ScriptAgent;
    let root = TreeBuilder::parallel("par", ParallelPolicy::RequireAll)
        .child(TreeBuilder::action("run"))
        .child(TreeBuilder::action("run2"))
        .child(TreeBuilder::action("fail"))
        .build();
    let mut tree = BehavioralTree::new(root);
    // One failure fails the node on that same tick, though the two other
    // children are still running.
    assert_eq!(tree.tick(&mut agent), NodeResult::Failed);
}

#[test]
fn test_parallel_require_count_passes() {
    let mut agent = ScriptAgent;
    let root = TreeBuilder::parallel("par", ParallelPolicy::RequireCount(2))
        .child(TreeBuilder::action("pass"))
        .child(TreeBuilder::action("pass2"))
        .child(TreeBuilder::action("run"))
        .build();
    let mut tree = BehavioralTree::new(root);
    // Two passes reach the count, whatever the third child is doing.
    assert_eq!(tree.tick(&mut agent), NodeResult::Passed);
}

#[test]
fn test_parallel_require_count_fails_when_unreachable() {
    let mut agent = ScriptAgent;
    let root = TreeBuilder::parallel("par", ParallelPolicy::RequireCount(2))
        .child(TreeBuilder::action("fail"))
        .child(TreeBuilder::action("fail2"))
        .child(TreeBuilder::action("run"))
        .build();
    let mut tree = BehavioralTree::new(root);
    // With two failures only one child could still pass, short of the
    // required two.
    assert_eq!(tree.tick(&mut agent), NodeResult::Failed);
}

#[test]
fn test_parallel_require_one() {
    let mut agent = ScriptAgent;
    let root = TreeBuilder::parallel("par", ParallelPolicy::RequireOne)
        .child(TreeBuilder::action("fail"))
        .child(TreeBuilder::action("pass"))
        .build();
    let mut tree = BehavioralTree::new(root);
    assert_eq!(tree.tick(&mut agent), NodeResult::Passed);
    let all_fail = TreeBuilder::parallel("par2", ParallelPolicy::RequireOne)
        .child(TreeBuilder::action("fail"))
        .child(TreeBuilder::action("fail2"))
        .build();
    let mut tree2 = BehavioralTree::new(all_fail);
    assert_eq!(tree2.tick(&mut agent), NodeResult::Failed);
}

#[test]
fn test_parallel_keeps_outcomes_until_reset() {
    let mut agent = ScriptAgent;
    let root = TreeBuilder::parallel("par", ParallelPolicy::RequireAll)
        .child(TreeBuilder::action("pass"))
        .child(TreeBuilder::action("run_then_pass"))
        .build();
    let mut tree = BehavioralTree::new(root);
    assert_eq!(tree.tick(&mut agent), NodeResult::Running);
    assert_eq!(fires(&mut tree, "pass_calls"), 1);
    // The already-passed child keeps its memorized outcome and is not
    // re-ticked while the other finishes.
    assert_eq!(tree.tick(&mut agent), NodeResult::Passed);
    assert_eq!(fires(&mut tree, "pass_calls"), 1);
    // A parallel node does not reset itself on resolution: ticking again
    // without a reset re-ticks nothing and reports the memorized verdict.
    assert_eq!(tree.tick(&mut agent), NodeResult::Passed);
    assert_eq!(fires(&mut tree, "pass_calls"), 1);
    assert_eq!(fires(&mut tree, "run_then_pass_calls"), 2);
    // Only an explicit reset arms it again.
    tree.reset();
    tree.tick(&mut agent);
    assert_eq!(fires(&mut tree, "pass_calls"), 2);
}

#[test]
fn test_parallel_edge_policies() {
    let mut agent = ScriptAgent;
    // An empty RequireAll node has all of its zero children passed.
    let mut empty_all = BehavioralTree::new(
        TreeBuilder::parallel("none", ParallelPolicy::RequireAll).build(),
    );
    assert_eq!(empty_all.tick(&mut agent), NodeResult::Passed);
    // A count of zero is reached before any child resolves.
    let root = TreeBuilder::parallel("zero", ParallelPolicy::RequireCount(0))
        .child(TreeBuilder::action("run"))
        .build();
    let mut tree = BehavioralTree::new(root);
    assert_eq!(tree.tick(&mut agent), NodeResult::Passed);
}

#[test]
fn test_repeat_retries_failed_child() {
    let mut agent = ScriptAgent;
    let root = TreeNode::Repeat(Repeat::new("retry", TreeBuilder::action("fail_then_pass")));
    let mut tree = BehavioralTree::new(root);
    // The child fails once; the repeat reports Running instead of failing.
    assert_eq!(tree.tick(&mut agent), NodeResult::Running);
    assert_eq!(tree.tick(&mut agent), NodeResult::Passed);
    assert_eq!(fires(&mut tree, "fail_then_pass_calls"), 2);
}
