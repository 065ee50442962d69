use behavior_tree::blackboard::{BlackBoard, Value};
use behavior_tree::builder::TreeBuilder;
use behavior_tree::node::{Agent, NodeResult, TreeNode};
use behavior_tree::nodes::condition::Condition;
use behavior_tree::tree::BehavioralTree;

fn bump(blackboard: &mut BlackBoard, key: &str) -> i64 {
    let n = blackboard.get_int(key).unwrap_or(0) + 1;
    blackboard.set(key, Value::Int(n));
    n
}

/// Robot-flavored leaf behaviors over integer state: the battery level is a
/// percentage, the position a pair of integer coordinates.
struct RobotAgent;

impl Agent for RobotAgent {
    fn act(&mut self, name: &str, blackboard: &mut BlackBoard) -> NodeResult {
        match name {
            "check_battery" => match blackboard.get_int("battery") {
                Some(level) if level > 20 => NodeResult::Passed,
                _ => NodeResult::Failed,
            },
            "scan" | "scan_area" => {
                blackboard.set("scan_complete", Value::Bool(true));
                NodeResult::Passed
            }
            "move" | "move_to_next_point" => match blackboard.get_int("pos_x") {
                Some(x) => {
                    blackboard.set("pos_x", Value::Int(x + 1));
                    NodeResult::Passed
                }
                None => NodeResult::Failed,
            },
            "avoid_obstacle" | "fallback" => {
                bump(blackboard, "fallback_calls");
                NodeResult::Passed
            }
            "step" => {
                let n = bump(blackboard, "step_calls");
                if n >= 2 {
                    NodeResult::Passed
                } else {
                    NodeResult::Running
                }
            }
            _ => NodeResult::Failed,
        }
    }

    fn check(&mut self, name: &str, blackboard: &BlackBoard) -> bool {
        match name {
            "battery_ok" => match blackboard.get_int("battery") {
                Some(level) => level > 20,
                None => false,
            },
            _ => false,
        }
    }

    fn now_ms(&mut self) -> u64 {
        0
    }
}

fn robot_tree() -> BehavioralTree {
    BehavioralTree::new(
        TreeBuilder::selector("root")
            .child(
                TreeBuilder::sequence("normal_operation")
                    .child(TreeBuilder::action("check_battery"))
                    .child(TreeBuilder::action("scan"))
                    .child(TreeBuilder::action("move"))
                    .build(),
            )
            .child(TreeBuilder::action("avoid_obstacle"))
            .build(),
    )
}

#[test]
fn test_robot_behavior_tree() {
    let mut agent = RobotAgent;
    let mut tree = robot_tree();

    // Set initial robot state
    tree.blackboard().set("battery", Value::Int(80));
    tree.blackboard().set("pos_x", Value::Int(0));
    tree.blackboard().set("pos_y", Value::Int(0));

    // Run the tree
    let result = tree.tick(&mut agent);
    assert_eq!(result, NodeResult::Passed);

    // Check if robot moved
    assert_eq!(tree.blackboard().get_int("pos_x"), Some(1));

    // Resetting the tree clears node state only; the blackboard keeps what
    // the leaves wrote.
    tree.reset();
    assert_eq!(tree.blackboard().get_int("pos_x"), Some(1));
    assert_eq!(tree.blackboard().get_bool("scan_complete"), Some(true));
}

#[test]
fn test_end_to_end_scenario() {
    // A healthy battery takes the normal branch: the sequence passes and the
    // move fires.
    let mut agent = RobotAgent;
    let normal = TreeBuilder::sequence("normal")
        .child(TreeNode::Condition(Condition::new("battery_ok")))
        .child(TreeBuilder::action("move"))
        .build();
    let root = TreeBuilder::selector("root").child(normal).child(
        TreeBuilder::action("fallback"),
    ).build();
    let mut tree = BehavioralTree::new(root);
    tree.blackboard().set("battery", Value::Int(80));
    tree.blackboard().set("pos_x", Value::Int(0));
    assert_eq!(tree.tick(&mut agent), NodeResult::Passed);
    assert_eq!(tree.blackboard().get_int("pos_x"), Some(1));
    assert_eq!(tree.blackboard().get_int("fallback_calls"), None);

    // A low battery fails the sequence fast; the selector falls back, the
    // overall result is still Passed, and the move's side effect never ran.
    let normal2 = TreeBuilder::sequence("normal")
        .child(TreeNode::Condition(Condition::new("battery_ok")))
        .child(TreeBuilder::action("move"))
        .build();
    let root2 = TreeBuilder::selector("root").child(normal2).child(
        TreeBuilder::action("fallback"),
    ).build();
    let mut tree2 = BehavioralTree::new(root2);
    tree2.blackboard().set("battery", Value::Int(10));
    tree2.blackboard().set("pos_x", Value::Int(0));
    assert_eq!(tree2.tick(&mut agent), NodeResult::Passed);
    assert_eq!(tree2.blackboard().get_int("pos_x"), Some(0));
    assert_eq!(tree2.blackboard().get_int("fallback_calls"), Some(1));
}

fn stepped_tree() -> BehavioralTree {
    BehavioralTree::new(
        TreeBuilder::sequence("seq")
            .child(TreeBuilder::action("step"))
            .child(TreeBuilder::action("scan"))
            .build(),
    )
}

#[test]
fn test_reset_then_ticks_match_fresh_instance() {
    let mut agent = RobotAgent;

    // Fresh instance: the step leaf runs one cycle, then the sequence passes.
    let mut fresh = stepped_tree();
    fresh.blackboard().set("step_calls", Value::Int(0));
    let fresh_results = vec![fresh.tick(&mut agent), fresh.tick(&mut agent)];

    // Second instance: advance it partway, then reset it and replay the same
    // tick sequence against the same seeded state.
    let mut replayed = stepped_tree();
    replayed.blackboard().set("step_calls", Value::Int(0));
    let _ = replayed.tick(&mut agent);
    replayed.reset();
    replayed.blackboard().set("step_calls", Value::Int(0));
    let replay_results = vec![replayed.tick(&mut agent), replayed.tick(&mut agent)];

    // After a reset the node state equals a fresh instance's, so the same
    // ticks give the same results.
    assert_eq!(fresh_results, replay_results);
    assert_eq!(fresh_results, vec![NodeResult::Running, NodeResult::Passed]);
}

#[test]
fn test_node_names() {
    let action = TreeBuilder::action("move");
    assert_eq!(action.name(), "move");
    let seq = TreeBuilder::sequence("normal").build();
    assert_eq!(seq.name(), "normal");
    let inv = TreeBuilder::inverter("not", TreeBuilder::action("move"));
    assert_eq!(inv.name(), "not");
    let t = TreeBuilder::timeout("bounded", TreeBuilder::action("move"), 5);
    assert_eq!(t.name(), "bounded");
}
