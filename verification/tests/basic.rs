use behavior_tree::blackboard::{BlackBoard, Value};
use behavior_tree::node::{Agent, Node, NodeResult};

struct NullAgent;

impl Agent for NullAgent {
    fn act(&mut self, _name: &str, _blackboard: &mut BlackBoard) -> NodeResult {
        NodeResult::Passed
    }

    fn check(&mut self, _name: &str, _blackboard: &BlackBoard) -> bool {
        true
    }

    fn now_ms(&mut self) -> u64 {
        0
    }
}

#[test]
fn test_node_result_variants() {
    assert_ne!(NodeResult::Passed, NodeResult::Failed);
    assert_ne!(NodeResult::Passed, NodeResult::Running);
    assert_ne!(NodeResult::Failed, NodeResult::Running)
}

struct TestNode {
    result: NodeResult,
}

impl Node for TestNode {
    fn inv(&self) -> bool {
        true
    }

    fn tick<A: Agent>(&mut self, _agent: &mut A, _blackboard: &mut BlackBoard) -> NodeResult {
        self.result.clone()
    }

    fn reset(&mut self) {}

    fn name(&self) -> &str {
        "IS_ENEMY"
    }
}

#[test]
fn test_mock_node() {
    let mut agent = NullAgent;
    let mut blackboard = BlackBoard::new();
    let mut node = TestNode { result: NodeResult::Passed };
    assert_eq!(node.tick(&mut agent, &mut blackboard), NodeResult::Passed);
    node.result = NodeResult::Failed;
    assert_eq!(node.tick(&mut agent, &mut blackboard), NodeResult::Failed);
    node.result = NodeResult::Running;
    assert_eq!(node.tick(&mut agent, &mut blackboard), NodeResult::Running);
}

#[test]
fn test_blackboard_set_get_typed() {
    let mut bb = BlackBoard::new();
    bb.set("k", Value::Int(5));
    assert_eq!(bb.get_int("k"), Some(5));
    assert_eq!(bb.get_text("k"), None);
    assert_eq!(bb.get_bool("k"), None);
    assert!(bb.contains_key("k"));
    assert!(bb.remove("k"));
    assert_eq!(bb.get_int("k"), None);
    assert!(!bb.contains_key("k"));
    assert!(!bb.remove("k"));
}

#[test]
fn test_blackboard_overwrite_changes_tag() {
    let mut bb = BlackBoard::new();
    bb.set("k", Value::Int(5));
    bb.set("k", Value::Text(String::from("five")));
    assert_eq!(bb.get_int("k"), None);
    assert_eq!(bb.get_text("k").map(|s| s.as_str()), Some("five"));
    bb.set("k", Value::Bool(true));
    assert_eq!(bb.get_bool("k"), Some(true));
    assert_eq!(bb.get_text("k"), None);
}

#[test]
fn test_blackboard_several_keys() {
    let mut bb = BlackBoard::new();
    bb.set("a", Value::Int(1));
    bb.set("b", Value::Int(2));
    bb.set("c", Value::Bool(false));
    assert_eq!(bb.get_int("a"), Some(1));
    assert_eq!(bb.get_int("b"), Some(2));
    assert_eq!(bb.get_bool("c"), Some(false));
    assert!(bb.remove("b"));
    assert_eq!(bb.get_int("a"), Some(1));
    assert_eq!(bb.get_int("b"), None);
    assert_eq!(bb.get_bool("c"), Some(false));
}
