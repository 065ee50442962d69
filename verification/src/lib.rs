pub mod blackboard;
pub mod builder;
pub mod model;
pub mod node;
pub mod nodes;
pub mod tree;
