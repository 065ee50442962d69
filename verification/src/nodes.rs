pub mod action;
pub mod condition;
pub mod inverter;
pub mod parallel;
pub mod repeat;
pub mod selector;
pub mod sequence;
pub mod timeout;
