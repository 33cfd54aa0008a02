//! The custom resources that the controller watches.

pub mod access_control_rule;

pub use access_control_rule::{
    AccessControlRule, AccessControlRuleSpec, AccessPolicy, Rule, RuleEntry,
};
