//! Keeps the access-control section of an Authelia configuration in step with
//! the `AccessControlRule` objects of a cluster.
//!
//! The crate holds the decisions of the controller: how a snapshot of rules
//! becomes one canonical document, what is written where, and in which order.
//! Talking to the cluster is left to the caller.

pub mod aggregate;
pub mod apply;
pub mod context;
pub mod document;
pub mod fingerprint;
pub mod name_order;
pub mod reconciler;
pub mod resources;
pub mod settings;
pub mod sorting;
pub mod yaml;
