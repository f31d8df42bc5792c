//! The custom widgets of the cluster view.

pub mod channel;
pub mod node;
