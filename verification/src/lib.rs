//! Verified core of a Raft cluster visualiser: per-node log storage,
//! the simulated network between nodes, the parsing of the control
//! panel's input and the text shown for nodes and messages.

pub mod background;
pub mod laws;
pub mod state;
pub mod storage;
pub mod text;
pub mod toolbox;
pub mod ui;
pub mod widgets;
