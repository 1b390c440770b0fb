//! A navigation engine for declaratively described, multi-step interactive
//! flows. A flow is a tree of steps held in a [`graph::Graph`]; each step is
//! either a menu of named options or an ordered list of fields. The host
//! shows a step, hands the user's answer to the graph and follows where the
//! graph sends it, until the flow is complete and what was entered is
//! collected.

pub mod collect;
pub mod collection;
pub mod context;
pub mod error;
pub mod graph;
pub mod laws;
pub mod number;
pub mod option;
pub mod serde_state;
pub mod session;
pub mod source;
pub mod state;
pub mod status;
pub mod text;
