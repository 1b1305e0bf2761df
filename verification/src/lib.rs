//! Interactive front end of a terminal SQL console: a modal editing buffer
//! with cursor arithmetic, statement-termination detection, a key-dispatch
//! state machine, and the session state that records query outcomes.
//!
//! The query engine, the terminal, and the raw key source are outside
//! collaborators: the library computes every decision from plain values and
//! hands back plain values, so the whole of its logic is verified.

pub mod editor;
pub mod events;
pub mod handlers;
pub mod results;
pub mod session;

