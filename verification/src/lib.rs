//! An event-driven terminal session: a line editor, a command dispatcher with
//! animated output, and a toroidal cellular-automaton diversion.
//!
//! The session logic is pure: it consumes input events as plain strings and
//! describes everything it wants done to the outside world (printing,
//! pausing) as values, so a thin host loop can perform them.

pub mod conway;
pub mod editor;
pub mod rng;
pub mod session;
pub mod strutil;
pub mod writer;
