//! The declaration of what a command line holds: positional arguments,
//! flags, and the context that gathers them.
pub mod arg;
pub mod context;
pub mod flag;
