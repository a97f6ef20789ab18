//! An interactive line-oriented shell engine: commands are resolved against the
//! currently active context; a context may perform a side effect, report
//! failure, or request a navigation change (descend into a child context or
//! return to the parent). The engine owns the active context and a stack of
//! ancestor contexts; pushes and pops move context values, so no context is
//! ever reachable from two places at once.

pub mod actions;
pub mod readline;
pub mod text;
