//! A verified model of bridging host-side implementations into a dynamically
//! typed foreign object runtime.
//!
//! - [`capability`]: interface shapes and their inheritance.
//! - [`runtime`]: the foreign object heap and its primitives: create an
//!   object, set a field, merge objects, relabel, call a method.
//! - [`bridge`]: bridge objects for host implementations, composed along the
//!   capability hierarchy, and the choice between relabelling a
//!   foreign-backed value and building a bridge.
//! - [`disposable`]: disposing of an object exactly once.
//! - [`event`]: registering host callbacks as event listeners.
//! - [`terminal`], [`crossterm`], [`log_level`], [`marker`], [`theme`]:
//!   terminal helpers built on the above.
pub mod bridge;
pub mod callback;
pub mod capability;
pub mod crossterm;
pub mod disposable;
pub mod event;
pub mod log_level;
pub mod marker;
pub mod runtime;
pub mod terminal;
pub mod theme;
