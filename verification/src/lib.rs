//! Keyboard shortcut interception: key sets, the binding table, the
//! per-binding hold state machine and the per-tick split of raw events into
//! consumed and forwarded ones.

pub mod binding;
pub mod config;
pub mod forward;
pub mod hold;
pub mod keymap;
pub mod keys;
pub mod launch;
pub mod lifecycle;
pub mod seq_facts;
pub mod session;
