//! Core logic of a terminal process monitor: a classifier that tags
//! processes by name, a snapshot pipeline that filters and stably sorts
//! the process table, a selection manager that keeps the cursor valid
//! across refreshes, and the keyboard-driven interaction state machine.
//!
//! Everything here works on plain values (bytes, integers, booleans);
//! the operating-system and terminal glue around it lives elsewhere.

pub mod app;
pub mod classify;
pub mod monitor;
pub mod pipeline;
pub mod record;
pub mod selection;
pub mod sort;
pub mod text;
