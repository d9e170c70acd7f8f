//! The decision core of a generator that builds projects from templates.
//!
//! A run executes actions. Which of them run is decided by conditions over
//! the variables of the run, its switches, and what stands in the
//! filesystem below its destination. The core renders no template and
//! touches no file: it says what it needs to know and what is to be done,
//! and the driver of the run answers and performs.
//!
//! - [`actions::conditionals`]: conditions, their evaluation, and the action
//!   that branches on them.
//! - [`actions::registry`]: the registry in which actions are held and
//!   referred to by identifiers.
//! - [`actions::dispatch`]: the order in which the actions of a run are
//!   executed.
//! - [`context`], [`rules`], [`findings`]: the variables, the switches and
//!   the answers of the driver.
//! - [`filters`], [`heck`]: what templates do to texts.
//! - [`outside`]: the calls into other crates, which are taken on trust.

pub mod actions;
pub mod context;
pub mod errors;
pub mod filters;
pub mod findings;
pub mod heck;
pub mod outside;
pub mod rules;
pub mod table;
pub mod text;
