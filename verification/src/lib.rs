//! Requirements Engine — verb-based requirement lifecycle (no free-form status updates).

pub mod desktop;
pub mod domain;
pub mod http;
pub mod mcp;
pub mod outside;
pub mod services;
pub mod text;

pub use domain::state::{apply_transition, can_transition, Role, Status, Transition, TransitionError};
