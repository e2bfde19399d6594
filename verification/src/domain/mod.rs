pub mod models;
pub mod state;

pub use state::{apply_transition, can_transition, Role, Status, Transition, TransitionError};
