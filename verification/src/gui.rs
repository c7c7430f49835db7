//! The decision logic of the Kindling desktop shell: its state, how messages
//! change it, and what work each message asks the shell to perform.
//!
//! Rendering and the asynchronous device work are the shell's own; this
//! module is the pure `State -> State` part, unit-testable without a device
//! or a window.

pub mod load;
pub mod merge;
pub mod mock;
pub mod model;
pub mod tasks;
pub mod transfer;
pub mod update;
pub mod view;
