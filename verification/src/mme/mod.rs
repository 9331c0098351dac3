//! The mobility management entity (TS 23.401), the LTE control plane node
//! that eNodeBs talk to over S1AP.
//!
//! - `attach`: the steps of the attach procedure, with EPS-AKA.
//! - `detach`: the start of a detach by the UE.
//! - `state_machine`: [`Mme`], which takes an S1AP message to the step that
//!   it belongs to, and tears down what a released UE had.
//! - `laws`: what holds of the MME as a whole.
//! - `exchanges`: what it answers, message by message.
//! - `replies`: what it answers can be put on the wire.

pub mod attach;
pub mod detach;
pub mod exchanges;
pub mod laws;
pub mod replies;
pub mod state_machine;

pub use state_machine::{Mme, UpfEvent};
