//! The access and mobility management function (TS 23.501), the 5G control
//! plane node that gNodeBs talk to over NGAP.
//!
//! - `registration`: the steps of the registration procedure, with 5G-AKA.
//! - `deregistration`: the start of deregistration by the UE.
//! - `state_machine`: [`Amf`], which takes an NGAP message to the step that
//!   it belongs to, and tears down what a released UE had.
//! - `laws`: what holds of the AMF as a whole.
//! - `exchanges`: what it answers, message by message.
//! - `replies`: that everything it answers can be put on the wire.

pub mod deregistration;
pub mod exchanges;
pub mod laws;
pub mod registration;
pub mod replies;
pub mod state_machine;

pub use state_machine::{Amf, N3Event};
