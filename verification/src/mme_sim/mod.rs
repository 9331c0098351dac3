//! A simulated eNodeB with its UE, and the MME node that serves it.
//!
//! - `args`: the command line.
//! - `ue`: the UE, message by message.
//! - `node`: the MME, with the gateway that it plays.
//! - `user_plane`: that the gateway follows the MME.
//! - `laws`: UE and MME together.
//! - `behaviour`: what each of them does.

pub mod args;
pub mod behaviour;
pub mod laws;
pub mod node;
pub mod ue;
pub mod user_plane;
