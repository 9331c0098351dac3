//! A simulated gNodeB with its UEs, and the AMF node that serves it.
//!
//! - `args`: the command line.
//! - `ue`: one UE, message by message.
//! - `gnb`: what takes messages and packets to the right UE.
//! - `labels`: the labels under which they report.
//! - `node`: the AMF, with the UPF that it plays.
//! - `user_plane`: that the UPF follows the AMF.
//! - `laws`: UE and AMF together.
//! - `behaviour`: what each of them does.

pub mod args;
pub mod behaviour;
pub mod gnb;
pub mod labels;
pub mod laws;
pub mod node;
pub mod ue;
pub mod user_plane;
