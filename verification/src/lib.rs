//! A 4G/5G mobile core control plane.
pub mod amf;
pub mod ap;
pub mod ap_forms;
pub mod ap_reading;
pub mod cli;
pub mod components;
pub mod crypto;
pub mod ecs;
pub mod error;
pub mod front_end;
pub mod gtp;
pub mod hss;
pub mod kdf;
pub mod midn_sim;
pub mod milenage;
pub mod mme;
pub mod mme_sim;
pub mod nas;
pub mod nas5gs;
pub mod ngap;
pub mod octets;
pub mod per;
pub mod per_forms;
pub mod round_trip;
pub mod s1ap;
pub mod sctp;
pub mod sessions;
pub mod teid;
pub mod text;
pub mod transport;
pub mod tunnels;
pub mod user_plane;
