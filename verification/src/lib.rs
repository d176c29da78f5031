//! Core of a privilege-separated container agent that runs as the first
//! process of a small virtual machine.
//!
//! The agent splits itself into a privileged branch, which owns the
//! authoritative pod/container state, and a restricted branch, which exposes
//! the outward-facing API and talks to the privileged branch over a private
//! channel.  This crate holds the verified core of that design: the lifecycle
//! state machine of pods and containers, the request/response correlation
//! protocol of the channel, the split and identity-downgrade protocol, and
//! the supervision rules.  Process creation, identity changes and all I/O are
//! performed by a thin unverified runner that drives these state machines.

pub mod channel;
pub mod control;
pub mod errors;
pub mod split;
pub mod state;
pub mod supervisor;
