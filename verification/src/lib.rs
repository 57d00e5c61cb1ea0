//! Session and channel orchestration core for a small multi-client SSH
//! server: client registry, authentication policy, channel lifecycle,
//! broadcast fan-out, subprocess bridging plans and port-forward plans.
//!
//! The SSH wire protocol itself (key exchange, encryption, framing) is the
//! business of an external transport engine; this crate holds the decisions
//! layered on top of it, each with a verified contract.

pub mod bridge;
pub mod identity;
pub mod messages;
pub mod registry;
pub mod session;
