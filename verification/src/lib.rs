//! Lobby sessions with activities, kept in step between peers.
//!
//! `domain` holds the lobby model (participants, hosts, activity queue and
//! runs), `application` the command loop that drives it, and `p2p` the
//! ordering and peer bookkeeping that keeps several copies of a lobby in step.

pub mod ident;
pub mod text;
pub mod clock;
pub mod json;
pub mod keys;
pub mod domain;
pub mod activities;
pub mod application;
pub mod p2p;
