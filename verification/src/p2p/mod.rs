pub mod peer;
pub mod event;
pub mod event_log;
pub mod ice_server;
pub mod config;
pub mod peer_participant_map;
pub mod peer_state;
pub mod message_queue;
pub mod sync_manager;
pub mod error;
pub mod connection_event;
pub mod transport;
pub mod session_id;
pub mod event_translator;
pub mod builders;
pub mod p2p_loop;
pub mod session_loop;
pub mod session;
pub mod session_loop_v2;
