pub mod commands;
pub mod events;
pub mod event_loop;
pub mod command_queue;
pub mod domain_loop;
