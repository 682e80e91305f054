pub mod participant;
pub mod activity;
pub mod activity_run;
pub mod lobby;
pub mod events;
