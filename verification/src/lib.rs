//! The logic of a dashboard for the Dinit service manager.
//!
//! The dashboard lists the services of the system or of the user, controls them
//! through `dinitctl`, and shows the details and the log of one of them. This
//! library parses what `dinitctl` prints, decides which commands run and with
//! which rights, and keeps the state that the window shows. It does no input or
//! output of its own.

pub mod text;
pub mod environment;
pub mod paths;
pub mod listing;
pub mod details;
pub mod control;
pub mod dinit;
pub mod roster;
pub mod message;
pub mod update;
pub mod roster_laws;
pub mod laws;
