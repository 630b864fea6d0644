//! What holds of the library as a whole.

pub mod answers;
pub mod consent;
pub mod elections;
pub mod fetching;
pub mod files;
pub mod governance;
pub mod grants;
pub mod invariants;
pub mod leaving;
pub mod mediation;
pub mod messages;
pub mod migration;
pub mod names;
pub mod presence;
pub mod requests;
pub mod restart;
pub mod ringing;
pub mod rooms;
pub mod seen;
pub mod sending;
pub mod sessions;
pub mod told;
pub mod trust;
pub mod waiting;
pub mod web;
pub mod wire;
pub mod written;
