pub mod calendar;
pub mod clock;
pub mod config;
pub mod delivery;
pub mod error;
pub mod events;
pub mod http;
pub mod laws;
pub mod migration;
pub mod persistence;
pub mod presence;
pub mod random;
pub mod registry;
pub mod rooms;
pub mod seqs;
pub mod strmap;
pub mod text;
pub mod trust;
pub mod types;
