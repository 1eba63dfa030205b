//! Verified core of a small amateur-radio bulletin board system.

pub mod callsign;
pub mod command;
pub mod dialogue;
pub mod files;
pub mod mercury;
pub mod report;
pub mod service;
pub mod session;
pub mod store;
pub mod terminal;
pub mod text;
pub mod zmodem;

pub use callsign::Callsign;
pub use service::RadioConfig;
