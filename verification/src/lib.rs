//! Decision logic of an Emergency Alert System listener: event filters,
//! the active-alert set, tone latching, recording names and configuration
//! rules, each with a machine-checked contract.

pub mod alerts;
pub mod clock;
pub mod config;
pub mod decode;
pub mod document;
pub mod embed;
pub mod fetch;
pub mod filter;
pub mod framing;
pub mod host;
pub mod monitoring;
pub mod recording;
pub mod relay;
pub mod state;
pub mod text;
pub mod tone;
pub mod webhook;
