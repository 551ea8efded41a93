//! Telemetry of generations: records, the bounded ring they wait in, sessions, and their encoding.
pub mod config;
pub mod encode;
pub mod http;
pub mod record;
pub mod ring;
pub mod sender;
pub mod session;
pub mod sink;
