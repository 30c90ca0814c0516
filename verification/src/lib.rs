//! Verified core of the StarShield threat-response hub and log probe.
pub mod text;
pub mod agents;
pub mod config;
pub mod hub;
pub mod probe;
