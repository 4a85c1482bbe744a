//! Firmware updates over the air for LoRaWAN devices.
//!
//! An update is a chain of jobs.  [`flow`] runs one job at a time, as a state machine that asks its
//! caller for every access to storage and to the downlink queues.  [`requests`] prepares what is
//! sent, [`fragments`] the layout of the image, and [`fragmentation`] handles the answers of the
//! devices.  [`laws`] states what holds of whole runs.
//!
//! Messages and keys are computed by the `lrwn` crate, behind [`messages`] and [`keys`], and times
//! by the `chrono` crate, behind [`clock`].

pub mod clock;
pub mod flow;
pub mod fragmentation;
pub mod fragments;
pub mod keys;
pub mod laws;
pub mod messages;
pub mod narrow;
pub mod requests;
pub mod single;
pub mod types;
