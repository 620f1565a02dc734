//! Closed-loop control of a permanent-magnet linear motor, from raw sensor
//! counts to switch timings, together with the telemetry and command
//! protocol spoken between the drive and its host.
//!
//! Real-valued quantities are carried as saturating Q32.32 fixed-point
//! numbers ([`fixed::Fixed`]), so every contract is stated over integers.
//! Sines, cosines and arctangents are supplied by the caller.
//!
//! The control path, leaf to root:
//!
//! - [`normalizer`], [`unwrap`], [`filter`] and [`encoder`] turn the
//!   readings of the position sensor into a continuous position and a
//!   filtered velocity;
//! - [`calibration`] finds the offset of the sensor with no reference to
//!   start from;
//! - [`transforms`], [`pid`] and [`foc`] make up field-oriented control;
//! - [`svm`] turns a voltage request into switch timings;
//! - [`state_machine`] ties them together and enforces the interlocks.
//!
//! The link between the drive and its host:
//!
//! - [`address`] names the values that the drive exposes;
//! - [`wire`] and [`codec`] write them to bytes and read them back;
//! - [`common`] holds the messages and the samples;
//! - [`probes`] is the list of probes as both ends keep it;
//! - [`comms`] is the drive's end, [`scope_interface`] and [`arbiter`] are
//!   the host's.

pub mod fixed;
pub mod config;
pub mod normalizer;
pub mod unwrap;
pub mod filter;
pub mod encoder;
pub mod transforms;
pub mod pid;
pub mod open_loop_voltage;
pub mod open_loop_velocity;
pub mod calibration;
pub mod foc;
pub mod svm;
pub mod state_machine;
pub mod address;
pub mod wire;
pub mod codec;
pub mod common;
pub mod probes;
pub mod comms;
pub mod scope_interface;
pub mod arbiter;
