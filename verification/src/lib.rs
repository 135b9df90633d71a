//! Scheduling and buffering engine for polling a solar-inverter gateway:
//! per-inverter due-time tracking, time-series buffers, and the drain
//! protocol that moves buffered rows into a sink.

pub mod ahoy;
pub mod crawler;
pub mod error_kind;
pub mod reading;
pub mod text;

pub use ahoy::AhoyApi;
pub use ahoy::AhoyApi as Ahoy;
pub use error_kind::ErrorKind;
pub use reading::{Reading, UnitValue};
