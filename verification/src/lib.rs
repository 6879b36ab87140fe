//! A relay actuator behind a web handler.
//!
//! An incoming request pulses one digital output line: the line is driven to
//! its active signal, held there for a fixed time and let go again. The
//! library decides what happens next at every point of that path, and the
//! program around it performs the hardware access, the waiting and the
//! storage calls. A second path registers a user under a fresh access key.

pub mod driver;
pub mod error;
pub mod handler;
pub mod line;
pub mod registration;
pub mod response;
pub mod runs;
pub mod simulated;
