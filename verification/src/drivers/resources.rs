//! Shared physical resources and their arbitration.

pub mod gpio;
