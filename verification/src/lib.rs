//! Verified core of a modular environmental data logger: configurable sensor and
//! actuator drivers over shared buses, their persisted configuration, the
//! arbitration of the pins they share, and the measure-then-actuate cycle.

pub mod util;
pub mod board;
pub mod values;
pub mod drivers;
pub mod registry;
pub mod datalogger;
pub mod command_registry;
pub mod services;
pub mod telemetry;
pub mod storage;
