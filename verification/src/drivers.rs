//! The drivers: one unit of work per configured sensor or actuator, with the
//! configuration that each persists and the resources that each asks for.

pub mod codec;
pub mod resources;
pub mod types;
pub mod timed_switch_2;
pub mod basic_evo;
pub mod mcp9808;
pub mod ring_temperature;
pub mod calibration;
pub mod ds18b20;
pub mod aht20;
pub mod atlas_ec;
pub mod adc_temperature;
pub mod modbus;
