//! The drivers that are built in: their type codes and their names.

use vstd::prelude::*;
use vstd::string::StringSliceAdditionalSpecFns;
use crate::board::RRIVBoard;
use crate::drivers::adc_temperature::{
    ADCTemperatureDriver,
    ADCTemperatureDriverSpecialConfiguration,
};
use crate::drivers::aht20::{AHT20SpecialConfiguration, AHT20};
use crate::drivers::atlas_ec::{AtlasEC, AtlasECSpecialConfiguration};
use crate::drivers::basic_evo::{BasicEvo, BasicEvoSpecialConfiguration};
use crate::drivers::ds18b20::{Ds18b20, Ds18b20SpecialConfiguration};
use crate::drivers::mcp9808::{
    MCP9808TemperatureDriver,
    MCP9808TemperatureDriverSpecialConfiguration,
};
use crate::drivers::modbus::{ModbusDriver, ModbusDriverSpecialConfiguration};
use crate::drivers::resources::gpio::GpioRequest;
use crate::drivers::ring_temperature::{
    RingTemperatureDriver,
    RingTemperatureDriverSpecialConfiguration,
};
use crate::drivers::timed_switch_2::{TimedSwitch2, TimedSwitch2SpecialConfiguration};
use crate::drivers::types::{
    identifier_from,
    label,
    lemma_general_round_trip,
    CalibrationPair,
    ModbusResponse,
    SensorDriver,
    SensorDriverGeneralConfiguration,
    SENSOR_SETTINGS_PARTITION_SIZE,
};
use crate::drivers::calibration::LinearCalibration;
use crate::drivers::codec::zeros;
use crate::util::{check_alphanumeric, is_identifier, same_text, sanitized, until_nul};
use crate::values::{lookup, unsigned_number, ConfigurationValues, Field, FieldValue, FieldView};
use vstd::utf8::encode_utf8;

verus! {

/// The type code that stands for no driver.
pub const UNKNOWN_TYPE_ID: u16 = 0;

pub const ADC_TEMPERATURE_TYPE_ID: u16 = 1;

pub const AHT20_TYPE_ID: u16 = 2;

pub const ATLAS_EC_TYPE_ID: u16 = 3;

pub const BASIC_EVO_TYPE_ID: u16 = 4;

pub const DS18B20_TYPE_ID: u16 = 5;

pub const MCP9808_TYPE_ID: u16 = 6;

pub const MODBUS_TYPE_ID: u16 = 7;

pub const RING_TEMPERATURE_TYPE_ID: u16 = 8;

pub const TIMED_SWITCH_2_TYPE_ID: u16 = 9;

/// Whether `type_id` is the code of a driver that is built in.
pub open spec fn is_known_type(type_id: u16) -> bool {
    1 <= type_id <= 9
}

/// The name of the driver with code `type_id`. A code that stands for no
/// driver has the name `no_match`.
pub open spec fn driver_name(type_id: u16) -> Seq<char> {
    if type_id == ADC_TEMPERATURE_TYPE_ID {
        "adc_temperature"@
    } else if type_id == AHT20_TYPE_ID {
        "aht20"@
    } else if type_id == ATLAS_EC_TYPE_ID {
        "atlas_ec"@
    } else if type_id == BASIC_EVO_TYPE_ID {
        "basic_evo"@
    } else if type_id == DS18B20_TYPE_ID {
        "ds18b20"@
    } else if type_id == MCP9808_TYPE_ID {
        "mcp_9808"@
    } else if type_id == MODBUS_TYPE_ID {
        "modbus"@
    } else if type_id == RING_TEMPERATURE_TYPE_ID {
        "ring_temperature"@
    } else if type_id == TIMED_SWITCH_2_TYPE_ID {
        "timed_switch_2"@
    } else {
        "no_match"@
    }
}

/// The code of the driver called `name`, if one is.
pub open spec fn driver_type(name: Seq<char>) -> Option<u16> {
    if name == "adc_temperature"@ {
        Some(ADC_TEMPERATURE_TYPE_ID)
    } else if name == "aht20"@ {
        Some(AHT20_TYPE_ID)
    } else if name == "atlas_ec"@ {
        Some(ATLAS_EC_TYPE_ID)
    } else if name == "basic_evo"@ {
        Some(BASIC_EVO_TYPE_ID)
    } else if name == "ds18b20"@ {
        Some(DS18B20_TYPE_ID)
    } else if name == "mcp_9808"@ {
        Some(MCP9808_TYPE_ID)
    } else if name == "modbus"@ {
        Some(MODBUS_TYPE_ID)
    } else if name == "ring_temperature"@ {
        Some(RING_TEMPERATURE_TYPE_ID)
    } else if name == "timed_switch_2"@ {
        Some(TIMED_SWITCH_2_TYPE_ID)
    } else {
        None
    }
}

/// The name of the driver with code `type_id`.
pub fn name_from_type_id(type_id: u16) -> (name: &'static str)
    ensures
        name@ == driver_name(type_id),
{
    if type_id == ADC_TEMPERATURE_TYPE_ID {
        "adc_temperature"
    } else if type_id == AHT20_TYPE_ID {
        "aht20"
    } else if type_id == ATLAS_EC_TYPE_ID {
        "atlas_ec"
    } else if type_id == BASIC_EVO_TYPE_ID {
        "basic_evo"
    } else if type_id == DS18B20_TYPE_ID {
        "ds18b20"
    } else if type_id == MCP9808_TYPE_ID {
        "mcp_9808"
    } else if type_id == MODBUS_TYPE_ID {
        "modbus"
    } else if type_id == RING_TEMPERATURE_TYPE_ID {
        "ring_temperature"
    } else if type_id == TIMED_SWITCH_2_TYPE_ID {
        "timed_switch_2"
    } else {
        "no_match"
    }
}

/// The name of the driver with code `type_id`, as a label of sixteen bytes.
pub fn sensor_name_from_type_id(type_id: u16) -> (name: [u8; 16])
    ensures
        name@ == label(vstd::utf8::encode_utf8(driver_name(type_id))),
{
    identifier_from(name_from_type_id(type_id).as_bytes())
}

/// The code of the driver called `name`.
pub fn type_id_from_name(name: &str) -> (type_id: Option<u16>)
    ensures
        type_id == driver_type(name@),
{
    if same_text(name, "adc_temperature") {
        Some(ADC_TEMPERATURE_TYPE_ID)
    } else if same_text(name, "aht20") {
        Some(AHT20_TYPE_ID)
    } else if same_text(name, "atlas_ec") {
        Some(ATLAS_EC_TYPE_ID)
    } else if same_text(name, "basic_evo") {
        Some(BASIC_EVO_TYPE_ID)
    } else if same_text(name, "ds18b20") {
        Some(DS18B20_TYPE_ID)
    } else if same_text(name, "mcp_9808") {
        Some(MCP9808_TYPE_ID)
    } else if same_text(name, "modbus") {
        Some(MODBUS_TYPE_ID)
    } else if same_text(name, "ring_temperature") {
        Some(RING_TEMPERATURE_TYPE_ID)
    } else if same_text(name, "timed_switch_2") {
        Some(TIMED_SWITCH_2_TYPE_ID)
    } else {
        None
    }
}

/// The names of the drivers are distinct: the code of a driver is found again
/// from its name, and the name that stands for no driver names none.
pub proof fn lemma_names_identify_drivers(type_id: u16)
    ensures
        is_known_type(type_id) ==> driver_type(driver_name(type_id)) == Some(type_id),
        !is_known_type(type_id) ==> driver_type(driver_name(type_id)) is None,
{
    reveal_strlit("adc_temperature");
    reveal_strlit("aht20");
    reveal_strlit("atlas_ec");
    reveal_strlit("basic_evo");
    reveal_strlit("ds18b20");
    reveal_strlit("mcp_9808");
    reveal_strlit("modbus");
    reveal_strlit("ring_temperature");
    reveal_strlit("timed_switch_2");
    reveal_strlit("no_match");
    assert("adc_temperature"@.len() == 15);
    assert("aht20"@.len() == 5);
    assert("atlas_ec"@.len() == 8);
    assert("basic_evo"@.len() == 9);
    assert("ds18b20"@.len() == 7);
    assert("mcp_9808"@.len() == 8);
    assert("modbus"@.len() == 6);
    assert("ring_temperature"@.len() == 16);
    assert("timed_switch_2"@.len() == 14);
    assert("no_match"@.len() == 8);
    assert("atlas_ec"@[0] != "mcp_9808"@[0]);
    assert("atlas_ec"@[0] != "no_match"@[0]);
    assert("mcp_9808"@[0] != "no_match"@[0]);
}

/// A driver of any of the kinds that are built in.
#[derive(Debug)]
pub enum Driver {
    AdcTemperature(ADCTemperatureDriver),
    Aht20(AHT20),
    AtlasEc(AtlasEC),
    BasicEvo(BasicEvo),
    Ds18b20(Ds18b20),
    Mcp9808(MCP9808TemperatureDriver),
    Modbus(ModbusDriver),
    RingTemperature(RingTemperatureDriver),
    TimedSwitch(TimedSwitch2),
}

impl Driver {
    /// The type code of the kind of the driver.
    pub open spec fn kind(&self) -> u16 {
        match *self {
            Driver::AdcTemperature(_) => ADC_TEMPERATURE_TYPE_ID,
            Driver::Aht20(_) => AHT20_TYPE_ID,
            Driver::AtlasEc(_) => ATLAS_EC_TYPE_ID,
            Driver::BasicEvo(_) => BASIC_EVO_TYPE_ID,
            Driver::Ds18b20(_) => DS18B20_TYPE_ID,
            Driver::Mcp9808(_) => MCP9808_TYPE_ID,
            Driver::Modbus(_) => MODBUS_TYPE_ID,
            Driver::RingTemperature(_) => RING_TEMPERATURE_TYPE_ID,
            Driver::TimedSwitch(_) => TIMED_SWITCH_2_TYPE_ID,
        }
    }

    /// Whether the special configuration of the driver is what the partition
    /// `bytes` holds. A Modbus driver persists nothing.
    pub open spec fn special_decodes(&self, bytes: Seq<u8>) -> bool {
        match *self {
            Driver::AdcTemperature(_) => true,
            Driver::Aht20(d) => d.special_config == AHT20SpecialConfiguration::decoded(bytes),
            Driver::AtlasEc(_) => true,
            Driver::BasicEvo(d) => d.special_config == BasicEvoSpecialConfiguration::decoded(bytes),
            Driver::Ds18b20(d) => d.special_config == Ds18b20SpecialConfiguration::decoded(bytes),
            Driver::Mcp9808(d) => d.special_config
                == MCP9808TemperatureDriverSpecialConfiguration::decoded(bytes),
            Driver::Modbus(_) => true,
            Driver::RingTemperature(d) => d.special_config.decodes(bytes),
            Driver::TimedSwitch(d) => d.special_config == TimedSwitch2SpecialConfiguration::decoded(
                bytes,
            ),
        }
    }

    /// Whether the driver is as it is made: with the values that it starts
    /// from, zero or, for the humidity sensor, unavailable, and without anything
    /// that a set-up, a measurement or an answer leaves behind.
    pub open spec fn fresh(&self) -> bool {
        match *self {
            Driver::AdcTemperature(d) => d.measured_parameter_values@[0] == Some(0i64),
            Driver::Aht20(d) => d.humidity is None && d.temperature is None && d.enabled,
            Driver::AtlasEc(d) => d.measured_parameter_values@[0] == Some(0i64)
                && d.measured_parameter_values@[1] == Some(0i64),
            Driver::BasicEvo(d) => d.message@ == ":340300800004AA".spec_bytes() && forall|i: int|
                0 <= i < 16 ==> #[trigger] d.register_values@[i] == 0,
            Driver::Ds18b20(d) => d.measured_parameter_values@[0] == Some(0i64)
                && d.measured_parameter_values@[1] == Some(0i64),
            Driver::Mcp9808(d) => d.measured_parameter_values@[0] == Some(0i64)
                && d.measured_parameter_values@[1] == Some(0i64) && d.calibration_offset == 0
                && d.address == d.special_config.address,
            Driver::Modbus(d) => d.special_config.measured_parameter_count == 0 && forall|i: int|
                0 <= i < 12 ==> #[trigger] d.measured_parameter_values@[i] == 0,
            Driver::RingTemperature(d) => {
                &&& forall|i: int|
                    0 <= i < 128 ==> #[trigger] d.measured_parameter_values@[i] == Some(0i64)
                &&& forall|i: int|
                    0 <= i < 8 ==> (#[trigger] d.sensor_drivers@[i]).calibration_offset == 0
            },
            Driver::TimedSwitch(d) => d.state == 0 && d.last_state_updated_at == 0
                && !d.duty_cycle_state && d.last_duty_cycle_update == 0 && d.duty_cycle_on_time
                == 0 && d.duty_cycle_off_time == 0,
        }
    }

    /// Whether the slot takes part in the measurement cycle.
    pub fn is_enabled(&self) -> (enabled: bool)
        ensures
            enabled == self.general().enabled,
    {
        match self {
            Driver::AdcTemperature(d) => d.general_config.enabled,
            Driver::Aht20(d) => d.general_config.enabled,
            Driver::AtlasEc(d) => d.general_config.enabled,
            Driver::BasicEvo(d) => d.general_config.enabled,
            Driver::Ds18b20(d) => d.general_config.enabled,
            Driver::Mcp9808(d) => d.general_config.enabled,
            Driver::Modbus(d) => d.general_config.enabled,
            Driver::RingTemperature(d) => d.general_config.enabled,
            Driver::TimedSwitch(d) => d.general_config.enabled,
        }
    }
}

impl SensorDriver for Driver {
    open spec fn well_formed(&self) -> bool {
        match *self {
            Driver::AdcTemperature(d) => d.well_formed(),
            Driver::Aht20(d) => d.well_formed(),
            Driver::AtlasEc(d) => d.well_formed(),
            Driver::BasicEvo(d) => d.well_formed(),
            Driver::Ds18b20(d) => d.well_formed(),
            Driver::Mcp9808(d) => d.well_formed(),
            Driver::Modbus(d) => d.well_formed(),
            Driver::RingTemperature(d) => d.well_formed(),
            Driver::TimedSwitch(d) => d.well_formed(),
        }
    }

    open spec fn general(&self) -> SensorDriverGeneralConfiguration {
        match *self {
            Driver::AdcTemperature(d) => d.general(),
            Driver::Aht20(d) => d.general(),
            Driver::AtlasEc(d) => d.general(),
            Driver::BasicEvo(d) => d.general(),
            Driver::Ds18b20(d) => d.general(),
            Driver::Mcp9808(d) => d.general(),
            Driver::Modbus(d) => d.general(),
            Driver::RingTemperature(d) => d.general(),
            Driver::TimedSwitch(d) => d.general(),
        }
    }

    open spec fn special_bytes(&self) -> Seq<u8> {
        match *self {
            Driver::AdcTemperature(d) => d.special_bytes(),
            Driver::Aht20(d) => d.special_bytes(),
            Driver::AtlasEc(d) => d.special_bytes(),
            Driver::BasicEvo(d) => d.special_bytes(),
            Driver::Ds18b20(d) => d.special_bytes(),
            Driver::Mcp9808(d) => d.special_bytes(),
            Driver::Modbus(d) => d.special_bytes(),
            Driver::RingTemperature(d) => d.special_bytes(),
            Driver::TimedSwitch(d) => d.special_bytes(),
        }
    }

    open spec fn parameter_count(&self) -> nat {
        match *self {
            Driver::AdcTemperature(d) => d.parameter_count(),
            Driver::Aht20(d) => d.parameter_count(),
            Driver::AtlasEc(d) => d.parameter_count(),
            Driver::BasicEvo(d) => d.parameter_count(),
            Driver::Ds18b20(d) => d.parameter_count(),
            Driver::Mcp9808(d) => d.parameter_count(),
            Driver::Modbus(d) => d.parameter_count(),
            Driver::RingTemperature(d) => d.parameter_count(),
            Driver::TimedSwitch(d) => d.parameter_count(),
        }
    }

    open spec fn parameter_value(&self, index: int) -> Option<i64> {
        match *self {
            Driver::AdcTemperature(d) => d.parameter_value(index),
            Driver::Aht20(d) => d.parameter_value(index),
            Driver::AtlasEc(d) => d.parameter_value(index),
            Driver::BasicEvo(d) => d.parameter_value(index),
            Driver::Ds18b20(d) => d.parameter_value(index),
            Driver::Mcp9808(d) => d.parameter_value(index),
            Driver::Modbus(d) => d.parameter_value(index),
            Driver::RingTemperature(d) => d.parameter_value(index),
            Driver::TimedSwitch(d) => d.parameter_value(index),
        }
    }

    open spec fn parameter_name(&self, index: int) -> Seq<u8> {
        match *self {
            Driver::AdcTemperature(d) => d.parameter_name(index),
            Driver::Aht20(d) => d.parameter_name(index),
            Driver::AtlasEc(d) => d.parameter_name(index),
            Driver::BasicEvo(d) => d.parameter_name(index),
            Driver::Ds18b20(d) => d.parameter_name(index),
            Driver::Mcp9808(d) => d.parameter_name(index),
            Driver::Modbus(d) => d.parameter_name(index),
            Driver::RingTemperature(d) => d.parameter_name(index),
            Driver::TimedSwitch(d) => d.parameter_name(index),
        }
    }

    open spec fn requested(&self) -> Set<int> {
        match *self {
            Driver::AdcTemperature(d) => d.requested(),
            Driver::Aht20(d) => d.requested(),
            Driver::AtlasEc(d) => d.requested(),
            Driver::BasicEvo(d) => d.requested(),
            Driver::Ds18b20(d) => d.requested(),
            Driver::Mcp9808(d) => d.requested(),
            Driver::Modbus(d) => d.requested(),
            Driver::RingTemperature(d) => d.requested(),
            Driver::TimedSwitch(d) => d.requested(),
        }
    }

    fn get_id(&self) -> (id: [u8; 6]) {
        match self {
            Driver::AdcTemperature(d) => d.get_id(),
            Driver::Aht20(d) => d.get_id(),
            Driver::AtlasEc(d) => d.get_id(),
            Driver::BasicEvo(d) => d.get_id(),
            Driver::Ds18b20(d) => d.get_id(),
            Driver::Mcp9808(d) => d.get_id(),
            Driver::Modbus(d) => d.get_id(),
            Driver::RingTemperature(d) => d.get_id(),
            Driver::TimedSwitch(d) => d.get_id(),
        }
    }

    fn get_type_id(&self) -> (type_id: u16) {
        match self {
            Driver::AdcTemperature(d) => d.get_type_id(),
            Driver::Aht20(d) => d.get_type_id(),
            Driver::AtlasEc(d) => d.get_type_id(),
            Driver::BasicEvo(d) => d.get_type_id(),
            Driver::Ds18b20(d) => d.get_type_id(),
            Driver::Mcp9808(d) => d.get_type_id(),
            Driver::Modbus(d) => d.get_type_id(),
            Driver::RingTemperature(d) => d.get_type_id(),
            Driver::TimedSwitch(d) => d.get_type_id(),
        }
    }

    fn setup<B: RRIVBoard>(&mut self, board: &mut B)
        ensures
            final(self).kind() == old(self).kind(),
            final(self).set_up_from(*old(self)),
            final(self).requested() == old(self).requested(),
    {
        match self {
            Driver::AdcTemperature(d) => d.setup(board),
            Driver::Aht20(d) => d.setup(board),
            Driver::AtlasEc(d) => d.setup(board),
            Driver::BasicEvo(d) => d.setup(board),
            Driver::Ds18b20(d) => d.setup(board),
            Driver::Mcp9808(d) => d.setup(board),
            Driver::Modbus(d) => d.setup(board),
            Driver::RingTemperature(d) => d.setup(board),
            Driver::TimedSwitch(d) => d.setup(board),
        }
    }

    fn get_measured_parameter_count(&self) -> (count: usize) {
        match self {
            Driver::AdcTemperature(d) => d.get_measured_parameter_count(),
            Driver::Aht20(d) => d.get_measured_parameter_count(),
            Driver::AtlasEc(d) => d.get_measured_parameter_count(),
            Driver::BasicEvo(d) => d.get_measured_parameter_count(),
            Driver::Ds18b20(d) => d.get_measured_parameter_count(),
            Driver::Mcp9808(d) => d.get_measured_parameter_count(),
            Driver::Modbus(d) => d.get_measured_parameter_count(),
            Driver::RingTemperature(d) => d.get_measured_parameter_count(),
            Driver::TimedSwitch(d) => d.get_measured_parameter_count(),
        }
    }

    fn get_measured_parameter_value(&self, index: usize) -> (r: Result<i64, ()>) {
        match self {
            Driver::AdcTemperature(d) => d.get_measured_parameter_value(index),
            Driver::Aht20(d) => d.get_measured_parameter_value(index),
            Driver::AtlasEc(d) => d.get_measured_parameter_value(index),
            Driver::BasicEvo(d) => d.get_measured_parameter_value(index),
            Driver::Ds18b20(d) => d.get_measured_parameter_value(index),
            Driver::Mcp9808(d) => d.get_measured_parameter_value(index),
            Driver::Modbus(d) => d.get_measured_parameter_value(index),
            Driver::RingTemperature(d) => d.get_measured_parameter_value(index),
            Driver::TimedSwitch(d) => d.get_measured_parameter_value(index),
        }
    }

    fn get_measured_parameter_identifier(&self, index: usize) -> (identifier: [u8; 16]) {
        match self {
            Driver::AdcTemperature(d) => d.get_measured_parameter_identifier(index),
            Driver::Aht20(d) => d.get_measured_parameter_identifier(index),
            Driver::AtlasEc(d) => d.get_measured_parameter_identifier(index),
            Driver::BasicEvo(d) => d.get_measured_parameter_identifier(index),
            Driver::Ds18b20(d) => d.get_measured_parameter_identifier(index),
            Driver::Mcp9808(d) => d.get_measured_parameter_identifier(index),
            Driver::Modbus(d) => d.get_measured_parameter_identifier(index),
            Driver::RingTemperature(d) => d.get_measured_parameter_identifier(index),
            Driver::TimedSwitch(d) => d.get_measured_parameter_identifier(index),
        }
    }

    fn take_measurement<B: RRIVBoard>(&mut self, board: &mut B)
        ensures
            final(self).kind() == old(self).kind(),
            final(self).measured_from(*old(self)),
    {
        match self {
            Driver::AdcTemperature(d) => d.take_measurement(board),
            Driver::Aht20(d) => d.take_measurement(board),
            Driver::AtlasEc(d) => d.take_measurement(board),
            Driver::BasicEvo(d) => d.take_measurement(board),
            Driver::Ds18b20(d) => d.take_measurement(board),
            Driver::Mcp9808(d) => d.take_measurement(board),
            Driver::Modbus(d) => d.take_measurement(board),
            Driver::RingTemperature(d) => d.take_measurement(board),
            Driver::TimedSwitch(d) => d.take_measurement(board),
        }
    }

    fn update_actuators<B: RRIVBoard>(&mut self, board: &mut B)
        ensures
            final(self).kind() == old(self).kind(),
            final(self).actuated_from(*old(self)),
    {
        match self {
            Driver::AdcTemperature(d) => d.update_actuators(board),
            Driver::Aht20(d) => d.update_actuators(board),
            Driver::AtlasEc(d) => d.update_actuators(board),
            Driver::BasicEvo(d) => d.update_actuators(board),
            Driver::Ds18b20(d) => d.update_actuators(board),
            Driver::Mcp9808(d) => d.update_actuators(board),
            Driver::Modbus(d) => d.update_actuators(board),
            Driver::RingTemperature(d) => d.update_actuators(board),
            Driver::TimedSwitch(d) => d.update_actuators(board),
        }
    }

    fn fit(&mut self, pairs: &[CalibrationPair]) -> (r: Result<(), ()>)
        ensures
            final(self).kind() == old(self).kind(),
            final(self).fitted_from(*old(self), pairs@, r),
    {
        match self {
            Driver::AdcTemperature(d) => d.fit(pairs),
            Driver::Aht20(d) => d.fit(pairs),
            Driver::AtlasEc(d) => d.fit(pairs),
            Driver::BasicEvo(d) => d.fit(pairs),
            Driver::Ds18b20(d) => d.fit(pairs),
            Driver::Mcp9808(d) => d.fit(pairs),
            Driver::Modbus(d) => d.fit(pairs),
            Driver::RingTemperature(d) => d.fit(pairs),
            Driver::TimedSwitch(d) => d.fit(pairs),
        }
    }

    fn clear_calibration(&mut self)
        ensures
            final(self).kind() == old(self).kind(),
            final(self).cleared_from(*old(self)),
    {
        match self {
            Driver::AdcTemperature(d) => d.clear_calibration(),
            Driver::Aht20(d) => d.clear_calibration(),
            Driver::AtlasEc(d) => d.clear_calibration(),
            Driver::BasicEvo(d) => d.clear_calibration(),
            Driver::Ds18b20(d) => d.clear_calibration(),
            Driver::Mcp9808(d) => d.clear_calibration(),
            Driver::Modbus(d) => d.clear_calibration(),
            Driver::RingTemperature(d) => d.clear_calibration(),
            Driver::TimedSwitch(d) => d.clear_calibration(),
        }
    }

    fn get_configuration_bytes(&self, storage: &mut [u8; 64]) {
        match self {
            Driver::AdcTemperature(d) => d.get_configuration_bytes(storage),
            Driver::Aht20(d) => d.get_configuration_bytes(storage),
            Driver::AtlasEc(d) => d.get_configuration_bytes(storage),
            Driver::BasicEvo(d) => d.get_configuration_bytes(storage),
            Driver::Ds18b20(d) => d.get_configuration_bytes(storage),
            Driver::Mcp9808(d) => d.get_configuration_bytes(storage),
            Driver::Modbus(d) => d.get_configuration_bytes(storage),
            Driver::RingTemperature(d) => d.get_configuration_bytes(storage),
            Driver::TimedSwitch(d) => d.get_configuration_bytes(storage),
        }
    }

    fn get_configuration_json(&self) -> (values: ConfigurationValues)
        ensures
            self.reported_by(values.fields@),
    {
        match self {
            Driver::AdcTemperature(d) => d.get_configuration_json(),
            Driver::Aht20(d) => d.get_configuration_json(),
            Driver::AtlasEc(d) => d.get_configuration_json(),
            Driver::BasicEvo(d) => d.get_configuration_json(),
            Driver::Ds18b20(d) => d.get_configuration_json(),
            Driver::Mcp9808(d) => d.get_configuration_json(),
            Driver::Modbus(d) => d.get_configuration_json(),
            Driver::RingTemperature(d) => d.get_configuration_json(),
            Driver::TimedSwitch(d) => d.get_configuration_json(),
        }
    }

    fn get_requested_gpios(&self) -> (request: GpioRequest) {
        match self {
            Driver::AdcTemperature(d) => d.get_requested_gpios(),
            Driver::Aht20(d) => d.get_requested_gpios(),
            Driver::AtlasEc(d) => d.get_requested_gpios(),
            Driver::BasicEvo(d) => d.get_requested_gpios(),
            Driver::Ds18b20(d) => d.get_requested_gpios(),
            Driver::Mcp9808(d) => d.get_requested_gpios(),
            Driver::Modbus(d) => d.get_requested_gpios(),
            Driver::RingTemperature(d) => d.get_requested_gpios(),
            Driver::TimedSwitch(d) => d.get_requested_gpios(),
        }
    }

    fn receive_message(&mut self, message: Option<[u8; 50]>)
        ensures
            final(self).kind() == old(self).kind(),
            final(self).message_taken_from(*old(self), message),
    {
        match self {
            Driver::AdcTemperature(d) => d.receive_message(message),
            Driver::Aht20(d) => d.receive_message(message),
            Driver::AtlasEc(d) => d.receive_message(message),
            Driver::BasicEvo(d) => d.receive_message(message),
            Driver::Ds18b20(d) => d.receive_message(message),
            Driver::Mcp9808(d) => d.receive_message(message),
            Driver::Modbus(d) => d.receive_message(message),
            Driver::RingTemperature(d) => d.receive_message(message),
            Driver::TimedSwitch(d) => d.receive_message(message),
        }
    }

    fn receive_modbus(&mut self, response: &ModbusResponse)
        ensures
            final(self).kind() == old(self).kind(),
            final(self).answer_taken_from(*old(self), *response),
    {
        match self {
            Driver::AdcTemperature(d) => d.receive_modbus(response),
            Driver::Aht20(d) => d.receive_modbus(response),
            Driver::AtlasEc(d) => d.receive_modbus(response),
            Driver::BasicEvo(d) => d.receive_modbus(response),
            Driver::Ds18b20(d) => d.receive_modbus(response),
            Driver::Mcp9808(d) => d.receive_modbus(response),
            Driver::Modbus(d) => d.receive_modbus(response),
            Driver::RingTemperature(d) => d.receive_modbus(response),
            Driver::TimedSwitch(d) => d.receive_modbus(response),
        }
    }
}

impl Driver {
    /// Whether `self` is what setting up leaves of `before`. The switch takes
    /// the time of the board; every other kind is set up from its own
    /// configuration alone.
    pub open spec fn set_up_from(&self, before: Driver) -> bool {
        match (before, *self) {
            (Driver::Aht20(b), Driver::Aht20(a)) => a.special_config == b.special_config
                && a.humidity == b.humidity && a.temperature == b.temperature,
            (Driver::BasicEvo(b), Driver::BasicEvo(a)) => a.special_config
                == crate::drivers::basic_evo::with_mode_presets(b.special_config) && a.message@
                == crate::drivers::basic_evo::request_of(a.special_config) && a.register_values
                == b.register_values,
            (Driver::Mcp9808(b), Driver::Mcp9808(a)) => a == (MCP9808TemperatureDriver {
                calibration_offset: (b.special_config.calibration_offset * 1000) as i64,
                ..b
            }),
            (Driver::RingTemperature(b), Driver::RingTemperature(a)) => {
                &&& a.special_config == b.special_config
                &&& a.measured_parameter_values == b.measured_parameter_values
                &&& forall|i: int|
                    0 <= i < 8 ==> (#[trigger] a.sensor_drivers@[i]).calibration_offset
                        == b.special_config.calibration_offset@[i] * 1000
            },
            (Driver::TimedSwitch(b), Driver::TimedSwitch(a)) => exists|
                timestamp: i64,
                millis: u32,
            |
                a == crate::drivers::timed_switch_2::started(b, timestamp, millis),
            _ => *self == before,
        }
    }

    /// Whether `self` is what one measurement leaves of `before`: the values are
    /// those that some answer of the sensor gives, and the configuration is as
    /// it was. The kinds that are told their values by messages, and the
    /// switch, keep what they hold.
    pub open spec fn measured_from(&self, before: Driver) -> bool {
        match (before, *self) {
            (Driver::AdcTemperature(b), Driver::AdcTemperature(a)) => {
                &&& exists|degrees: i32|
                    a.measured_parameter_values@[0] == Some(
                        #[trigger] crate::drivers::adc_temperature::degrees_micros(degrees),
                    )
                &&& a.special_config == b.special_config
            },
            (Driver::Aht20(b), Driver::Aht20(a)) => {
                &&& !b.enabled ==> a == b
                &&& b.enabled ==> exists|reading: Result<[u8; 6], ()>|
                    a.humidity == crate::drivers::aht20::recorded(reading).0 && a.temperature
                        == crate::drivers::aht20::recorded(reading).1
                &&& a.special_config == b.special_config
                &&& a.enabled == b.enabled
            },
            (Driver::AtlasEc(b), Driver::AtlasEc(a)) => {
                &&& exists|reading: Option<[u8; 4]>|
                    a.measured_parameter_values@[0] == crate::drivers::atlas_ec::recorded(reading)
                &&& a.measured_parameter_values@[1] == b.measured_parameter_values@[1]
                &&& a.special_config == b.special_config
            },
            (Driver::Ds18b20(b), Driver::Ds18b20(a)) => {
                &&& exists|reading: Result<[u8; 9], ()>|
                    {
                        &&& a.measured_parameter_values@[0] == crate::drivers::ds18b20::recorded(
                            b.special_config.calibration,
                            reading,
                        ).0
                        &&& a.measured_parameter_values@[1] == crate::drivers::ds18b20::recorded(
                            b.special_config.calibration,
                            reading,
                        ).1
                    }
                &&& a.special_config == b.special_config
            },
            (Driver::Mcp9808(b), Driver::Mcp9808(a)) => {
                &&& crate::drivers::mcp9808::measured_pair(
                    b,
                    (a.measured_parameter_values@[0], a.measured_parameter_values@[1]),
                )
                &&& a.special_config == b.special_config
                &&& a.address == b.address
                &&& a.calibration_offset == b.calibration_offset
            },
            (Driver::RingTemperature(b), Driver::RingTemperature(a)) => {
                &&& a.special_config == b.special_config
                &&& forall|c: int, i: int|
                    0 <= c < crate::drivers::ring_temperature::rings_measured(b.special_config) && 0
                        <= i < b.special_config.sensors ==> crate::drivers::mcp9808::measured_pair(
                        b.sensor_drivers@[i],
                        #[trigger] crate::drivers::ring_temperature::ring_pair(
                            a.measured_parameter_values@,
                            b.special_config,
                            c,
                            i,
                        ),
                    )
                &&& forall|k: int|
                    crate::drivers::ring_temperature::ring_base(
                        b.special_config,
                        crate::drivers::ring_temperature::rings_measured(b.special_config),
                    ) <= k < 128 ==> #[trigger] a.measured_parameter_values@[k]
                        == b.measured_parameter_values@[k]
                &&& forall|i: int|
                    0 <= i < 8 ==> (#[trigger] a.sensor_drivers@[i]).calibration_offset
                        == b.sensor_drivers@[i].calibration_offset
            },
            _ => *self == before,
        }
    }

    /// Whether `self` is what one step of the actuators leaves of `before`: the
    /// switch is stepped at the time of the board, and no other kind has an
    /// actuator.
    pub open spec fn actuated_from(&self, before: Driver) -> bool {
        match (before, *self) {
            (Driver::TimedSwitch(b), Driver::TimedSwitch(a)) => exists|
                timestamp: i64,
                millis: u32,
            |
                a == crate::drivers::timed_switch_2::stepped(b, timestamp, millis).0,
            _ => *self == before,
        }
    }

    /// Whether `r` and `self` are what fitting `before` to `pairs` gives. The
    /// kinds without a calibration refuse; the analog thermometer accepts any
    /// pairs and keeps nothing of them.
    pub open spec fn fitted_from(
        &self,
        before: Driver,
        pairs: Seq<CalibrationPair>,
        r: Result<(), ()>,
    ) -> bool {
        match (before, *self) {
            (Driver::AdcTemperature(b), Driver::AdcTemperature(a)) => r is Ok && a == b,
            (Driver::Ds18b20(b), Driver::Ds18b20(a)) => {
                &&& r is Ok == (pairs.len() == 2 && pairs[0].values@.len() >= 1
                    && pairs[1].values@.len() >= 1 && LinearCalibration::fits(
                    pairs[0].point,
                    pairs[0].values@[0],
                    pairs[1].point,
                    pairs[1].values@[0],
                ))
                &&& r is Ok ==> a.special_config.calibration == LinearCalibration::fitted(
                    pairs[0].point,
                    pairs[0].values@[0],
                    pairs[1].point,
                    pairs[1].values@[0],
                ) && a.special_config.calibration.through(
                    pairs[0].point,
                    pairs[0].values@[0],
                    pairs[1].point,
                    pairs[1].values@[0],
                )
                &&& r is Ok ==> a.special_config.calibration.applied(pairs[0].values@[0]) == Some(
                    pairs[0].point,
                ) && a.special_config.calibration.applied(pairs[1].values@[0]) == Some(
                    pairs[1].point,
                )
                &&& r is Ok ==> a.measured_parameter_values == b.measured_parameter_values
                &&& r is Err ==> a == b
            },
            (Driver::Mcp9808(b), Driver::Mcp9808(a)) => {
                &&& r is Ok == (pairs.len() == 1 && pairs[0].values@.len() >= 1 && i64::MIN
                    <= pairs[0].point - pairs[0].values@[0] <= i64::MAX)
                &&& r is Ok ==> a.calibration_offset == pairs[0].point - pairs[0].values@[0]
                &&& r is Ok ==> a.special_config.calibration_offset
                    == crate::drivers::mcp9808::offset_thousandths(
                    (pairs[0].point - pairs[0].values@[0]) as i64,
                )
                &&& r is Ok ==> a.special_config.address == b.special_config.address
                &&& r is Ok ==> a.measured_parameter_values == b.measured_parameter_values
                &&& r is Err ==> a == b
            },
            (Driver::RingTemperature(b), Driver::RingTemperature(a)) => {
                &&& r is Ok == (pairs.len() == 1 && pairs[0].values@.len() >= 6 && forall|i: int|
                    0 <= i < 8 && i < pairs[0].values@.len() ==> i64::MIN <= pairs[0].point
                        - #[trigger] pairs[0].values@[i] <= i64::MAX)
                &&& r is Ok ==> forall|i: int|
                    0 <= i < 8 ==> #[trigger] a.special_config.calibration_offset@[i] == if i
                        < pairs[0].values@.len() {
                        crate::drivers::mcp9808::offset_thousandths(
                            (pairs[0].point - pairs[0].values@[i]) as i64,
                        )
                    } else {
                        b.special_config.calibration_offset@[i]
                    }
                &&& r is Ok ==> a.special_config.channels == b.special_config.channels
                &&& r is Ok ==> a.special_config.sensors == b.special_config.sensors
                &&& r is Err ==> a == b
            },
            _ => r is Err && *self == before,
        }
    }

    /// Whether `self` is `before` without its calibration: the identity for the
    /// one-wire thermometer, no offset for the thermometers on the bus, and
    /// nothing to clear for the other kinds.
    pub open spec fn cleared_from(&self, before: Driver) -> bool {
        match (before, *self) {
            (Driver::Ds18b20(b), Driver::Ds18b20(a)) => {
                &&& a.special_config.calibration == LinearCalibration::neutral()
                &&& a.measured_parameter_values == b.measured_parameter_values
            },
            (Driver::Mcp9808(b), Driver::Mcp9808(a)) => a == (MCP9808TemperatureDriver {
                calibration_offset: 0,
                special_config: MCP9808TemperatureDriverSpecialConfiguration {
                    calibration_offset: 0,
                    ..b.special_config
                },
                ..b
            }),
            (Driver::RingTemperature(b), Driver::RingTemperature(a)) => {
                &&& forall|i: int|
                    0 <= i < 8 ==> #[trigger] a.special_config.calibration_offset@[i] == 0
                &&& forall|i: int|
                    0 <= i < 8 ==> (#[trigger] a.sensor_drivers@[i]).calibration_offset == 0
                &&& a.special_config.channels == b.special_config.channels
                &&& a.special_config.sensors == b.special_config.sensors
                &&& a.special_config.address_offset == b.special_config.address_offset
                &&& a.measured_parameter_values == b.measured_parameter_values
            },
            _ => *self == before,
        }
    }

    /// Whether `self` is what the message of a serial line leaves of `before`:
    /// the gas sensor takes the registers of an answer that it accepts, and no
    /// other kind listens.
    pub open spec fn message_taken_from(&self, before: Driver, message: Option<[u8; 50]>) -> bool {
        match (before, *self, message) {
            (
                Driver::BasicEvo(b),
                Driver::BasicEvo(a),
                Some(bytes),
            ) => crate::drivers::basic_evo::response_taken(b, bytes@, a),
            _ => *self == before,
        }
    }

    /// Whether `self` is what an answer of the Modbus line leaves of `before`:
    /// the Modbus driver takes the first twelve input registers, and no other
    /// kind listens.
    pub open spec fn answer_taken_from(&self, before: Driver, response: ModbusResponse) -> bool {
        match (before, *self, response) {
            (
                Driver::Modbus(b),
                Driver::Modbus(a),
                ModbusResponse::ReadInputRegisters(registers),
            ) => {
                &&& a.special_config.measured_parameter_count == if registers@.len() <= 12 {
                    registers@.len()
                } else {
                    12
                }
                &&& forall|i: int|
                    0 <= i < 12 ==> #[trigger] a.measured_parameter_values@[i] == if i
                        < registers@.len() {
                        crate::drivers::modbus::register_value(registers@[i])
                    } else {
                        b.measured_parameter_values@[i]
                    }
            },
            _ => *self == before,
        }
    }

    /// Whether `fields` report the configuration of the driver: the name of its
    /// kind, its identifier, and what is special to the kind.
    pub open spec fn reported_by(&self, fields: Seq<Field>) -> bool {
        &&& lookup(fields, "type"@) == FieldView::Text(driver_name(self.general().sensor_type_id))
        &&& lookup(fields, "id"@) matches FieldView::Text(text) && encode_utf8(text) == until_nul(
            sanitized(self.general().id@),
        )
        &&& match *self {
            Driver::Aht20(d) => lookup(fields, "wait_time"@) == FieldView::Number(
                unsigned_number(d.special_config.wait_time as u64),
            ),
            Driver::BasicEvo(d) => d.special_config.shown_by(fields),
            Driver::Mcp9808(d) => d.special_config.shown_by(fields),
            Driver::RingTemperature(d) => d.special_config.shown_by(fields),
            Driver::TimedSwitch(d) => d.special_config.shown_by(fields),
            _ => true,
        }
    }
}

/// Makes the driver of the kind `type_id` from the general configuration of its
/// slot and the partition that holds its special configuration. There is a
/// driver for every type code that is known, and for no other.
pub fn instantiate(
    type_id: u16,
    general_config: SensorDriverGeneralConfiguration,
    special_bytes: [u8; SENSOR_SETTINGS_PARTITION_SIZE],
) -> (driver: Option<Driver>)
    ensures
        driver is Some == is_known_type(type_id),
        driver matches Some(d) ==> d.kind() == type_id && d.well_formed() && d.general()
            == general_config && d.special_decodes(special_bytes@) && d.fresh(),
{
    if type_id == ADC_TEMPERATURE_TYPE_ID {
        Some(
            Driver::AdcTemperature(
                ADCTemperatureDriver::new(
                    general_config,
                    ADCTemperatureDriverSpecialConfiguration::new_from_bytes(special_bytes),
                ),
            ),
        )
    } else if type_id == AHT20_TYPE_ID {
        Some(
            Driver::Aht20(
                AHT20::new(general_config, AHT20SpecialConfiguration::new_from_bytes(special_bytes)),
            ),
        )
    } else if type_id == ATLAS_EC_TYPE_ID {
        Some(
            Driver::AtlasEc(
                AtlasEC::new(
                    general_config,
                    AtlasECSpecialConfiguration::new_from_bytes(special_bytes),
                ),
            ),
        )
    } else if type_id == BASIC_EVO_TYPE_ID {
        Some(
            Driver::BasicEvo(
                BasicEvo::new(
                    general_config,
                    BasicEvoSpecialConfiguration::new_from_bytes(special_bytes),
                ),
            ),
        )
    } else if type_id == DS18B20_TYPE_ID {
        Some(
            Driver::Ds18b20(
                Ds18b20::new(general_config, Ds18b20SpecialConfiguration::new_from_bytes(special_bytes)),
            ),
        )
    } else if type_id == MCP9808_TYPE_ID {
        Some(
            Driver::Mcp9808(
                MCP9808TemperatureDriver::new(
                    general_config,
                    MCP9808TemperatureDriverSpecialConfiguration::new_from_bytes(special_bytes),
                ),
            ),
        )
    } else if type_id == MODBUS_TYPE_ID {
        Some(
            Driver::Modbus(
                ModbusDriver::new(
                    general_config,
                    ModbusDriverSpecialConfiguration::new_from_bytes(special_bytes),
                ),
            ),
        )
    } else if type_id == RING_TEMPERATURE_TYPE_ID {
        Some(
            Driver::RingTemperature(
                RingTemperatureDriver::new(
                    general_config,
                    RingTemperatureDriverSpecialConfiguration::new_from_bytes(special_bytes),
                ),
            ),
        )
    } else if type_id == TIMED_SWITCH_2_TYPE_ID {
        Some(
            Driver::TimedSwitch(
                TimedSwitch2::new(
                    general_config,
                    TimedSwitch2SpecialConfiguration::new_from_bytes(special_bytes),
                ),
            ),
        )
    } else {
        None
    }
}

/// What a driver writes as its slot is read back as its configuration: the
/// first partition decodes to its general configuration, and the second to its
/// special configuration.
pub proof fn lemma_slot_round_trip(driver: Driver)
    requires
        driver.well_formed(),
    ensures
        (driver.general().encoded() + driver.special_bytes()).len() == 64,
        driver.general().decodes(
            (driver.general().encoded() + driver.special_bytes()).subrange(0, 32),
        ),
        driver.special_decodes(
            (driver.general().encoded() + driver.special_bytes()).subrange(32, 64),
        ),
{
    let general = driver.general().encoded();
    let special = driver.special_bytes();
    lemma_general_round_trip(driver.general());
    match driver {
        Driver::AdcTemperature(d) => {},
        Driver::Aht20(d) => {
            crate::drivers::aht20::lemma_special_round_trip(d.special_config);
        },
        Driver::AtlasEc(d) => {},
        Driver::BasicEvo(d) => {
            crate::drivers::basic_evo::lemma_special_round_trip(d.special_config);
        },
        Driver::Ds18b20(d) => {
            crate::drivers::ds18b20::lemma_special_round_trip(d.special_config);
        },
        Driver::Mcp9808(d) => {
            crate::drivers::mcp9808::lemma_special_round_trip(d.special_config);
        },
        Driver::Modbus(d) => {},
        Driver::RingTemperature(d) => {
            crate::drivers::ring_temperature::lemma_special_round_trip(d.special_config);
        },
        Driver::TimedSwitch(d) => {
            crate::drivers::timed_switch_2::lemma_special_round_trip(d.special_config);
        },
    }
    assert(special.len() == 32);
    assert((general + special).subrange(0, 32) =~= general);
    assert((general + special).subrange(32, 64) =~= special);
}

/// How the name of a slot is read from its field: at most six bytes that make
/// an identifier, padded with NUL.
pub open spec fn id_field(value: FieldView) -> Result<Seq<u8>, Seq<char>> {
    match value {
        FieldView::Text(text) => if encode_utf8(text).len() <= 6 && is_identifier(
            encode_utf8(text),
        ) {
            Ok(encode_utf8(text) + zeros((6 - encode_utf8(text).len()) as nat))
        } else {
            Err("invalid id"@)
        },
        _ => Err("id is required"@),
    }
}

/// How the kind of a driver is read from its field.
pub open spec fn type_field(value: FieldView) -> Result<u16, Seq<char>> {
    match value {
        FieldView::Text(text) => match driver_type(text) {
            Some(type_id) => Ok(type_id),
            None => Err("unknown driver type"@),
        },
        _ => Err("type is required"@),
    }
}

/// The name of the slot and the kind of its driver that the fields of a command
/// give, or the error of the first that is refused.
pub open spec fn parsed_general(fields: Seq<Field>) -> Result<(Seq<u8>, u16), Seq<char>> {
    match id_field(lookup(fields, "id"@)) {
        Ok(id) => match type_field(lookup(fields, "type"@)) {
            Ok(type_id) => Ok((id, type_id)),
            Err(message) => Err(message),
        },
        Err(message) => Err(message),
    }
}

/// Reads the general configuration of a slot from the fields of a command. The
/// slot is enabled and takes single samples.
pub fn parse_general(values: &ConfigurationValues) -> (r: Result<
    SensorDriverGeneralConfiguration,
    &'static str,
>)
    ensures
        match parsed_general(values.fields@) {
            Ok((id, type_id)) => r matches Ok(config) && config.id@ == id && config.sensor_type_id
                == type_id && config.enabled && config.burst_repetitions == 1
                && config.average_samples == 1 && is_known_type(type_id),
            Err(text) => r matches Err(message) && message@ == text,
        },
{
    let id: [u8; 6] = match values.get("id") {
        Some(FieldValue::Text(text)) => {
            let bytes: &[u8] = text.as_str().as_bytes();
            if bytes.len() <= 6 && check_alphanumeric(bytes) {
                let mut id: [u8; 6] = [0, 0, 0, 0, 0, 0];
                let mut i: usize = 0;
                while i < bytes.len()
                    invariant
                        i <= bytes@.len() <= 6,
                        forall|j: int| 0 <= j < i ==> #[trigger] id@[j] == bytes@[j],
                        forall|j: int| i <= j < 6 ==> #[trigger] id@[j] == 0,
                    decreases bytes@.len() - i,
                {
                    id[i] = bytes[i];
                    i += 1;
                }
                assert(id@ =~= bytes@ + zeros((6 - bytes@.len()) as nat));
                id
            } else {
                return Err("invalid id");
            }
        },
        _ => { return Err("id is required"); },
    };
    let type_id: u16 = match values.get("type") {
        Some(FieldValue::Text(text)) => match type_id_from_name(text.as_str()) {
            Some(type_id) => type_id,
            None => { return Err("unknown driver type"); },
        },
        _ => { return Err("type is required"); },
    };
    Ok(SensorDriverGeneralConfiguration::new(id, type_id))
}

/// Whether the special configuration of a driver is what the fields of a
/// command give for its kind. A kind that a command does not configure takes
/// any fields.
pub open spec fn special_parsed(driver: Driver, fields: Seq<Field>) -> bool {
    match driver {
        Driver::BasicEvo(d) => crate::drivers::basic_evo::parsed(fields) == Ok::<
            BasicEvoSpecialConfiguration,
            Seq<char>,
        >(d.special_config),
        Driver::Mcp9808(d) => crate::drivers::mcp9808::parsed(fields) == Ok::<
            MCP9808TemperatureDriverSpecialConfiguration,
            Seq<char>,
        >(d.special_config),
        Driver::RingTemperature(d) => crate::drivers::ring_temperature::parsed(fields) == Ok::<
            (u32, u32),
            Seq<char>,
        >((d.special_config.channels, d.special_config.sensors)),
        Driver::TimedSwitch(d) => crate::drivers::timed_switch_2::parsed(fields) == Ok::<
            TimedSwitch2SpecialConfiguration,
            Seq<char>,
        >(d.special_config),
        _ => true,
    }
}

/// The error with which the special configuration of the kind `type_id` is
/// refused, if the fields of a command do not give one.
pub open spec fn special_error(type_id: u16, fields: Seq<Field>) -> Option<Seq<char>> {
    if type_id == BASIC_EVO_TYPE_ID {
        match crate::drivers::basic_evo::parsed(fields) {
            Ok(_) => None,
            Err(message) => Some(message),
        }
    } else if type_id == MCP9808_TYPE_ID {
        match crate::drivers::mcp9808::parsed(fields) {
            Ok(_) => None,
            Err(message) => Some(message),
        }
    } else if type_id == RING_TEMPERATURE_TYPE_ID {
        match crate::drivers::ring_temperature::parsed(fields) {
            Ok(_) => None,
            Err(message) => Some(message),
        }
    } else if type_id == TIMED_SWITCH_2_TYPE_ID {
        match crate::drivers::timed_switch_2::parsed(fields) {
            Ok(_) => None,
            Err(message) => Some(message),
        }
    } else {
        None
    }
}

/// Makes the driver that the fields of a configuration command describe. A
/// command that is refused makes nothing: the error says which field was
/// refused first, the general ones before those of the kind.
pub fn instantiate_from_values(values: &ConfigurationValues) -> (r: Result<Driver, &'static str>)
    ensures
        match parsed_general(values.fields@) {
            Ok((id, type_id)) => match special_error(type_id, values.fields@) {
                None => r matches Ok(driver) && driver.kind() == type_id && driver.well_formed()
                    && driver.general().id@ == id && driver.general().sensor_type_id == type_id
                    && driver.general().enabled && special_parsed(driver, values.fields@)
                    && driver.fresh(),
                Some(text) => r matches Err(message) && message@ == text,
            },
            Err(text) => r matches Err(message) && message@ == text,
        },
{
    let general: SensorDriverGeneralConfiguration = match parse_general(values) {
        Ok(general) => general,
        Err(message) => { return Err(message); },
    };
    let type_id: u16 = general.sensor_type_id;
    if type_id == ADC_TEMPERATURE_TYPE_ID {
        match ADCTemperatureDriverSpecialConfiguration::parse_from_values(values) {
            Ok(special) => Ok(Driver::AdcTemperature(ADCTemperatureDriver::new(general, special))),
            Err(message) => Err(message),
        }
    } else if type_id == AHT20_TYPE_ID {
        match AHT20SpecialConfiguration::parse_from_values(values) {
            Ok(special) => Ok(Driver::Aht20(AHT20::new(general, special))),
            Err(message) => Err(message),
        }
    } else if type_id == ATLAS_EC_TYPE_ID {
        match AtlasECSpecialConfiguration::parse_from_values(values) {
            Ok(special) => Ok(Driver::AtlasEc(AtlasEC::new(general, special))),
            Err(message) => Err(message),
        }
    } else if type_id == BASIC_EVO_TYPE_ID {
        match BasicEvoSpecialConfiguration::parse_from_values(values) {
            Ok(special) => Ok(Driver::BasicEvo(BasicEvo::new(general, special))),
            Err(message) => Err(message),
        }
    } else if type_id == DS18B20_TYPE_ID {
        match Ds18b20SpecialConfiguration::parse_from_values(values) {
            Ok(special) => Ok(Driver::Ds18b20(Ds18b20::new(general, special))),
            Err(message) => Err(message),
        }
    } else if type_id == MCP9808_TYPE_ID {
        match MCP9808TemperatureDriverSpecialConfiguration::parse_from_values(values) {
            Ok(special) => Ok(Driver::Mcp9808(MCP9808TemperatureDriver::new(general, special))),
            Err(message) => Err(message),
        }
    } else if type_id == MODBUS_TYPE_ID {
        match ModbusDriverSpecialConfiguration::parse_from_values(values) {
            Ok(special) => Ok(Driver::Modbus(ModbusDriver::new(general, special))),
            Err(message) => Err(message),
        }
    } else if type_id == RING_TEMPERATURE_TYPE_ID {
        match RingTemperatureDriverSpecialConfiguration::parse_from_values(values) {
            Ok(special) => Ok(Driver::RingTemperature(RingTemperatureDriver::new(general, special))),
            Err(message) => Err(message),
        }
    } else {
        match TimedSwitch2SpecialConfiguration::parse_from_values(values) {
            Ok(special) => Ok(Driver::TimedSwitch(TimedSwitch2::new(general, special))),
            Err(message) => Err(message),
        }
    }
}

} // verus!
