//! The temperature sensor inside the microcontroller, read through its
//! analog-to-digital converter.

use vstd::prelude::*;
use vstd::string::StringSliceAdditionalSpecFns;
use vstd::utf8::encode_utf8;
use crate::board::RRIVBoard;
use crate::drivers::codec::{put_zeros, zeros};
use crate::drivers::resources::gpio::GpioRequest;
use crate::drivers::types::{
    copy_config_into_partition,
    identifier_from,
    lemma_both_partitions,
    partition_from,
    CalibrationPair,
    ModbusResponse,
    SensorDriver,
    SensorDriverGeneralConfiguration,
    SENSOR_SETTINGS_PARTITION_SIZE,
};
use crate::registry::{driver_name, name_from_type_id};
use crate::util::{sanitized, str_from_utf8, until_nul};
use crate::values::{lookup, ConfigurationValues, FieldValue, FieldView};

verus! {

/// What the driver persists: nothing.
#[derive(Clone, Copy, Debug)]
pub struct ADCTemperatureDriverSpecialConfiguration {}

impl ADCTemperatureDriverSpecialConfiguration {
    /// The persisted form: an empty partition.
    pub open spec fn encoded(&self) -> Seq<u8> {
        zeros(32)
    }

    /// A command configures nothing.
    pub fn parse_from_values(value: &ConfigurationValues) -> (r: Result<
        ADCTemperatureDriverSpecialConfiguration,
        &'static str,
    >)
        ensures
            r is Ok,
    {
        Ok(ADCTemperatureDriverSpecialConfiguration {  })
    }

    /// Reads the configuration from its partition.
    pub fn new_from_bytes(bytes: [u8; SENSOR_SETTINGS_PARTITION_SIZE]) -> (config:
        ADCTemperatureDriverSpecialConfiguration)
        ensures
            config == (ADCTemperatureDriverSpecialConfiguration {  }),
    {
        ADCTemperatureDriverSpecialConfiguration {  }
    }

    /// Writes the configuration as its partition.
    pub fn to_bytes(&self) -> (bytes: [u8; SENSOR_SETTINGS_PARTITION_SIZE])
        ensures
            bytes@ == self.encoded(),
    {
        let mut out: Vec<u8> = Vec::new();
        put_zeros(&mut out, 32);
        proof {
            assert(out@ =~= self.encoded());
        }
        partition_from(&out)
    }
}

/// A temperature in whole degrees, in millionths of a degree.
pub open spec fn degrees_micros(degrees: i32) -> i64 {
    (degrees * 1_000_000) as i64
}

/// The sensor.
#[derive(Clone, Copy, Debug)]
pub struct ADCTemperatureDriver {
    pub general_config: SensorDriverGeneralConfiguration,
    pub special_config: ADCTemperatureDriverSpecialConfiguration,
    /// The temperature of the last measurement, in millionths of a degree;
    /// nothing before the first.
    pub measured_parameter_values: [Option<i64>; 1],
}

impl ADCTemperatureDriver {
    /// A driver that has not measured yet: its value is zero.
    pub fn new(
        general_config: SensorDriverGeneralConfiguration,
        special_config: ADCTemperatureDriverSpecialConfiguration,
    ) -> (driver: Self)
        ensures
            driver.general_config == general_config,
            driver.special_config == special_config,
            driver.measured_parameter_values@[0] == Some(0i64),
    {
        ADCTemperatureDriver { general_config, special_config, measured_parameter_values: [Some(0)] }
    }

    /// Takes the temperature that the converter gave, in whole degrees.
    pub fn record_reading(&mut self, degrees: i32)
        ensures
            final(self).measured_parameter_values@[0] == Some(degrees_micros(degrees)),
            final(self).general_config == old(self).general_config,
            final(self).special_config == old(self).special_config,
    {
        self.measured_parameter_values[0] = Some(degrees as i64 * 1_000_000);
    }
}

impl SensorDriver for ADCTemperatureDriver {
    open spec fn well_formed(&self) -> bool {
        true
    }

    open spec fn general(&self) -> SensorDriverGeneralConfiguration {
        self.general_config
    }

    open spec fn special_bytes(&self) -> Seq<u8> {
        self.special_config.encoded()
    }

    open spec fn parameter_count(&self) -> nat {
        1
    }

    open spec fn parameter_value(&self, index: int) -> Option<i64> {
        self.measured_parameter_values@[index]
    }

    open spec fn parameter_name(&self, index: int) -> Seq<u8> {
        "temperature".spec_bytes()
    }

    /// The sensor is inside the microcontroller.
    open spec fn requested(&self) -> Set<int> {
        Set::<int>::empty()
    }

    fn get_id(&self) -> (id: [u8; 6]) {
        self.general_config.id
    }

    fn get_type_id(&self) -> (type_id: u16) {
        self.general_config.sensor_type_id
    }

    fn setup<B: RRIVBoard>(&mut self, board: &mut B)
        ensures
            *final(self) == *old(self),
    {
    }

    fn get_measured_parameter_count(&self) -> (count: usize) {
        1
    }

    fn get_measured_parameter_value(&self, index: usize) -> (r: Result<i64, ()>) {
        if index < 1 {
            match self.measured_parameter_values[index] {
                Some(value) => Ok(value),
                None => Err(()),
            }
        } else {
            Err(())
        }
    }

    fn get_measured_parameter_identifier(&self, index: usize) -> (identifier: [u8; 16]) {
        identifier_from("temperature".as_bytes())
    }

    /// Reads the converter and records what it gave.
    fn take_measurement<B: RRIVBoard>(&mut self, board: &mut B)
        ensures
            exists|degrees: i32|
                final(self).measured_parameter_values@[0] == Some(#[trigger] degrees_micros(degrees)),
            final(self).special_config == old(self).special_config,
    {
        let degrees: i32 = board.read_temp_adc();
        self.record_reading(degrees);
    }

    fn update_actuators<B: RRIVBoard>(&mut self, board: &mut B)
        ensures
            *final(self) == *old(self),
    {
    }

    /// The sensor has no calibration: a fit is accepted and changes nothing.
    fn fit(&mut self, pairs: &[CalibrationPair]) -> (r: Result<(), ()>)
        ensures
            r is Ok,
            *final(self) == *old(self),
    {
        Ok(())
    }

    fn clear_calibration(&mut self)
        ensures
            *final(self) == *old(self),
    {
    }

    fn get_configuration_bytes(&self, storage: &mut [u8; 64]) {
        let general: [u8; 32] = self.general_config.to_bytes();
        let special: [u8; 32] = self.special_config.to_bytes();
        copy_config_into_partition(0, general.as_slice(), storage);
        copy_config_into_partition(1, special.as_slice(), storage);
        proof {
            lemma_both_partitions(old(storage)@, general@, special@);
        }
    }

    /// The report names the slot and the driver.
    fn get_configuration_json(&self) -> (values: ConfigurationValues)
        ensures
            lookup(values.fields@, "type"@) == FieldView::Text(
                driver_name(self.general_config.sensor_type_id),
            ),
            lookup(values.fields@, "id"@) matches FieldView::Text(text) && encode_utf8(text)
                == until_nul(sanitized(self.general_config.id@)),
    {
        let mut values = ConfigurationValues::new();
        let mut id: [u8; 6] = self.general_config.id;
        let id_text: String = match str_from_utf8(&mut id) {
            Ok(text) => text.to_owned(),
            Err(_) => "Invalid".to_owned(),
        };
        proof {
            reveal_strlit("id");
            reveal_strlit("type");
            assert("id"@.len() == 2);
            assert("type"@.len() == 4);
        }
        values.set("id", FieldValue::Text(id_text));
        values.set(
            "type",
            FieldValue::Text(name_from_type_id(self.general_config.sensor_type_id).to_owned()),
        );
        values
    }

    fn get_requested_gpios(&self) -> (request: GpioRequest) {
        GpioRequest::none()
    }

    fn receive_message(&mut self, message: Option<[u8; 50]>)
        ensures
            *final(self) == *old(self),
    {
    }

    fn receive_modbus(&mut self, response: &ModbusResponse)
        ensures
            *final(self) == *old(self),
    {
    }
}

} // verus!
