//! The DS18B20 digital temperature sensor on the one-wire bus, with a linear
//! calibration through two points.

use vstd::prelude::*;
use vstd::utf8::encode_utf8;
use crate::board::RRIVBoard;
use crate::drivers::calibration::{
    lemma_calibration_round_trip,
    lemma_encoded_len,
    lemma_two_point_law,
    LinearCalibration,
};
use crate::drivers::resources::gpio::GpioRequest;
use crate::drivers::types::{
    copy_config_into_partition,
    lemma_both_partitions,
    partition_from,
    raw_or_cal_text,
    single_raw_or_cal_parameter_identifiers,
    CalibrationPair,
    ModbusResponse,
    SensorDriver,
    SensorDriverGeneralConfiguration,
    SENSOR_SETTINGS_PARTITION_SIZE,
};
use crate::registry::{driver_name, name_from_type_id};
use crate::util::{sanitized, str_from_utf8, until_nul};
use crate::values::{lookup, ConfigurationValues, FieldValue, FieldView};

verus! {

/// The command that starts a conversion.
pub const CONVERT_TEMP: u8 = 0x44;

/// The command that reads the scratchpad.
pub const READ_SCRATCHPAD: u8 = 0xBE;

/// Bytes of the scratchpad, checksum included.
pub const SCRATCHPAD_SIZE: usize = 9;

/// Number of parameters: the raw and the calibrated temperature.
pub const NUMBER_OF_MEASURED_PARAMETERS: usize = 2;

/// The number of bits to which the sensor converts.
#[derive(Clone, Copy, Debug, PartialEq, Eq, Structural)]
pub enum Resolution {
    Bits9,
    Bits10,
    Bits11,
    Bits12,
}

/// The configuration register that selects a resolution.
pub open spec fn config_register(resolution: Resolution) -> u8 {
    match resolution {
        Resolution::Bits9 => 0x1F,
        Resolution::Bits10 => 0x3F,
        Resolution::Bits11 => 0x5F,
        Resolution::Bits12 => 0x7F,
    }
}

/// The resolution that a configuration register selects, if it selects one.
pub open spec fn resolution_of(config: u8) -> Option<Resolution> {
    if config == 0x1F {
        Some(Resolution::Bits9)
    } else if config == 0x3F {
        Some(Resolution::Bits10)
    } else if config == 0x5F {
        Some(Resolution::Bits11)
    } else if config == 0x7F {
        Some(Resolution::Bits12)
    } else {
        None
    }
}

/// Millionths of a degree that one count of the temperature register stands for
/// at a resolution.
pub open spec fn micros_per_count(resolution: Resolution) -> int {
    match resolution {
        Resolution::Bits9 => 500_000,
        Resolution::Bits10 => 250_000,
        Resolution::Bits11 => 125_000,
        Resolution::Bits12 => 62_500,
    }
}

impl Resolution {
    /// The longest that a conversion takes, in milliseconds.
    pub fn max_measurement_time_millis(&self) -> (millis: u16)
        ensures
            millis == match *self {
                Resolution::Bits9 => 94u16,
                Resolution::Bits10 => 188u16,
                Resolution::Bits11 => 375u16,
                Resolution::Bits12 => 1000u16,
            },
    {
        match self {
            Resolution::Bits9 => 94,
            Resolution::Bits10 => 188,
            Resolution::Bits11 => 375,
            Resolution::Bits12 => 1000,
        }
    }

    /// The resolution that a configuration register selects.
    pub fn from_config_register(config: u8) -> (resolution: Option<Resolution>)
        ensures
            resolution == resolution_of(config),
    {
        if config == 0x1F {
            Some(Resolution::Bits9)
        } else if config == 0x3F {
            Some(Resolution::Bits10)
        } else if config == 0x5F {
            Some(Resolution::Bits11)
        } else if config == 0x7F {
            Some(Resolution::Bits12)
        } else {
            None
        }
    }

    /// The configuration register that selects the resolution.
    pub fn to_config_register(&self) -> (config: u8)
        ensures
            config == config_register(*self),
    {
        match self {
            Resolution::Bits9 => 0x1F,
            Resolution::Bits10 => 0x3F,
            Resolution::Bits11 => 0x5F,
            Resolution::Bits12 => 0x7F,
        }
    }
}

/// A resolution is found again from its configuration register, and a register
/// that selects a resolution is the register of that resolution.
pub proof fn lemma_resolution_round_trip(resolution: Resolution, config: u8)
    ensures
        resolution_of(config_register(resolution)) == Some(resolution),
        resolution_of(config) matches Some(selected) ==> config_register(selected) == config,
{
}

/// What the driver persists: its calibration.
#[derive(Clone, Copy, Debug)]
pub struct Ds18b20SpecialConfiguration {
    pub calibration: LinearCalibration,
}

impl Ds18b20SpecialConfiguration {
    /// What holds of every configuration that a driver works with.
    pub open spec fn valid(&self) -> bool {
        self.calibration.valid()
    }

    /// The persisted form.
    pub open spec fn encoded(&self) -> Seq<u8> {
        self.calibration.encoded()
    }

    /// The configuration that the partition `bytes` holds.
    pub open spec fn decoded(bytes: Seq<u8>) -> Self {
        Ds18b20SpecialConfiguration { calibration: LinearCalibration::decoded(bytes) }
    }

    /// A command configures nothing: the calibration is set by a fit. Every
    /// command gives the configuration whose calibration changes nothing.
    pub fn parse_from_values(values: &ConfigurationValues) -> (r: Result<
        Ds18b20SpecialConfiguration,
        &'static str,
    >)
        ensures
            r matches Ok(config) && config.calibration == LinearCalibration::neutral(),
    {
        Ok(Ds18b20SpecialConfiguration { calibration: LinearCalibration::identity() })
    }

    /// Reads the configuration from its partition.
    pub fn new_from_bytes(bytes: [u8; SENSOR_SETTINGS_PARTITION_SIZE]) -> (config:
        Ds18b20SpecialConfiguration)
        ensures
            config == Self::decoded(bytes@),
            config.valid(),
    {
        Ds18b20SpecialConfiguration { calibration: LinearCalibration::from_bytes(&bytes) }
    }

    /// Writes the configuration as its partition.
    pub fn to_bytes(&self) -> (bytes: [u8; SENSOR_SETTINGS_PARTITION_SIZE])
        ensures
            bytes@ == self.encoded(),
    {
        let mut out: Vec<u8> = Vec::new();
        self.calibration.put(&mut out);
        proof {
            lemma_encoded_len(self.calibration);
            assert(out@ =~= self.encoded());
        }
        partition_from(&out)
    }
}

/// A configuration that a driver works with, read back from its own persisted
/// form, is the same configuration.
pub proof fn lemma_special_round_trip(config: Ds18b20SpecialConfiguration)
    requires
        config.valid(),
    ensures
        config.encoded().len() == 32,
        Ds18b20SpecialConfiguration::decoded(config.encoded()) == config,
{
    lemma_calibration_round_trip(config.calibration);
}

/// The raw temperature that a scratchpad holds, in millionths of a degree: the
/// count in its first two bytes, low byte first, at the resolution that its
/// configuration register selects. A scratchpad whose register selects no
/// resolution holds no temperature.
pub open spec fn scratchpad_micros(scratchpad: Seq<u8>) -> Option<i64> {
    match resolution_of(scratchpad[4]) {
        Some(resolution) => Some(
            ((scratchpad[0] + 256 * scratchpad[1]) * micros_per_count(resolution)) as i64,
        ),
        None => None,
    }
}

/// The raw and the calibrated temperature after a scratchpad was read: both
/// unavailable where the bus failed or the scratchpad holds no temperature.
pub open spec fn recorded(calibration: LinearCalibration, reading: Result<[u8; 9], ()>) -> (
    Option<i64>,
    Option<i64>,
) {
    match reading {
        Ok(scratchpad) => match scratchpad_micros(scratchpad@) {
            Some(raw) => (Some(raw), calibration.applied(raw)),
            None => (None, None),
        },
        Err(_) => (None, None),
    }
}

/// The sensor.
#[derive(Clone, Copy, Debug)]
pub struct Ds18b20 {
    pub general_config: SensorDriverGeneralConfiguration,
    pub special_config: Ds18b20SpecialConfiguration,
    /// The raw and the calibrated temperature of the last measurement, in
    /// millionths of a degree; nothing where it failed.
    pub measured_parameter_values: [Option<i64>; 2],
}

impl Ds18b20 {
    /// A driver that has not measured yet: its values are zero. A
    /// configuration that cannot be applied is replaced by the one that
    /// changes nothing.
    pub fn new(
        general_config: SensorDriverGeneralConfiguration,
        special_config: Ds18b20SpecialConfiguration,
    ) -> (driver: Ds18b20)
        ensures
            driver.general_config == general_config,
            driver.special_config.valid(),
            special_config.valid() ==> driver.special_config == special_config,
            !special_config.valid() ==> driver.special_config.calibration == LinearCalibration::neutral(),
            driver.measured_parameter_values@[0] == Some(0i64),
            driver.measured_parameter_values@[1] == Some(0i64),
    {
        let special_config = if special_config.calibration.raw_low < special_config.calibration.raw_high {
            special_config
        } else {
            Ds18b20SpecialConfiguration { calibration: LinearCalibration::identity() }
        };
        Ds18b20 { general_config, special_config, measured_parameter_values: [Some(0), Some(0)] }
    }

    /// Takes the outcome of reading the scratchpad.
    pub fn record_scratchpad(&mut self, reading: Result<[u8; 9], ()>)
        requires
            old(self).special_config.valid(),
        ensures
            final(self).measured_parameter_values@[0] == recorded(
                old(self).special_config.calibration,
                reading,
            ).0,
            final(self).measured_parameter_values@[1] == recorded(
                old(self).special_config.calibration,
                reading,
            ).1,
            reading is Err ==> final(self).measured_parameter_values@[0] is None && final(self).measured_parameter_values@[1] is None,
            final(self).general_config == old(self).general_config,
            final(self).special_config == old(self).special_config,
    {
        self.measured_parameter_values[0] = None;
        self.measured_parameter_values[1] = None;
        match reading {
            Ok(scratchpad) => {
                match Resolution::from_config_register(scratchpad[4]) {
                    Some(resolution) => {
                        let count: i64 = scratchpad[0] as i64 + 256 * (scratchpad[1] as i64);
                        let raw: i64 = match resolution {
                            Resolution::Bits9 => count * 500_000,
                            Resolution::Bits10 => count * 250_000,
                            Resolution::Bits11 => count * 125_000,
                            Resolution::Bits12 => count * 62_500,
                        };
                        self.measured_parameter_values[0] = Some(raw);
                        self.measured_parameter_values[1] = self.special_config.calibration.apply(
                            raw,
                        );
                    },
                    None => {},
                }
            },
            Err(_) => {},
        }
    }
}

impl SensorDriver for Ds18b20 {
    open spec fn well_formed(&self) -> bool {
        self.special_config.valid()
    }

    open spec fn general(&self) -> SensorDriverGeneralConfiguration {
        self.general_config
    }

    open spec fn special_bytes(&self) -> Seq<u8> {
        self.special_config.encoded()
    }

    open spec fn parameter_count(&self) -> nat {
        2
    }

    open spec fn parameter_value(&self, index: int) -> Option<i64> {
        self.measured_parameter_values@[index]
    }

    open spec fn parameter_name(&self, index: int) -> Seq<u8> {
        raw_or_cal_text(index, Some(0x54u8))
    }

    /// The sensor is on the one-wire bus, which is shared by address.
    open spec fn requested(&self) -> Set<int> {
        Set::<int>::empty()
    }

    fn get_id(&self) -> (id: [u8; 6]) {
        self.general_config.id
    }

    fn get_type_id(&self) -> (type_id: u16) {
        self.general_config.sensor_type_id
    }

    fn setup<B: RRIVBoard>(&mut self, board: &mut B)
        ensures
            *final(self) == *old(self),
    {
    }

    fn get_measured_parameter_count(&self) -> (count: usize) {
        NUMBER_OF_MEASURED_PARAMETERS
    }

    fn get_measured_parameter_value(&self, index: usize) -> (r: Result<i64, ()>) {
        if index < NUMBER_OF_MEASURED_PARAMETERS {
            match self.measured_parameter_values[index] {
                Some(value) => Ok(value),
                None => Err(()),
            }
        } else {
            Err(())
        }
    }

    fn get_measured_parameter_identifier(&self, index: usize) -> (identifier: [u8; 16]) {
        single_raw_or_cal_parameter_identifiers(index, Some(0x54))
    }

    /// Starts a conversion on the one device of the bus, waits the longest that
    /// a conversion takes, reads the scratchpad and records it.
    fn take_measurement<B: RRIVBoard>(&mut self, board: &mut B)
        ensures
            exists|reading: Result<[u8; 9], ()>|
                {
                    &&& final(self).measured_parameter_values@[0] == recorded(
                        old(self).special_config.calibration,
                        reading,
                    ).0
                    &&& final(self).measured_parameter_values@[1] == recorded(
                        old(self).special_config.calibration,
                        reading,
                    ).1
                },
            final(self).special_config == old(self).special_config,
    {
        board.one_wire_reset();
        board.one_wire_skip_address();
        board.one_wire_write_byte(CONVERT_TEMP);
        board.delay_ms(Resolution::Bits12.max_measurement_time_millis());
        board.one_wire_reset();
        board.one_wire_skip_address();
        board.one_wire_write_byte(READ_SCRATCHPAD);
        let mut scratchpad: [u8; 9] = [0; 9];
        let reading: Result<[u8; 9], ()> = match board.one_wire_read_bytes(&mut scratchpad) {
            Ok(_) => Ok(scratchpad),
            Err(_) => Err(()),
        };
        self.record_scratchpad(reading);
    }

    fn update_actuators<B: RRIVBoard>(&mut self, board: &mut B)
        ensures
            *final(self) == *old(self),
    {
    }

    /// Fits the calibration through two pairs, taking the first value of each.
    /// Fails, and changes nothing, unless there are exactly two pairs, each
    /// with a value, whose values differ.
    /// The calibration then shows each of the two values as its reference.
    fn fit(&mut self, pairs: &[CalibrationPair]) -> (r: Result<(), ()>)
        ensures
            r is Ok == (pairs@.len() == 2 && pairs@[0].values@.len() >= 1
                && pairs@[1].values@.len() >= 1 && LinearCalibration::fits(
                pairs@[0].point,
                pairs@[0].values@[0],
                pairs@[1].point,
                pairs@[1].values@[0],
            )),
            r is Ok ==> final(self).special_config.calibration == LinearCalibration::fitted(
                pairs@[0].point,
                pairs@[0].values@[0],
                pairs@[1].point,
                pairs@[1].values@[0],
            ) && final(self).special_config.calibration.through(
                pairs@[0].point,
                pairs@[0].values@[0],
                pairs@[1].point,
                pairs@[1].values@[0],
            ),
            r is Ok ==> final(self).special_config.calibration.applied(pairs@[0].values@[0])
                == Some(pairs@[0].point) && final(self).special_config.calibration.applied(
                pairs@[1].values@[0],
            ) == Some(pairs@[1].point),
            r is Ok ==> final(self).measured_parameter_values == old(self).measured_parameter_values,
    {
        if pairs.len() != 2 {
            return Err(());
        }
        if pairs[0].values.len() < 1 || pairs[1].values.len() < 1 {
            return Err(());
        }
        match LinearCalibration::two_point(
            pairs[0].point,
            pairs[0].values[0],
            pairs[1].point,
            pairs[1].values[0],
        ) {
            Some(calibration) => {
                proof {
                    lemma_two_point_law(
                        calibration,
                        pairs@[0].point,
                        pairs@[0].values@[0],
                        pairs@[1].point,
                        pairs@[1].values@[0],
                    );
                }
                self.special_config.calibration = calibration;
                Ok(())
            },
            None => Err(()),
        }
    }

    fn clear_calibration(&mut self)
        ensures
            final(self).special_config.calibration == LinearCalibration::neutral(),
            final(self).measured_parameter_values == old(self).measured_parameter_values,
    {
        self.special_config.calibration = LinearCalibration::identity();
    }

    fn get_configuration_bytes(&self, storage: &mut [u8; 64]) {
        let general: [u8; 32] = self.general_config.to_bytes();
        let special: [u8; 32] = self.special_config.to_bytes();
        copy_config_into_partition(0, general.as_slice(), storage);
        copy_config_into_partition(1, special.as_slice(), storage);
        proof {
            lemma_both_partitions(old(storage)@, general@, special@);
        }
    }

    /// The report names the slot and the driver.
    fn get_configuration_json(&self) -> (values: ConfigurationValues)
        ensures
            lookup(values.fields@, "type"@) == FieldView::Text(
                driver_name(self.general_config.sensor_type_id),
            ),
            lookup(values.fields@, "id"@) matches FieldView::Text(text) && encode_utf8(text)
                == until_nul(sanitized(self.general_config.id@)),
    {
        let mut values = ConfigurationValues::new();
        let mut id: [u8; 6] = self.general_config.id;
        let id_text: String = match str_from_utf8(&mut id) {
            Ok(text) => text.to_owned(),
            Err(_) => "Invalid".to_owned(),
        };
        proof {
            reveal_strlit("id");
            reveal_strlit("type");
            assert("id"@.len() == 2);
            assert("type"@.len() == 4);
        }
        values.set("id", FieldValue::Text(id_text));
        values.set(
            "type",
            FieldValue::Text(name_from_type_id(self.general_config.sensor_type_id).to_owned()),
        );
        values
    }

    fn get_requested_gpios(&self) -> (request: GpioRequest) {
        GpioRequest::none()
    }

    fn receive_message(&mut self, message: Option<[u8; 50]>)
        ensures
            *final(self) == *old(self),
    {
    }

    fn receive_modbus(&mut self, response: &ModbusResponse)
        ensures
            *final(self) == *old(self),
    {
    }
}

} // verus!
