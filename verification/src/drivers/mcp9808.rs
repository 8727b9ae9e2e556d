//! The MCP9808 digital temperature sensor on the I2C bus.

use vstd::prelude::*;
use vstd::utf8::encode_utf8;
use crate::board::RRIVBoard;
use crate::drivers::codec::{
    get_signed,
    le_bytes,
    le_value,
    lemma_le_bytes_len,
    lemma_le_round_trip,
    lemma_radix_values,
    lemma_signed_round_trip,
    put_signed,
    put_zeros,
    to_signed,
    to_unsigned,
    zeros,
};
use crate::drivers::resources::gpio::GpioRequest;
use crate::drivers::types::{
    agrees,
    copy_config_into_partition,
    lemma_both_partitions,
    partition_from,
    raw_or_cal_text,
    single_raw_or_cal_parameter_identifiers,
    CalibrationPair,
    ModbusResponse,
    SensorDriver,
    SensorDriverGeneralConfiguration,
    SENSOR_SETTINGS_PARTITION_SIZE,
};
use crate::registry::{driver_name, name_from_type_id};
use crate::util::{sanitized, str_from_utf8, until_nul};
use crate::values::{
    lookup,
    micros_number,
    number_from_micros,
    number_from_unsigned,
    unsigned_number,
    ConfigurationValues,
    Field,
    FieldValue,
    FieldView,
};

verus! {

/// The I2C address of a sensor with all address pins low.
pub const BASE_ADDRESS: u8 = 0x18;

/// The register that holds the ambient temperature.
pub const AMBIENT_TEMPERATURE_REGISTER_ADDRESS: u8 = 0x05;

/// Millionths of a degree in one step of the sensor, a sixteenth of a degree.
pub const MICROS_PER_STEP: i64 = 62_500;

/// What the driver persists.
#[derive(Clone, Copy, Debug)]
pub struct MCP9808TemperatureDriverSpecialConfiguration {
    /// What is added to the temperature, in thousandths of a degree.
    pub calibration_offset: i16,
    /// The I2C address of the sensor.
    pub address: u8,
}

/// How the address is read from its field, which gives the setting of the
/// three address pins.
pub open spec fn address_field(value: FieldView) -> Result<u8, Seq<char>> {
    match value {
        FieldView::Number(number) => match number.unsigned {
            Some(n) => if n <= 7 {
                Ok((BASE_ADDRESS + n) as u8)
            } else {
                Err("invalid address"@)
            },
            None => Err("invalid address"@),
        },
        _ => Err("address is required"@),
    }
}

/// The configuration that the fields of a command give. A configuration that is
/// parsed has no calibration yet.
pub open spec fn parsed(fields: Seq<Field>) -> Result<
    MCP9808TemperatureDriverSpecialConfiguration,
    Seq<char>,
> {
    match address_field(lookup(fields, "address"@)) {
        Ok(address) => Ok(
            MCP9808TemperatureDriverSpecialConfiguration { calibration_offset: 0, address },
        ),
        Err(message) => Err(message),
    }
}

impl MCP9808TemperatureDriverSpecialConfiguration {
    /// What the parser can give: an address that the pins can select.
    pub open spec fn valid(&self) -> bool {
        0x18 <= self.address <= 0x1F
    }

    /// The persisted form.
    pub open spec fn encoded(&self) -> Seq<u8> {
        le_bytes(to_unsigned(self.calibration_offset as int, 2), 2) + seq![self.address] + zeros(
            29,
        )
    }

    /// The configuration that the partition `bytes` holds.
    pub open spec fn decoded(bytes: Seq<u8>) -> Self {
        MCP9808TemperatureDriverSpecialConfiguration {
            calibration_offset: to_signed(le_value(bytes.subrange(0, 2)), 2) as i16,
            address: bytes[2],
        }
    }

    /// The fields of a configuration report show this configuration.
    pub open spec fn shown_by(&self, fields: Seq<Field>) -> bool {
        &&& lookup(fields, "address"@) == FieldView::Number(
            unsigned_number(
                if self.address >= BASE_ADDRESS {
                    (self.address - BASE_ADDRESS) as u64
                } else {
                    self.address as u64
                },
            ),
        )
        &&& lookup(fields, "calibration_offset"@) == FieldView::Number(
            micros_number((self.calibration_offset * 1_000_000) as i64),
        )
    }

    /// Reads the configuration from the fields of a command.
    pub fn parse_from_values(values: &ConfigurationValues) -> (r: Result<
        MCP9808TemperatureDriverSpecialConfiguration,
        &'static str,
    >)
        ensures
            agrees(r, parsed(values.fields@)),
            r matches Ok(config) ==> config.valid(),
    {
        let address: u8 = match values.get("address") {
            Some(FieldValue::Number(number)) => match number.unsigned {
                Some(n) => if n <= 7 {
                    BASE_ADDRESS + n as u8
                } else {
                    return Err("invalid address");
                },
                None => { return Err("invalid address"); },
            },
            _ => { return Err("address is required"); },
        };
        Ok(MCP9808TemperatureDriverSpecialConfiguration { calibration_offset: 0, address })
    }

    /// Reads the configuration from its partition.
    pub fn new_from_bytes(bytes: [u8; SENSOR_SETTINGS_PARTITION_SIZE]) -> (config:
        MCP9808TemperatureDriverSpecialConfiguration)
        ensures
            config == Self::decoded(bytes@),
    {
        proof {
            lemma_radix_values();
        }
        MCP9808TemperatureDriverSpecialConfiguration {
            calibration_offset: get_signed(bytes.as_slice(), 0, 2) as i16,
            address: bytes[2],
        }
    }

    /// The configuration of a sensor at the base address.
    pub fn new(calibration_offset: i16) -> (config: MCP9808TemperatureDriverSpecialConfiguration)
        ensures
            config.calibration_offset == calibration_offset,
            config.address == BASE_ADDRESS,
    {
        MCP9808TemperatureDriverSpecialConfiguration { calibration_offset, address: BASE_ADDRESS }
    }

    /// Writes the configuration as its partition.
    pub fn to_bytes(&self) -> (bytes: [u8; SENSOR_SETTINGS_PARTITION_SIZE])
        ensures
            bytes@ == self.encoded(),
    {
        let mut out: Vec<u8> = Vec::new();
        proof {
            lemma_radix_values();
        }
        put_signed(&mut out, self.calibration_offset as i64, 2);
        out.push(self.address);
        put_zeros(&mut out, 29);
        proof {
            lemma_le_bytes_len(to_unsigned(self.calibration_offset as int, 2), 2);
            assert(out@ =~= self.encoded());
        }
        partition_from(&out)
    }
}

/// A configuration read back from its own persisted form is the same
/// configuration.
pub proof fn lemma_special_round_trip(config: MCP9808TemperatureDriverSpecialConfiguration)
    ensures
        config.encoded().len() == 32,
        MCP9808TemperatureDriverSpecialConfiguration::decoded(config.encoded()) == config,
{
    lemma_radix_values();
    lemma_signed_round_trip(config.calibration_offset as int, 2);
    lemma_le_round_trip(to_unsigned(config.calibration_offset as int, 2), 2);
    let bytes = config.encoded();
    assert(bytes.subrange(0, 2) =~= le_bytes(to_unsigned(config.calibration_offset as int, 2), 2));
}

/// The address of a configuration that the parser can give is read again from
/// the report that shows it. The calibration does not come back this way: it is
/// set by a fit.
pub proof fn lemma_report_round_trip(
    config: MCP9808TemperatureDriverSpecialConfiguration,
    fields: Seq<Field>,
)
    requires
        config.valid(),
        config.shown_by(fields),
    ensures
        parsed(fields) == Ok::<MCP9808TemperatureDriverSpecialConfiguration, Seq<char>>(
            MCP9808TemperatureDriverSpecialConfiguration { calibration_offset: 0, ..config },
        ),
{
}

/// The temperature that the two bytes of the temperature register stand for, in
/// millionths of a degree. The three flag bits are dropped; the low twelve bits
/// count sixteenths of a degree; with the sign bit set the count is taken from
/// 256 degrees.
pub open spec fn temperature_micros(upper: u8, lower: u8) -> int {
    let steps = (upper % 16) * 256 + lower;
    if upper % 32 >= 16 {
        256_000_000 - steps * 62_500
    } else {
        steps * 62_500
    }
}

/// A count of millionths as a count of thousandths, rounded towards zero and
/// held to what sixteen bits can take.
pub open spec fn offset_thousandths(micros: i64) -> i16 {
    let thousandths = if micros >= 0 {
        micros / 1000
    } else {
        -((-micros) / 1000)
    };
    if thousandths > i16::MAX {
        i16::MAX
    } else if thousandths < i16::MIN {
        i16::MIN
    } else {
        thousandths as i16
    }
}

/// The sum of a value and an offset where it fits, else nothing.
pub open spec fn shifted(value: int, offset: int) -> Option<i64> {
    if i64::MIN <= value + offset <= i64::MAX {
        Some((value + offset) as i64)
    } else {
        None
    }
}

/// The sensor.
#[derive(Clone, Copy, Debug)]
pub struct MCP9808TemperatureDriver {
    pub general_config: SensorDriverGeneralConfiguration,
    pub special_config: MCP9808TemperatureDriverSpecialConfiguration,
    /// The raw and the calibrated temperature of the last measurement, in
    /// millionths of a degree; nothing where it failed.
    pub measured_parameter_values: [Option<i64>; 2],
    /// The I2C address that the driver talks to.
    pub address: u8,
    /// What is added to the raw temperature, in millionths of a degree.
    pub calibration_offset: i64,
}

/// The driver after a measurement: with both values where the bus gave the
/// register, with none where it failed.
pub open spec fn recorded(driver: MCP9808TemperatureDriver, reading: Result<[u8; 2], ()>) -> (
    Option<i64>,
    Option<i64>,
) {
    match reading {
        Ok(bytes) => (
            Some(temperature_micros(bytes@[0], bytes@[1]) as i64),
            shifted(temperature_micros(bytes@[0], bytes@[1]), driver.calibration_offset as int),
        ),
        Err(_) => (None, None),
    }
}

/// Whether `values` are the raw and the calibrated temperature that one
/// measurement leaves with `driver`: both unavailable where the bus failed,
/// else the temperature that the register held, and that with the offset of
/// the driver.
pub open spec fn measured_pair(
    driver: MCP9808TemperatureDriver,
    values: (Option<i64>, Option<i64>),
) -> bool {
    exists|reading: Result<[u8; 2], ()>| values == #[trigger] recorded(driver, reading)
}

/// What a measurement leaves depends on the driver through its offset alone.
pub proof fn lemma_measured_pair_by_offset(
    first: MCP9808TemperatureDriver,
    second: MCP9808TemperatureDriver,
    values: (Option<i64>, Option<i64>),
)
    requires
        first.calibration_offset == second.calibration_offset,
        measured_pair(first, values),
    ensures
        measured_pair(second, values),
{
    let reading = choose|reading: Result<[u8; 2], ()>| values == #[trigger] recorded(first, reading);
    assert(values == recorded(second, reading));
}

impl MCP9808TemperatureDriver {
    /// A driver for the sensor at the configured address that has not measured
    /// yet: its values are zero.
    pub fn new(
        general_config: SensorDriverGeneralConfiguration,
        special_config: MCP9808TemperatureDriverSpecialConfiguration,
    ) -> (driver: Self)
        ensures
            driver.general_config == general_config,
            driver.special_config == special_config,
            driver.address == special_config.address,
            driver.calibration_offset == 0,
            driver.measured_parameter_values@[0] == Some(0i64),
            driver.measured_parameter_values@[1] == Some(0i64),
    {
        MCP9808TemperatureDriver {
            general_config,
            special_config,
            measured_parameter_values: [Some(0), Some(0)],
            address: special_config.address,
            calibration_offset: 0,
        }
    }

    /// A driver for the sensor at `address`, whatever the configuration says.
    pub fn new_with_address(
        general_config: SensorDriverGeneralConfiguration,
        special_config: MCP9808TemperatureDriverSpecialConfiguration,
        address: u8,
    ) -> (driver: Self)
        ensures
            driver.general_config == general_config,
            driver.special_config == special_config,
            driver.address == address,
            driver.calibration_offset == 0,
            driver.measured_parameter_values@[0] == Some(0i64),
            driver.measured_parameter_values@[1] == Some(0i64),
    {
        MCP9808TemperatureDriver {
            general_config,
            special_config,
            measured_parameter_values: [Some(0), Some(0)],
            address,
            calibration_offset: 0,
        }
    }

    /// The calibration that is persisted.
    pub fn get_calibration_offset(&self) -> (offset: &i16)
        ensures
            *offset == self.special_config.calibration_offset,
    {
        &self.special_config.calibration_offset
    }

    /// Takes the outcome of reading the temperature register. A failed read
    /// leaves both values unavailable.
    pub fn record_reading(&mut self, reading: Result<[u8; 2], ()>)
        ensures
            final(self).measured_parameter_values@[0] == recorded(*old(self), reading).0,
            final(self).measured_parameter_values@[1] == recorded(*old(self), reading).1,
            reading is Err ==> final(self).measured_parameter_values@[0] is None && final(self).measured_parameter_values@[1] is None,
            final(self).general_config == old(self).general_config,
            final(self).special_config == old(self).special_config,
            final(self).address == old(self).address,
            final(self).calibration_offset == old(self).calibration_offset,
    {
        match reading {
            Ok(bytes) => {
                let upper: u8 = bytes[0];
                let lower: u8 = bytes[1];
                let steps: i64 = (upper % 16) as i64 * 256 + lower as i64;
                let raw: i64 = if upper % 32 >= 16 {
                    256_000_000 - steps * MICROS_PER_STEP
                } else {
                    steps * MICROS_PER_STEP
                };
                self.measured_parameter_values[0] = Some(raw);
                self.measured_parameter_values[1] = raw.checked_add(self.calibration_offset);
            },
            Err(_) => {
                self.measured_parameter_values[0] = None;
                self.measured_parameter_values[1] = None;
            },
        }
    }

    /// Sets the calibration so that `value` is shown as `point`. Fails, and
    /// changes nothing, where the difference cannot be held.
    pub fn fit_offset(&mut self, point: i64, value: i64) -> (r: Result<(), ()>)
        ensures
            r is Ok == (i64::MIN <= point - value <= i64::MAX),
            r is Ok ==> *final(self) == (MCP9808TemperatureDriver {
                calibration_offset: (point - value) as i64,
                special_config: MCP9808TemperatureDriverSpecialConfiguration {
                    calibration_offset: offset_thousandths((point - value) as i64),
                    ..old(self).special_config
                },
                ..*old(self)
            }),
            r is Err ==> *final(self) == *old(self),
    {
        match point.checked_sub(value) {
            Some(offset) => {
                let thousandths: i64 = offset / 1000;
                self.calibration_offset = offset;
                self.special_config.calibration_offset = if thousandths > i16::MAX as i64 {
                    i16::MAX
                } else if thousandths < i16::MIN as i64 {
                    i16::MIN
                } else {
                    thousandths as i16
                };
                Ok(())
            },
            None => Err(()),
        }
    }
}

impl SensorDriver for MCP9808TemperatureDriver {
    open spec fn well_formed(&self) -> bool {
        true
    }

    open spec fn general(&self) -> SensorDriverGeneralConfiguration {
        self.general_config
    }

    open spec fn special_bytes(&self) -> Seq<u8> {
        self.special_config.encoded()
    }

    open spec fn parameter_count(&self) -> nat {
        2
    }

    open spec fn parameter_value(&self, index: int) -> Option<i64> {
        self.measured_parameter_values@[index]
    }

    open spec fn parameter_name(&self, index: int) -> Seq<u8> {
        raw_or_cal_text(index, Some(0x54u8))
    }

    /// The sensor is on the I2C bus, which is shared by address.
    open spec fn requested(&self) -> Set<int> {
        Set::<int>::empty()
    }

    fn get_id(&self) -> (id: [u8; 6]) {
        self.general_config.id
    }

    fn get_type_id(&self) -> (type_id: u16) {
        self.general_config.sensor_type_id
    }

    /// Takes the calibration from the configuration.
    fn setup<B: RRIVBoard>(&mut self, board: &mut B)
        ensures
            *final(self) == (MCP9808TemperatureDriver {
                calibration_offset: (old(self).special_config.calibration_offset * 1000) as i64,
                ..*old(self)
            }),
    {
        self.calibration_offset = self.special_config.calibration_offset as i64 * 1000;
    }

    fn get_measured_parameter_count(&self) -> (count: usize) {
        2
    }

    fn get_measured_parameter_value(&self, index: usize) -> (r: Result<i64, ()>) {
        if index < 2 {
            match self.measured_parameter_values[index] {
                Some(value) => Ok(value),
                None => Err(()),
            }
        } else {
            Err(())
        }
    }

    fn get_measured_parameter_identifier(&self, index: usize) -> (identifier: [u8; 16]) {
        single_raw_or_cal_parameter_identifiers(index, Some(0x54))
    }

    /// Selects the temperature register, reads its two bytes and records them.
    /// Where the bus fails, both values are unavailable.
    fn take_measurement<B: RRIVBoard>(&mut self, board: &mut B)
        ensures
            measured_pair(
                *old(self),
                (final(self).measured_parameter_values@[0], final(self).measured_parameter_values@[1]),
            ),
            exists|reading: Result<[u8; 2], ()>|
                {
                    &&& final(self).measured_parameter_values@[0] == recorded(
                        *old(self),
                        reading,
                    ).0
                    &&& final(self).measured_parameter_values@[1] == recorded(
                        *old(self),
                        reading,
                    ).1
                },
            final(self).special_config == old(self).special_config,
            final(self).address == old(self).address,
            final(self).calibration_offset == old(self).calibration_offset,
    {
        let message: [u8; 1] = [AMBIENT_TEMPERATURE_REGISTER_ADDRESS];
        let mut buffer: [u8; 2] = [0; 2];
        let reading: Result<[u8; 2], ()> = match board.ic2_write(self.address, message.as_slice()) {
            Ok(_) => match board.ic2_read(self.address, &mut buffer) {
                Ok(_) => Ok(buffer),
                Err(_) => Err(()),
            },
            Err(_) => Err(()),
        };
        self.record_reading(reading);
        proof {
            assert((self.measured_parameter_values@[0], self.measured_parameter_values@[1])
                == recorded(*old(self), reading));
        }
    }

    fn update_actuators<B: RRIVBoard>(&mut self, board: &mut B)
        ensures
            *final(self) == *old(self),
    {
    }

    /// Fits the offset to one pair: the difference between the reference and
    /// the first value shown. Fails unless there is exactly one pair, with a
    /// value, whose difference can be held.
    fn fit(&mut self, pairs: &[CalibrationPair]) -> (r: Result<(), ()>)
        ensures
            r is Ok == (pairs@.len() == 1 && pairs@[0].values@.len() >= 1 && i64::MIN
                <= pairs@[0].point - pairs@[0].values@[0] <= i64::MAX),
            r is Ok ==> final(self).calibration_offset == pairs@[0].point
                - pairs@[0].values@[0],
            r is Ok ==> final(self).special_config.calibration_offset == offset_thousandths(
                (pairs@[0].point - pairs@[0].values@[0]) as i64,
            ),
            r is Ok ==> final(self).special_config.address == old(self).special_config.address,
            r is Ok ==> final(self).measured_parameter_values == old(self).measured_parameter_values,
    {
        if pairs.len() != 1 {
            return Err(());
        }
        if pairs[0].values.len() < 1 {
            return Err(());
        }
        self.fit_offset(pairs[0].point, pairs[0].values[0])
    }

    fn clear_calibration(&mut self)
        ensures
            *final(self) == (MCP9808TemperatureDriver {
                calibration_offset: 0,
                special_config: MCP9808TemperatureDriverSpecialConfiguration {
                    calibration_offset: 0,
                    ..old(self).special_config
                },
                ..*old(self)
            }),
    {
        self.calibration_offset = 0;
        self.special_config.calibration_offset = 0;
    }

    fn get_configuration_bytes(&self, storage: &mut [u8; 64]) {
        let general: [u8; 32] = self.general_config.to_bytes();
        let special: [u8; 32] = self.special_config.to_bytes();
        copy_config_into_partition(0, general.as_slice(), storage);
        copy_config_into_partition(1, special.as_slice(), storage);
        proof {
            lemma_both_partitions(old(storage)@, general@, special@);
        }
    }

    /// The report names the slot and the driver and shows the address pins and
    /// the calibration.
    fn get_configuration_json(&self) -> (values: ConfigurationValues)
        ensures
            self.special_config.shown_by(values.fields@),
            lookup(values.fields@, "type"@) == FieldView::Text(
                driver_name(self.general_config.sensor_type_id),
            ),
            lookup(values.fields@, "id"@) matches FieldView::Text(text) && encode_utf8(text)
                == until_nul(sanitized(self.general_config.id@)),
    {
        let mut values = ConfigurationValues::new();
        let mut id: [u8; 6] = self.general_config.id;
        let id_text: String = match str_from_utf8(&mut id) {
            Ok(text) => text.to_owned(),
            Err(_) => "Invalid".to_owned(),
        };
        let pins: u8 = if self.special_config.address >= BASE_ADDRESS {
            self.special_config.address - BASE_ADDRESS
        } else {
            self.special_config.address
        };
        proof {
            reveal_strlit("id");
            reveal_strlit("type");
            reveal_strlit("address");
            reveal_strlit("calibration_offset");
            assert("id"@.len() == 2);
            assert("type"@.len() == 4);
            assert("address"@.len() == 7);
            assert("calibration_offset"@.len() == 18);
        }
        values.set("id", FieldValue::Text(id_text));
        values.set(
            "type",
            FieldValue::Text(name_from_type_id(self.general_config.sensor_type_id).to_owned()),
        );
        values.set("address", FieldValue::Number(number_from_unsigned(pins as u64)));
        values.set(
            "calibration_offset",
            FieldValue::Number(
                number_from_micros(self.special_config.calibration_offset as i64 * 1_000_000),
            ),
        );
        values
    }

    fn get_requested_gpios(&self) -> (request: GpioRequest) {
        GpioRequest::none()
    }

    fn receive_message(&mut self, message: Option<[u8; 50]>)
        ensures
            *final(self) == *old(self),
    {
    }

    fn receive_modbus(&mut self, response: &ModbusResponse)
        ensures
            *final(self) == *old(self),
    {
    }
}

} // verus!
