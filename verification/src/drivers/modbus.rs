//! A device on the Modbus line that reports through its input registers. The
//! number of parameters is what the last answer held.

use vstd::prelude::*;
use vstd::string::StringSliceAdditionalSpecFns;
use vstd::utf8::encode_utf8;
use crate::board::RRIVBoard;
use crate::drivers::codec::{lemma_radix_values, put_bytes, put_zeros, to_signed, zeros};
use crate::drivers::resources::gpio::GpioRequest;
use crate::drivers::types::{
    copy_config_into_partition,
    identifier_from,
    lemma_both_partitions,
    partition_from,
    CalibrationPair,
    ModbusResponse,
    SensorDriver,
    SensorDriverGeneralConfiguration,
    SENSOR_SETTINGS_PARTITION_SIZE,
};
use crate::registry::{driver_name, name_from_type_id};
use crate::util::{sanitized, str_from_utf8, until_nul};
use crate::values::{lookup, ConfigurationValues, FieldValue, FieldView};

verus! {

/// Number of register values that the driver keeps.
pub const MODBUS_VALUE_CAPACITY: usize = 12;

/// What the driver knows of its device. Nothing of it is persisted: the number
/// of parameters is found out from the answers of the device.
#[derive(Clone, Copy, Debug)]
pub struct ModbusDriverSpecialConfiguration {
    /// Number of registers that the last answer held, at most twelve.
    pub measured_parameter_count: usize,
}

impl ModbusDriverSpecialConfiguration {
    /// The persisted form: an empty partition.
    pub open spec fn encoded(&self) -> Seq<u8> {
        zeros(32)
    }

    /// The configuration of a device that has not answered yet.
    pub fn new() -> (config: Self)
        ensures
            config.measured_parameter_count == 0,
    {
        ModbusDriverSpecialConfiguration { measured_parameter_count: 0 }
    }

    /// A command configures nothing.
    pub fn parse_from_values(value: &ConfigurationValues) -> (r: Result<
        ModbusDriverSpecialConfiguration,
        &'static str,
    >)
        ensures
            r matches Ok(config) && config.measured_parameter_count == 0,
    {
        Ok(ModbusDriverSpecialConfiguration::new())
    }

    /// Reads the configuration from its partition, which holds nothing.
    pub fn new_from_bytes(_bytes: [u8; SENSOR_SETTINGS_PARTITION_SIZE]) -> (config:
        ModbusDriverSpecialConfiguration)
        ensures
            config.measured_parameter_count == 0,
    {
        ModbusDriverSpecialConfiguration::new()
    }

    /// Writes the configuration as its partition.
    pub fn to_bytes(&self) -> (bytes: [u8; SENSOR_SETTINGS_PARTITION_SIZE])
        ensures
            bytes@ == self.encoded(),
    {
        let mut out: Vec<u8> = Vec::new();
        put_zeros(&mut out, 32);
        proof {
            assert(out@ =~= self.encoded());
        }
        partition_from(&out)
    }
}

/// A register as the signed number of sixteen bits with the same bits.
pub open spec fn register_value(register: u16) -> i16 {
    to_signed(register as int, 2) as i16
}

/// The ASCII digits of an index below a hundred.
pub open spec fn index_digits(index: int) -> Seq<u8> {
    if index < 10 {
        seq![(0x30 + index) as u8]
    } else {
        seq![(0x30 + index / 10) as u8, (0x30 + index % 10) as u8]
    }
}

/// The driver.
#[derive(Clone, Copy, Debug)]
pub struct ModbusDriver {
    pub general_config: SensorDriverGeneralConfiguration,
    pub special_config: ModbusDriverSpecialConfiguration,
    /// The registers of the last answer, each counting tenths.
    pub measured_parameter_values: [i16; 12],
}

impl ModbusDriver {
    /// A driver without parameters. A count beyond what the driver keeps is
    /// held to that.
    pub fn new(
        general_config: SensorDriverGeneralConfiguration,
        special_config: ModbusDriverSpecialConfiguration,
    ) -> (driver: Self)
        ensures
            driver.general_config == general_config,
            driver.special_config.measured_parameter_count == if special_config.measured_parameter_count
                <= 12 {
                special_config.measured_parameter_count
            } else {
                12
            },
            forall|i: int| 0 <= i < 12 ==> #[trigger] driver.measured_parameter_values@[i] == 0,
    {
        let count: usize = if special_config.measured_parameter_count <= MODBUS_VALUE_CAPACITY {
            special_config.measured_parameter_count
        } else {
            MODBUS_VALUE_CAPACITY
        };
        ModbusDriver {
            general_config,
            special_config: ModbusDriverSpecialConfiguration { measured_parameter_count: count },
            measured_parameter_values: [0, 0, 0, 0, 0, 0, 0, 0, 0, 0, 0, 0],
        }
    }
}

impl SensorDriver for ModbusDriver {
    open spec fn well_formed(&self) -> bool {
        self.special_config.measured_parameter_count <= 12
    }

    open spec fn general(&self) -> SensorDriverGeneralConfiguration {
        self.general_config
    }

    open spec fn special_bytes(&self) -> Seq<u8> {
        self.special_config.encoded()
    }

    open spec fn parameter_count(&self) -> nat {
        self.special_config.measured_parameter_count as nat
    }

    /// Each parameter is a register of the last answer, which counts tenths.
    open spec fn parameter_value(&self, index: int) -> Option<i64> {
        Some((self.measured_parameter_values@[index] * 100_000) as i64)
    }

    open spec fn parameter_name(&self, index: int) -> Seq<u8> {
        if index < self.special_config.measured_parameter_count {
            "value_".spec_bytes() + index_digits(index)
        } else {
            "invalid".spec_bytes()
        }
    }

    /// The line is held by the telemeter that frames the answers.
    open spec fn requested(&self) -> Set<int> {
        Set::<int>::empty()
    }

    fn get_id(&self) -> (id: [u8; 6]) {
        self.general_config.id
    }

    fn get_type_id(&self) -> (type_id: u16) {
        self.general_config.sensor_type_id
    }

    fn setup<B: RRIVBoard>(&mut self, board: &mut B)
        ensures
            *final(self) == *old(self),
    {
    }

    fn get_measured_parameter_count(&self) -> (count: usize) {
        self.special_config.measured_parameter_count
    }

    fn get_measured_parameter_value(&self, index: usize) -> (r: Result<i64, ()>) {
        if index < self.special_config.measured_parameter_count {
            Ok(self.measured_parameter_values[index] as i64 * 100_000)
        } else {
            Err(())
        }
    }

    fn get_measured_parameter_identifier(&self, index: usize) -> (identifier: [u8; 16]) {
        if index < self.special_config.measured_parameter_count {
            let mut text: Vec<u8> = Vec::new();
            put_bytes(&mut text, "value_".as_bytes());
            if index >= 10 {
                text.push(0x30 + (index / 10) as u8);
            }
            text.push(0x30 + (index % 10) as u8);
            proof {
                assert(text@ =~= "value_".spec_bytes() + index_digits(index as int));
            }
            identifier_from(text.as_slice())
        } else {
            identifier_from("invalid".as_bytes())
        }
    }

    fn take_measurement<B: RRIVBoard>(&mut self, board: &mut B)
        ensures
            *final(self) == *old(self),
    {
    }

    fn update_actuators<B: RRIVBoard>(&mut self, board: &mut B)
        ensures
            *final(self) == *old(self),
    {
    }

    /// The driver has no calibration: every fit is refused.
    fn fit(&mut self, pairs: &[CalibrationPair]) -> (r: Result<(), ()>)
        ensures
            r is Err,
    {
        Err(())
    }

    fn clear_calibration(&mut self)
        ensures
            *final(self) == *old(self),
    {
    }

    fn get_configuration_bytes(&self, storage: &mut [u8; 64]) {
        let general: [u8; 32] = self.general_config.to_bytes();
        let special: [u8; 32] = self.special_config.to_bytes();
        copy_config_into_partition(0, general.as_slice(), storage);
        copy_config_into_partition(1, special.as_slice(), storage);
        proof {
            lemma_both_partitions(old(storage)@, general@, special@);
        }
    }

    /// The report names the slot and the driver.
    fn get_configuration_json(&self) -> (values: ConfigurationValues)
        ensures
            lookup(values.fields@, "type"@) == FieldView::Text(
                driver_name(self.general_config.sensor_type_id),
            ),
            lookup(values.fields@, "id"@) matches FieldView::Text(text) && encode_utf8(text)
                == until_nul(sanitized(self.general_config.id@)),
    {
        let mut values = ConfigurationValues::new();
        let mut id: [u8; 6] = self.general_config.id;
        let id_text: String = match str_from_utf8(&mut id) {
            Ok(text) => text.to_owned(),
            Err(_) => "Invalid".to_owned(),
        };
        proof {
            reveal_strlit("id");
            reveal_strlit("type");
            assert("id"@.len() == 2);
            assert("type"@.len() == 4);
        }
        values.set("id", FieldValue::Text(id_text));
        values.set(
            "type",
            FieldValue::Text(name_from_type_id(self.general_config.sensor_type_id).to_owned()),
        );
        values
    }

    fn get_requested_gpios(&self) -> (request: GpioRequest) {
        GpioRequest::none()
    }

    fn receive_message(&mut self, message: Option<[u8; 50]>)
        ensures
            *final(self) == *old(self),
    {
    }

    /// Takes the input registers of an answer: the first twelve are kept, and
    /// their number is the number of parameters from now on. Any other answer
    /// changes nothing.
    fn receive_modbus(&mut self, response: &ModbusResponse)
        ensures
            match *response {
                ModbusResponse::ReadInputRegisters(registers) => {
                    &&& final(self).special_config.measured_parameter_count == if registers@.len()
                        <= 12 {
                        registers@.len()
                    } else {
                        12
                    }
                    &&& forall|i: int|
                        0 <= i < 12 ==> #[trigger] final(self).measured_parameter_values@[i] == if i
                            < registers@.len() {
                            register_value(registers@[i])
                        } else {
                            old(self).measured_parameter_values@[i]
                        }
                },
                _ => *final(self) == *old(self),
            },
    {
        match response {
            ModbusResponse::ReadInputRegisters(registers) => {
                let count: usize = if registers.len() <= MODBUS_VALUE_CAPACITY {
                    registers.len()
                } else {
                    MODBUS_VALUE_CAPACITY
                };
                self.special_config.measured_parameter_count = count;
                let mut i: usize = 0;
                while i < count
                    invariant
                        i <= count <= 12,
                        count <= registers@.len(),
                        self.general_config == old(self).general_config,
                        self.special_config.measured_parameter_count == count,
                        forall|j: int|
                            0 <= j < i ==> #[trigger] self.measured_parameter_values@[j]
                                == register_value(registers@[j]),
                        forall|j: int|
                            i <= j < 12 ==> #[trigger] self.measured_parameter_values@[j] == old(self).measured_parameter_values@[j],
                    decreases count - i,
                {
                    proof {
                        lemma_radix_values();
                    }
                    let register: u16 = registers[i];
                    self.measured_parameter_values[i] = if register < 0x8000 {
                        register as i16
                    } else {
                        (register as i32 - 0x1_0000) as i16
                    };
                    i += 1;
                }
            },
            _ => {},
        }
    }
}

} // verus!
