//! The Atlas Scientific conductivity circuit on the I2C bus.

use vstd::prelude::*;
use vstd::string::StringSliceAdditionalSpecFns;
use vstd::utf8::encode_utf8;
use crate::board::RRIVBoard;
use crate::drivers::codec::{put_zeros, zeros};
use crate::drivers::resources::gpio::GpioRequest;
use crate::drivers::types::{
    copy_config_into_partition,
    identifier_from,
    lemma_both_partitions,
    partition_from,
    CalibrationPair,
    ModbusResponse,
    SensorDriver,
    SensorDriverGeneralConfiguration,
    SENSOR_SETTINGS_PARTITION_SIZE,
};
use crate::registry::{driver_name, name_from_type_id};
use crate::util::{sanitized, str_from_utf8, until_nul};
use crate::values::{lookup, ConfigurationValues, FieldValue, FieldView};

verus! {

/// The register that holds the type of the device.
pub const DEVICE_TYPE: u8 = 0x00;

/// The register that holds the version of its firmware.
pub const FIRMWARE_VERSION: u8 = 0x01;

/// The register that locks the address.
pub const ADDR_LOCK: u8 = 0x02;

/// The register that takes a new address.
pub const NEW_ADDR_REGISTER: u8 = 0x03;

/// The register that controls the interrupt pin.
pub const INT_CTRL: u8 = 0x04;

/// The register that controls the light.
pub const LED_CTRL: u8 = 0x05;

/// The register that wakes the device or puts it to sleep.
pub const SLEEP_CTRL: u8 = 0x06;

/// The register that says whether a new reading is there.
pub const DATA_AVAILABLE: u8 = 0x07;

/// The first of the four registers that hold the reading, most significant
/// byte first.
pub const READING_REGISTER: u8 = 0x18;

/// The light blinks with each measurement.
pub const LED_BLINK_ON_MEASUREMENT: u8 = 1;

/// The light stays off.
pub const LED_OFF: u8 = 0;

/// The I2C address of the circuit.
pub const ATLAS_EC_DEFAULT_ADDRESS: u8 = 0x64;

/// What the driver persists: nothing.
#[derive(Clone, Copy, Debug)]
pub struct AtlasECSpecialConfiguration {}

impl AtlasECSpecialConfiguration {
    /// The persisted form: an empty partition.
    pub open spec fn encoded(&self) -> Seq<u8> {
        zeros(32)
    }

    /// Reads the configuration from its partition.
    pub fn new_from_bytes(bytes: [u8; SENSOR_SETTINGS_PARTITION_SIZE]) -> (config:
        AtlasECSpecialConfiguration)
        ensures
            config == (AtlasECSpecialConfiguration {  }),
    {
        AtlasECSpecialConfiguration {  }
    }

    /// A command configures nothing.
    pub fn parse_from_values(_value: &ConfigurationValues) -> (r: Result<
        AtlasECSpecialConfiguration,
        &'static str,
    >)
        ensures
            r is Ok,
    {
        Ok(AtlasECSpecialConfiguration {  })
    }

    /// Writes the configuration as its partition.
    pub fn to_bytes(&self) -> (bytes: [u8; SENSOR_SETTINGS_PARTITION_SIZE])
        ensures
            bytes@ == self.encoded(),
    {
        let mut out: Vec<u8> = Vec::new();
        put_zeros(&mut out, 32);
        proof {
            assert(out@ =~= self.encoded());
        }
        partition_from(&out)
    }
}

/// The conductivity that the four bytes of a reading stand for, in millionths
/// of a microsiemens per centimetre: the bytes are a number of 32 bits, most
/// significant byte first, that counts thousandths.
pub open spec fn conductivity_micros(bytes: Seq<u8>) -> int {
    (bytes[0] * 0x100_0000 + bytes[1] * 0x1_0000 + bytes[2] * 0x100 + bytes[3]) * 1000
}

/// The conductivity after a measurement: unavailable where no new reading was
/// there or the bus failed.
pub open spec fn recorded(reading: Option<[u8; 4]>) -> Option<i64> {
    match reading {
        Some(bytes) => Some(conductivity_micros(bytes@) as i64),
        None => None,
    }
}

/// Whether `reading` is what four reads of single registers give: the four
/// bytes where every read succeeded, and nothing where one of them failed.
pub open spec fn registers_given(reads: Seq<Result<u8, ()>>, reading: Option<[u8; 4]>) -> bool {
    match reading {
        Some(bytes) => forall|i: int| 0 <= i < 4 ==> #[trigger] reads[i] == Ok::<u8, ()>(bytes@[i]),
        None => exists|i: int| 0 <= i < 4 && (#[trigger] reads[i]) is Err,
    }
}

/// The reading that four reads of single registers give.
pub fn registers_read(reads: &[Result<u8, ()>; 4]) -> (reading: Option<[u8; 4]>)
    ensures
        registers_given(reads@, reading),
{
    let mut bytes: [u8; 4] = [0, 0, 0, 0];
    let mut i: usize = 0;
    while i < 4
        invariant
            i <= 4,
            forall|j: int| 0 <= j < i ==> #[trigger] reads@[j] == Ok::<u8, ()>(bytes@[j]),
        decreases 4 - i,
    {
        match reads[i] {
            Ok(byte) => {
                bytes[i] = byte;
            },
            Err(_) => {
                assert(reads@[i as int] is Err);
                return None;
            },
        }
        i += 1;
    }
    Some(bytes)
}

/// The reading of a measurement: the registers that were read, where the
/// circuit said that a new reading is there, and nothing where it said
/// anything else or did not answer.
pub open spec fn reading_given(available: Result<u8, ()>, registers: Option<[u8; 4]>) -> Option<
    [u8; 4],
> {
    match available {
        Ok(flag) => if flag == 1 {
            registers
        } else {
            None
        },
        Err(_) => None,
    }
}

/// Whether the circuit said that a new reading is there.
pub fn reading_is_there(available: Result<u8, ()>) -> (there: bool)
    ensures
        there == (available == Ok::<u8, ()>(1)),
{
    match available {
        Ok(flag) => flag == 1,
        Err(_) => false,
    }
}

/// The reading of a measurement from its two steps: what the circuit said of a
/// new reading, and the registers that were read then.
pub fn reading_of(available: Result<u8, ()>, registers: Option<[u8; 4]>) -> (reading: Option<
    [u8; 4],
>)
    ensures
        reading == reading_given(available, registers),
{
    if reading_is_there(available) {
        registers
    } else {
        None
    }
}

/// The circuit.
#[derive(Clone, Copy, Debug)]
pub struct AtlasEC {
    pub general_config: SensorDriverGeneralConfiguration,
    pub special_config: AtlasECSpecialConfiguration,
    /// The conductivity of the last measurement in the first place; nothing
    /// where it failed. The second place is not used.
    pub measured_parameter_values: [Option<i64>; 2],
}

impl AtlasEC {
    /// A driver that has not measured yet: its values are zero.
    pub fn new(
        general_config: SensorDriverGeneralConfiguration,
        special_config: AtlasECSpecialConfiguration,
    ) -> (driver: Self)
        ensures
            driver.general_config == general_config,
            driver.special_config == special_config,
            driver.measured_parameter_values@[0] == Some(0i64),
            driver.measured_parameter_values@[1] == Some(0i64),
    {
        AtlasEC { general_config, special_config, measured_parameter_values: [Some(0), Some(0)] }
    }

    /// Takes the outcome of a measurement.
    pub fn record_reading(&mut self, reading: Option<[u8; 4]>)
        ensures
            final(self).measured_parameter_values@[0] == recorded(reading),
            reading is None ==> final(self).measured_parameter_values@[0] is None,
            final(self).measured_parameter_values@[1] == old(self).measured_parameter_values@[1],
            final(self).general_config == old(self).general_config,
            final(self).special_config == old(self).special_config,
    {
        match reading {
            Some(bytes) => {
                let value: i64 = bytes[0] as i64 * 0x100_0000 + bytes[1] as i64 * 0x1_0000
                    + bytes[2] as i64 * 0x100 + bytes[3] as i64;
                self.measured_parameter_values[0] = Some(value * 1000);
            },
            None => {
                self.measured_parameter_values[0] = None;
            },
        }
    }

    /// Reads the four registers of the reading, one by one, and stops at the
    /// first that cannot be read.
    fn read_registers<B: RRIVBoard>(board: &mut B) -> (reading: Option<[u8; 4]>) {
        let mut reads: [Result<u8, ()>; 4] = [Err(()), Err(()), Err(()), Err(())];
        let mut i: u8 = 0;
        let mut failed: bool = false;
        while i < 4 && !failed
            invariant
                i <= 4,
            decreases 4 - i + if failed { 0int } else { 1int },
        {
            let mut buffer: [u8; 1] = [0; 1];
            let message: [u8; 1] = [READING_REGISTER + i];
            match board.ic2_write_read(ATLAS_EC_DEFAULT_ADDRESS, message.as_slice(), &mut buffer) {
                Ok(_) => {
                    reads[i as usize] = Ok(buffer[0]);
                    i += 1;
                },
                Err(_) => {
                    failed = true;
                },
            }
        }
        registers_read(&reads)
    }
}

impl SensorDriver for AtlasEC {
    open spec fn well_formed(&self) -> bool {
        true
    }

    open spec fn general(&self) -> SensorDriverGeneralConfiguration {
        self.general_config
    }

    open spec fn special_bytes(&self) -> Seq<u8> {
        self.special_config.encoded()
    }

    open spec fn parameter_count(&self) -> nat {
        1
    }

    open spec fn parameter_value(&self, index: int) -> Option<i64> {
        self.measured_parameter_values@[0]
    }

    open spec fn parameter_name(&self, index: int) -> Seq<u8> {
        "eC".spec_bytes()
    }

    /// The circuit is on the I2C bus, which is shared by address.
    open spec fn requested(&self) -> Set<int> {
        Set::<int>::empty()
    }

    fn get_id(&self) -> (id: [u8; 6]) {
        self.general_config.id
    }

    fn get_type_id(&self) -> (type_id: u16) {
        self.general_config.sensor_type_id
    }

    /// Wakes the circuit and has its light blink with each measurement.
    fn setup<B: RRIVBoard>(&mut self, board: &mut B)
        ensures
            *final(self) == *old(self),
    {
        let wake: [u8; 2] = [SLEEP_CTRL, 1];
        let _ = board.ic2_write(ATLAS_EC_DEFAULT_ADDRESS, wake.as_slice());
        let light: [u8; 2] = [LED_CTRL, LED_BLINK_ON_MEASUREMENT];
        let _ = board.ic2_write(ATLAS_EC_DEFAULT_ADDRESS, light.as_slice());
    }

    fn get_measured_parameter_count(&self) -> (count: usize) {
        1
    }

    fn get_measured_parameter_value(&self, index: usize) -> (r: Result<i64, ()>) {
        if index < 1 {
            match self.measured_parameter_values[0] {
                Some(value) => Ok(value),
                None => Err(()),
            }
        } else {
            Err(())
        }
    }

    fn get_measured_parameter_identifier(&self, index: usize) -> (identifier: [u8; 16]) {
        identifier_from("eC".as_bytes())
    }

    /// Asks whether a new reading is there; where one is, reads it, records it
    /// and tells the circuit that it was taken.
    fn take_measurement<B: RRIVBoard>(&mut self, board: &mut B)
        ensures
            exists|reading: Option<[u8; 4]>|
                final(self).measured_parameter_values@[0] == recorded(reading),
            final(self).measured_parameter_values@[1] == old(self).measured_parameter_values@[1],
            final(self).special_config == old(self).special_config,
    {
        let message: [u8; 1] = [DATA_AVAILABLE];
        let mut flag: [u8; 1] = [0; 1];
        let available: Result<u8, ()> = match board.ic2_write_read(
            ATLAS_EC_DEFAULT_ADDRESS,
            message.as_slice(),
            &mut flag,
        ) {
            Ok(_) => Ok(flag[0]),
            Err(_) => Err(()),
        };
        let registers: Option<[u8; 4]> = if reading_is_there(available) {
            let registers: Option<[u8; 4]> = Self::read_registers(board);
            let taken: [u8; 2] = [DATA_AVAILABLE, 0];
            let _ = board.ic2_write(ATLAS_EC_DEFAULT_ADDRESS, taken.as_slice());
            registers
        } else {
            None
        };
        self.record_reading(reading_of(available, registers));
    }

    fn update_actuators<B: RRIVBoard>(&mut self, board: &mut B)
        ensures
            *final(self) == *old(self),
    {
    }

    /// The circuit keeps its own calibration: every fit is refused.
    fn fit(&mut self, pairs: &[CalibrationPair]) -> (r: Result<(), ()>)
        ensures
            r is Err,
    {
        Err(())
    }

    fn clear_calibration(&mut self)
        ensures
            *final(self) == *old(self),
    {
    }

    fn get_configuration_bytes(&self, storage: &mut [u8; 64]) {
        let general: [u8; 32] = self.general_config.to_bytes();
        let special: [u8; 32] = self.special_config.to_bytes();
        copy_config_into_partition(0, general.as_slice(), storage);
        copy_config_into_partition(1, special.as_slice(), storage);
        proof {
            lemma_both_partitions(old(storage)@, general@, special@);
        }
    }

    /// The report names the slot and the driver.
    fn get_configuration_json(&self) -> (values: ConfigurationValues)
        ensures
            lookup(values.fields@, "type"@) == FieldView::Text(
                driver_name(self.general_config.sensor_type_id),
            ),
            lookup(values.fields@, "id"@) matches FieldView::Text(text) && encode_utf8(text)
                == until_nul(sanitized(self.general_config.id@)),
    {
        let mut values = ConfigurationValues::new();
        let mut id: [u8; 6] = self.general_config.id;
        let id_text: String = match str_from_utf8(&mut id) {
            Ok(text) => text.to_owned(),
            Err(_) => "Invalid".to_owned(),
        };
        proof {
            reveal_strlit("id");
            reveal_strlit("type");
            assert("id"@.len() == 2);
            assert("type"@.len() == 4);
        }
        values.set("id", FieldValue::Text(id_text));
        values.set(
            "type",
            FieldValue::Text(name_from_type_id(self.general_config.sensor_type_id).to_owned()),
        );
        values
    }

    fn get_requested_gpios(&self) -> (request: GpioRequest) {
        GpioRequest::none()
    }

    fn receive_message(&mut self, message: Option<[u8; 50]>)
        ensures
            *final(self) == *old(self),
    {
    }

    fn receive_modbus(&mut self, response: &ModbusResponse)
        ensures
            *final(self) == *old(self),
    {
    }
}

} // verus!
