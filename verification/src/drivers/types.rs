//! What all drivers share: the general configuration of a slot, the layout of
//! a persisted slot, calibration points, parameter labels, the reading of
//! configuration fields, and the interface that every driver offers.

use vstd::prelude::*;
use vstd::string::StringSliceAdditionalSpecFns;
use vstd::utf8::encode_utf8;
use crate::board::RRIVBoard;
use crate::drivers::codec::{
    get_unsigned,
    le_bytes,
    le_value,
    lemma_le_bytes_len,
    lemma_le_round_trip,
    lemma_radix_values,
    put_bytes,
    put_unsigned,
    put_zeros,
    zeros,
};
use crate::drivers::resources::gpio::GpioRequest;
use crate::values::{lookup, ConfigurationValues, FieldValue, FieldView};

verus! {

/// Bytes of one partition of a persisted slot. A slot holds two: the general
/// configuration, then the special configuration of the driver.
pub const SENSOR_SETTINGS_PARTITION_SIZE: usize = 32;

/// Bytes of a persisted slot.
pub const SENSOR_SETTINGS_SIZE: usize = 64;

/// Measured values and calibration points are integers in millionths of their
/// unit.
pub const MICROS_PER_UNIT: i64 = 1_000_000;

/// Bytes of a parameter label.
pub const IDENTIFIER_SIZE: usize = 16;

/// Bytes of a message taken from the serial line.
pub const MESSAGE_SIZE: usize = 50;

/// The configuration that every slot has, whatever its driver.
#[derive(Clone, Copy, Debug)]
pub struct SensorDriverGeneralConfiguration {
    /// The name of the slot, padded with NUL.
    pub id: [u8; 6],
    /// Which driver runs the slot.
    pub sensor_type_id: u16,
    /// Whether the slot takes part in the measurement cycle.
    pub enabled: bool,
    /// Number of samples taken in a burst.
    pub burst_repetitions: u8,
    /// Number of samples averaged into one value.
    pub average_samples: u8,
}

impl SensorDriverGeneralConfiguration {
    /// The persisted form: identifier, type code, flags, burst and average
    /// counts, then zero padding.
    pub open spec fn encoded(&self) -> Seq<u8> {
        self.id@ + le_bytes(self.sensor_type_id as int, 2) + seq![
            if self.enabled {
                1u8
            } else {
                0u8
            },
            self.burst_repetitions,
            self.average_samples,
        ] + zeros(21)
    }

    /// Whether `self` is what the partition `bytes` holds.
    pub open spec fn decodes(&self, bytes: Seq<u8>) -> bool {
        &&& self.id@ == bytes.subrange(0, 6)
        &&& self.sensor_type_id == le_value(bytes.subrange(6, 8))
        &&& self.enabled == (bytes[8] % 2 == 1)
        &&& self.burst_repetitions == bytes[9]
        &&& self.average_samples == bytes[10]
    }

    /// An enabled slot with single samples.
    pub fn new(id: [u8; 6], sensor_type_id: u16) -> (config: Self)
        ensures
            config.id == id,
            config.sensor_type_id == sensor_type_id,
            config.enabled,
            config.burst_repetitions == 1,
            config.average_samples == 1,
    {
        SensorDriverGeneralConfiguration {
            id,
            sensor_type_id,
            enabled: true,
            burst_repetitions: 1,
            average_samples: 1,
        }
    }

    /// The configuration of a driver that is part of another and has no slot of
    /// its own.
    pub fn empty() -> (config: Self)
        ensures
            config.id@ == zeros(6),
            config.sensor_type_id == 0,
            config.enabled,
            config.burst_repetitions == 1,
            config.average_samples == 1,
    {
        let config = SensorDriverGeneralConfiguration {
            id: [0, 0, 0, 0, 0, 0],
            sensor_type_id: 0,
            enabled: true,
            burst_repetitions: 1,
            average_samples: 1,
        };
        assert(config.id@ =~= zeros(6));
        config
    }

    /// Reads the configuration from its partition.
    pub fn new_from_bytes(bytes: [u8; SENSOR_SETTINGS_PARTITION_SIZE]) -> (config: Self)
        ensures
            config.decodes(bytes@),
    {
        let mut id: [u8; 6] = [0; 6];
        let mut i: usize = 0;
        while i < 6
            invariant
                i <= 6,
                forall|j: int| 0 <= j < i ==> #[trigger] id@[j] == bytes@[j],
            decreases 6 - i,
        {
            id[i] = bytes[i];
            i += 1;
        }
        proof {
            lemma_radix_values();
            assert(id@ =~= bytes@.subrange(0, 6));
        }
        let sensor_type_id: u16 = get_unsigned(bytes.as_slice(), 6, 2) as u16;
        SensorDriverGeneralConfiguration {
            id,
            sensor_type_id,
            enabled: bytes[8] % 2 == 1,
            burst_repetitions: bytes[9],
            average_samples: bytes[10],
        }
    }

    /// Writes the configuration as its partition.
    pub fn to_bytes(&self) -> (bytes: [u8; SENSOR_SETTINGS_PARTITION_SIZE])
        ensures
            bytes@ == self.encoded(),
    {
        let mut out: Vec<u8> = Vec::new();
        put_bytes(&mut out, self.id.as_slice());
        put_unsigned(&mut out, self.sensor_type_id as u128, 2);
        out.push(if self.enabled { 1 } else { 0 });
        out.push(self.burst_repetitions);
        out.push(self.average_samples);
        put_zeros(&mut out, 21);
        proof {
            lemma_le_bytes_len(self.sensor_type_id as int, 2);
            assert(out@ =~= self.encoded());
        }
        partition_from(&out)
    }
}

/// A configuration read back from its own persisted form is the same
/// configuration.
pub proof fn lemma_general_round_trip(config: SensorDriverGeneralConfiguration)
    ensures
        config.encoded().len() == 32,
        config.decodes(config.encoded()),
{
    lemma_radix_values();
    lemma_le_round_trip(config.sensor_type_id as int, 2);
    let bytes = config.encoded();
    assert(bytes.subrange(0, 6) =~= config.id@);
    assert(bytes.subrange(6, 8) =~= le_bytes(config.sensor_type_id as int, 2));
}

/// Two configurations that one partition decodes to are the same.
pub proof fn lemma_general_decodes_unique(
    a: SensorDriverGeneralConfiguration,
    b: SensorDriverGeneralConfiguration,
    bytes: Seq<u8>,
)
    requires
        a.decodes(bytes),
        b.decodes(bytes),
    ensures
        a == b,
{
    assert(a.id@ =~= b.id@);
    assert(a.id == b.id);
}

/// The partition with the bytes of `bytes`.
pub fn partition_from(bytes: &Vec<u8>) -> (partition: [u8; SENSOR_SETTINGS_PARTITION_SIZE])
    requires
        bytes@.len() == 32,
    ensures
        partition@ == bytes@,
{
    let mut partition: [u8; SENSOR_SETTINGS_PARTITION_SIZE] = [0; SENSOR_SETTINGS_PARTITION_SIZE];
    let mut i: usize = 0;
    while i < 32
        invariant
            i <= 32,
            bytes@.len() == 32,
            forall|j: int| 0 <= j < i ==> #[trigger] partition@[j] == bytes@[j],
        decreases 32 - i,
    {
        partition[i] = bytes[i];
        i += 1;
    }
    assert(partition@ =~= bytes@);
    partition
}

/// Partition `partition` of a persisted slot.
pub fn partition_of(storage: &[u8; SENSOR_SETTINGS_SIZE], partition: usize) -> (bytes: [u8;
    SENSOR_SETTINGS_PARTITION_SIZE])
    requires
        partition < 2,
    ensures
        bytes@ == storage@.subrange(32 * partition, 32 * partition + 32),
{
    let mut bytes: [u8; SENSOR_SETTINGS_PARTITION_SIZE] = [0; SENSOR_SETTINGS_PARTITION_SIZE];
    let mut i: usize = 0;
    while i < 32
        invariant
            i <= 32,
            partition < 2,
            forall|j: int| 0 <= j < i ==> #[trigger] bytes@[j] == storage@[32 * partition + j],
        decreases 32 - i,
    {
        bytes[i] = storage[32 * partition + i];
        i += 1;
    }
    assert(bytes@ =~= storage@.subrange(32 * partition, 32 * partition + 32));
    bytes
}

/// A slot after `bytes` were written at the start of partition `partition`.
pub open spec fn with_partition(storage: Seq<u8>, partition: int, bytes: Seq<u8>) -> Seq<u8> {
    Seq::new(
        storage.len(),
        |i: int|
            if 32 * partition <= i < 32 * partition + bytes.len() {
                bytes[i - 32 * partition]
            } else {
                storage[i]
            },
    )
}

/// Writes `bytes` at the start of partition `partition` of a persisted slot. The
/// general configuration goes to partition 0 and the special configuration to
/// partition 1, so that the place of the first does not depend on the second.
pub fn copy_config_into_partition(
    partition: usize,
    bytes: &[u8],
    storage: &mut [u8; SENSOR_SETTINGS_SIZE],
)
    requires
        partition < 2,
        bytes@.len() <= 32,
    ensures
        final(storage)@ == with_partition(old(storage)@, partition as int, bytes@),
{
    let n: usize = bytes.len();
    let mut i: usize = 0;
    while i < n
        invariant
            i <= n,
            n == bytes@.len(),
            n <= 32,
            partition < 2,
            forall|j: int|
                0 <= j < 64 ==> #[trigger] storage@[j] == if 32 * partition <= j < 32 * partition
                    + i {
                    bytes@[j - 32 * partition]
                } else {
                    old(storage)@[j]
                },
        decreases n - i,
    {
        storage[32 * partition + i] = bytes[i];
        i += 1;
    }
    assert(storage@ =~= with_partition(old(storage)@, partition as int, bytes@));
}

/// Writing both partitions of a slot leaves the first followed by the second.
pub proof fn lemma_both_partitions(storage: Seq<u8>, first: Seq<u8>, second: Seq<u8>)
    requires
        storage.len() == 64,
        first.len() == 32,
        second.len() == 32,
    ensures
        with_partition(with_partition(storage, 0, first), 1, second) == first + second,
{
    assert(with_partition(with_partition(storage, 0, first), 1, second) =~= first + second);
}

/// One calibration point: a reference value, and what the sensor showed while
/// the reference was applied. Both are in millionths.
#[derive(Debug)]
pub struct CalibrationPair {
    pub point: i64,
    pub values: Vec<i64>,
}

/// A label of sixteen bytes for `text`: its first fifteen bytes, padded with
/// NUL.
pub open spec fn label(text: Seq<u8>) -> Seq<u8> {
    Seq::new(
        16,
        |i: int|
            if i < text.len() && i < 15 {
                text[i]
            } else {
                0u8
            },
    )
}

/// The label of sixteen bytes for `text`.
pub fn identifier_from(text: &[u8]) -> (identifier: [u8; IDENTIFIER_SIZE])
    ensures
        identifier@ == label(text@),
{
    let mut identifier: [u8; IDENTIFIER_SIZE] = [0, 0, 0, 0, 0, 0, 0, 0, 0, 0, 0, 0, 0, 0, 0, 0];
    let n: usize = text.len();
    let mut i: usize = 0;
    while i < 15 && i < n
        invariant
            i <= 15,
            i <= n,
            n == text@.len(),
            forall|j: int| 0 <= j < i ==> #[trigger] identifier@[j] == text@[j],
            forall|j: int| i <= j < 16 ==> #[trigger] identifier@[j] == 0,
        decreases 15 - i,
    {
        identifier[i] = text[i];
        i += 1;
    }
    assert(identifier@ =~= label(text@));
    identifier
}

/// The name of the raw parameter of a sensor, of its calibrated parameter, or of
/// an index that names neither.
pub open spec fn raw_or_cal_name(index: int) -> Seq<u8> {
    if index == 0 {
        "raw".spec_bytes()
    } else if index == 1 {
        "cal".spec_bytes()
    } else {
        "invalid".spec_bytes()
    }
}

/// The text of the label of a sensor with a raw and a calibrated parameter: the
/// name of the parameter, behind `prefix` and `_` where a prefix is given.
pub open spec fn raw_or_cal_text(index: int, prefix: Option<u8>) -> Seq<u8> {
    match prefix {
        Some(letter) => seq![letter, 0x5Fu8] + raw_or_cal_name(index),
        None => raw_or_cal_name(index),
    }
}

/// The text of the label of parameter `index` of a sensor that has a raw and a
/// calibrated parameter.
pub fn raw_or_cal_bytes(index: usize, prefix: Option<u8>) -> (text: Vec<u8>)
    ensures
        text@ == raw_or_cal_text(index as int, prefix),
{
    let name: &str = if index == 0 {
        "raw"
    } else if index == 1 {
        "cal"
    } else {
        "invalid"
    };
    let mut text: Vec<u8> = Vec::new();
    match prefix {
        Some(letter) => {
            text.push(letter);
            text.push(0x5F);
        },
        None => {},
    }
    put_bytes(&mut text, name.as_bytes());
    proof {
        assert(text@ =~= raw_or_cal_text(index as int, prefix));
    }
    text
}

/// The label of parameter `index` of a sensor that has a raw and a calibrated
/// parameter.
pub fn single_raw_or_cal_parameter_identifiers(index: usize, prefix: Option<u8>) -> (identifier:
    [u8; IDENTIFIER_SIZE])
    ensures
        identifier@ == label(raw_or_cal_text(index as int, prefix)),
{
    let text: Vec<u8> = raw_or_cal_bytes(index, prefix);
    identifier_from(text.as_slice())
}

/// Whether what a parser returned is what the rules give: the same value, or
/// an error with the same text.
pub open spec fn agrees<T>(returned: Result<T, &'static str>, expected: Result<T, Seq<char>>) -> bool {
    match (returned, expected) {
        (Ok(a), Ok(b)) => a == b,
        (Err(message), Err(text)) => message@ == text,
        _ => false,
    }
}

/// How a field is read as an unsigned number of 32 bits. A number that is no
/// non-negative integer, or that does not fit, is invalid. A field that is
/// absent leaves the default, unless the field is required. Anything else in
/// the place of the number is refused: as missing where the field is required,
/// as invalid where it is not.
pub open spec fn unsigned_field(
    value: FieldView,
    default: u32,
    invalid: Seq<char>,
    required: Option<Seq<char>>,
) -> Result<u32, Seq<char>> {
    match value {
        FieldView::Number(number) => match number.unsigned {
            Some(n) => if n <= u32::MAX {
                Ok(n as u32)
            } else {
                Err(invalid)
            },
            None => Err(invalid),
        },
        FieldView::Null => match required {
            Some(text) => Err(text),
            None => Ok(default),
        },
        _ => match required {
            Some(text) => Err(text),
            None => Err(invalid),
        },
    }
}

/// Reads field `name` as an unsigned number of 32 bits.
pub fn read_unsigned(
    values: &ConfigurationValues,
    name: &str,
    default: u32,
    invalid: &'static str,
    required: Option<&'static str>,
) -> (r: Result<u32, &'static str>)
    ensures
        agrees(
            r,
            unsigned_field(
                lookup(values.fields@, name@),
                default,
                invalid@,
                match required {
                    Some(text) => Some(text@),
                    None => None,
                },
            ),
        ),
{
    match values.get(name) {
        Some(FieldValue::Number(number)) => match number.unsigned {
            Some(n) => if n <= u32::MAX as u64 {
                Ok(n as u32)
            } else {
                Err(invalid)
            },
            None => Err(invalid),
        },
        None | Some(FieldValue::Null) => match required {
            Some(text) => Err(text),
            None => Ok(default),
        },
        _ => match required {
            Some(text) => Err(text),
            None => Err(invalid),
        },
    }
}

/// How a required text field is read.
pub open spec fn text_field(value: FieldView, required: Seq<char>) -> Result<Seq<u8>, Seq<char>> {
    match value {
        FieldView::Text(text) => Ok(encode_utf8(text)),
        _ => Err(required),
    }
}

/// How a required boolean field is read.
pub open spec fn bool_field(value: FieldView, required: Seq<char>) -> Result<bool, Seq<char>> {
    match value {
        FieldView::Bool(b) => Ok(b),
        _ => Err(required),
    }
}

/// Reads field `name` as a boolean.
pub fn read_bool(values: &ConfigurationValues, name: &str, required: &'static str) -> (r: Result<
    bool,
    &'static str,
>)
    ensures
        agrees(r, bool_field(lookup(values.fields@, name@), required@)),
{
    match values.get(name) {
        Some(FieldValue::Bool(b)) => Ok(*b),
        _ => Err(required),
    }
}

/// Reads field `name` as text, and hands out its bytes.
pub fn read_text<'a>(values: &'a ConfigurationValues, name: &str, required: &'static str) -> (r:
    Result<&'a [u8], &'static str>)
    ensures
        match (r, text_field(lookup(values.fields@, name@), required@)) {
            (Ok(bytes), Ok(text)) => bytes@ == text,
            (Err(message), Err(text)) => message@ == text,
            _ => false,
        },
{
    match values.get(name) {
        Some(FieldValue::Text(text)) => Ok(text.as_str().as_bytes()),
        _ => Err(required),
    }
}

/// What a device on the Modbus line answered, as far as a driver reads it.
#[derive(Debug)]
pub enum ModbusResponse {
    /// The input registers that were asked for.
    ReadInputRegisters(Vec<u16>),
    /// The answer to another function.
    OtherFunction,
    /// The device refused the request.
    Exception,
}

/// The interface of a driver: one configured sensor or actuator.
///
/// A measured value is an integer in millionths of its unit. A value that could
/// not be measured is unavailable, and is reported as an error rather than as a
/// number.
pub trait SensorDriver: Sized {
    /// What holds of a driver between calls.
    spec fn well_formed(&self) -> bool;

    /// The general configuration that the driver owns.
    spec fn general(&self) -> SensorDriverGeneralConfiguration;

    /// The persisted form of the special configuration that the driver owns.
    spec fn special_bytes(&self) -> Seq<u8>;

    /// Number of parameters that the driver reports.
    spec fn parameter_count(&self) -> nat;

    /// The value of parameter `index`, unless it is unavailable.
    spec fn parameter_value(&self, index: int) -> Option<i64>;

    /// The text of the label of parameter `index`.
    spec fn parameter_name(&self, index: int) -> Seq<u8>;

    /// The resources that the driver needs for itself.
    spec fn requested(&self) -> Set<int>;

    fn get_id(&self) -> (id: [u8; 6])
        ensures
            id == self.general().id,
    ;

    fn get_type_id(&self) -> (type_id: u16)
        ensures
            type_id == self.general().sensor_type_id,
    ;

    /// Prepares the device, once. A device that does not answer leaves the
    /// driver disabled; it does not fail the caller.
    fn setup<B: RRIVBoard>(&mut self, board: &mut B)
        requires
            old(self).well_formed(),
        ensures
            final(self).well_formed(),
            final(self).general() == old(self).general(),
    ;

    fn get_measured_parameter_count(&self) -> (count: usize)
        requires
            self.well_formed(),
        ensures
            count == self.parameter_count(),
    ;

    /// The value of parameter `index`. Fails for an index that names no
    /// parameter and for a value that is unavailable.
    fn get_measured_parameter_value(&self, index: usize) -> (r: Result<i64, ()>)
        requires
            self.well_formed(),
        ensures
            r == if index < self.parameter_count() {
                match self.parameter_value(index as int) {
                    Some(value) => Ok::<i64, ()>(value),
                    None => Err::<i64, ()>(()),
                }
            } else {
                Err::<i64, ()>(())
            },
    ;

    /// The label of parameter `index`: a function of the driver's
    /// configuration and the index alone.
    fn get_measured_parameter_identifier(&self, index: usize) -> (identifier: [u8; 16])
        requires
            self.well_formed(),
        ensures
            identifier@ == label(self.parameter_name(index as int)),
    ;

    /// One sampling pass, with a bounded number of bus operations.
    fn take_measurement<B: RRIVBoard>(&mut self, board: &mut B)
        requires
            old(self).well_formed(),
        ensures
            final(self).well_formed(),
            final(self).general() == old(self).general(),
            final(self).special_bytes() == old(self).special_bytes(),
            final(self).parameter_count() == old(self).parameter_count(),
            final(self).requested() == old(self).requested(),
    ;

    /// Advances what the driver actuates; called once per cycle.
    fn update_actuators<B: RRIVBoard>(&mut self, board: &mut B)
        requires
            old(self).well_formed(),
        ensures
            final(self).well_formed(),
            final(self).general() == old(self).general(),
            final(self).special_bytes() == old(self).special_bytes(),
            final(self).parameter_count() == old(self).parameter_count(),
            final(self).requested() == old(self).requested(),
    ;

    /// Fits the calibration to `pairs`. A fit that fails changes nothing.
    fn fit(&mut self, pairs: &[CalibrationPair]) -> (r: Result<(), ()>)
        requires
            old(self).well_formed(),
        ensures
            final(self).well_formed(),
            final(self).general() == old(self).general(),
            final(self).requested() == old(self).requested(),
            r is Err ==> *final(self) == *old(self),
    ;

    /// Resets the calibration to the one that changes nothing.
    fn clear_calibration(&mut self)
        requires
            old(self).well_formed(),
        ensures
            final(self).well_formed(),
            final(self).general() == old(self).general(),
            final(self).requested() == old(self).requested(),
    ;

    /// Writes the slot: the general configuration in the first partition, the
    /// special configuration in the second.
    fn get_configuration_bytes(&self, storage: &mut [u8; 64])
        requires
            self.well_formed(),
        ensures
            final(storage)@ == self.general().encoded() + self.special_bytes(),
    ;

    /// The configuration as named fields.
    fn get_configuration_json(&self) -> (values: ConfigurationValues)
        requires
            self.well_formed(),
    ;

    /// The resources that the driver needs; asked before `setup`.
    fn get_requested_gpios(&self) -> (request: GpioRequest)
        requires
            self.well_formed(),
        ensures
            request@ == self.requested(),
    ;

    /// Hands the driver a message framed on the serial line, if one came.
    fn receive_message(&mut self, message: Option<[u8; 50]>)
        requires
            old(self).well_formed(),
        ensures
            final(self).well_formed(),
            final(self).general() == old(self).general(),
            final(self).special_bytes() == old(self).special_bytes(),
            final(self).requested() == old(self).requested(),
    ;

    /// Hands the driver an answer that came on the Modbus line.
    fn receive_modbus(&mut self, response: &ModbusResponse)
        requires
            old(self).well_formed(),
        ensures
            final(self).well_formed(),
            final(self).general() == old(self).general(),
            final(self).special_bytes() == old(self).special_bytes(),
            final(self).requested() == old(self).requested(),
    ;
}

} // verus!
