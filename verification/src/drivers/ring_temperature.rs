//! A ring of up to eight MCP9808 temperature sensors on one I2C bus, or several
//! such rings behind a multiplexer that connects one of them at a time.

use vstd::prelude::*;
use vstd::string::StringSliceAdditionalSpecFns;
use vstd::utf8::encode_utf8;
use crate::board::RRIVBoard;
use crate::drivers::codec::{
    get_signed,
    get_unsigned,
    le_bytes,
    le_value,
    lemma_le_bytes_len,
    lemma_le_round_trip,
    lemma_le_value_bound,
    lemma_radix_values,
    lemma_signed_round_trip,
    put_signed,
    put_unsigned,
    put_zeros,
    to_signed,
    to_unsigned,
    zeros,
};
use crate::drivers::mcp9808::{
    lemma_measured_pair_by_offset,
    measured_pair,
    offset_thousandths,
    MCP9808TemperatureDriver,
    MCP9808TemperatureDriverSpecialConfiguration,
    BASE_ADDRESS,
};
use crate::drivers::resources::gpio::GpioRequest;
use crate::drivers::types::{
    agrees,
    copy_config_into_partition,
    identifier_from,
    lemma_both_partitions,
    partition_from,
    raw_or_cal_bytes,
    raw_or_cal_text,
    read_unsigned,
    unsigned_field,
    CalibrationPair,
    ModbusResponse,
    SensorDriver,
    SensorDriverGeneralConfiguration,
    SENSOR_SETTINGS_PARTITION_SIZE,
};
use crate::registry::{driver_name, name_from_type_id};
use crate::util::{sanitized, str_from_utf8, until_nul};
use crate::values::{
    lookup,
    number_from_unsigned,
    unsigned_number,
    ConfigurationValues,
    Field,
    FieldValue,
    FieldView,
};

verus! {

/// The I2C address of the multiplexer.
pub const MULTIPLEXER_ADDRESS: u8 = 0x70;

/// Number of sensors that a ring can have.
pub const TEMPERATURE_SENSORS_ON_RING: usize = 8;

/// Number of rings that the multiplexer can connect.
pub const MAX_CHANNELS: usize = 8;

/// Number of values that the driver can hold: two for each sensor of each ring.
pub const RING_VALUE_CAPACITY: usize = 128;

/// Number of values that one calibration pair must bring at least.
pub const MINIMUM_FIT_VALUES: usize = 6;

/// What the driver persists.
#[derive(Clone, Copy, Debug)]
pub struct RingTemperatureDriverSpecialConfiguration {
    /// Number of rings behind the multiplexer; 0 for one ring without a
    /// multiplexer.
    pub channels: u32,
    /// Number of sensors on a ring.
    pub sensors: u32,
    /// What is added to the temperature of each sensor, in thousandths of a
    /// degree.
    pub calibration_offset: [i16; 8],
    /// What is added to the I2C address of each sensor.
    pub address_offset: u8,
}

/// The numbers of rings and of sensors that the fields of a command give, or
/// the error of the first that is refused. A field that is absent leaves no
/// multiplexer, and six sensors.
pub open spec fn parsed(fields: Seq<Field>) -> Result<(u32, u32), Seq<char>> {
    let channels = unsigned_field(lookup(fields, "channels"@), 0, "invalid channels"@, None);
    let sensors = unsigned_field(
        lookup(fields, "sensors"@),
        6,
        "invalid number of sensors"@,
        None,
    );
    if channels is Err {
        Err(channels->Err_0)
    } else if channels->Ok_0 > 8 {
        Err("channels must be between 0 and 8"@)
    } else if sensors is Err {
        Err(sensors->Err_0)
    } else if sensors->Ok_0 > 8 {
        Err("sensors must be between 0 and 8"@)
    } else {
        Ok((channels->Ok_0, sensors->Ok_0))
    }
}

/// Byte `k` of the persisted offsets: each offset takes two bytes in two's
/// complement, the low byte first.
pub open spec fn offset_byte(offsets: Seq<i16>, k: int) -> u8 {
    let unsigned = to_unsigned(offsets[k / 2] as int, 2);
    if k % 2 == 0 {
        (unsigned % 256) as u8
    } else {
        (unsigned / 256 % 256) as u8
    }
}

/// A count that is held to eight.
pub open spec fn at_most_eight(n: int) -> u32 {
    if n <= 8 {
        n as u32
    } else {
        8
    }
}

impl RingTemperatureDriverSpecialConfiguration {
    /// What holds of every configuration that a driver works with: no more
    /// rings than the multiplexer connects, no more sensors than a ring has.
    pub open spec fn valid(&self) -> bool {
        self.channels <= 8 && self.sensors <= 8
    }

    /// The persisted form.
    pub open spec fn encoded(&self) -> Seq<u8> {
        le_bytes(self.channels as int, 4) + le_bytes(self.sensors as int, 4) + Seq::new(
            16,
            |k: int| offset_byte(self.calibration_offset@, k),
        ) + seq![self.address_offset] + zeros(7)
    }

    /// Whether `self` is what the partition `bytes` holds. Counts beyond eight
    /// are read as eight.
    pub open spec fn decodes(&self, bytes: Seq<u8>) -> bool {
        &&& self.channels == at_most_eight(le_value(bytes.subrange(0, 4)))
        &&& self.sensors == at_most_eight(le_value(bytes.subrange(4, 8)))
        &&& forall|i: int|
            0 <= i < 8 ==> #[trigger] self.calibration_offset@[i] == to_signed(
                le_value(bytes.subrange(8 + 2 * i, 10 + 2 * i)),
                2,
            )
        &&& self.address_offset == bytes[24]
    }

    /// The fields of a configuration report show this configuration.
    pub open spec fn shown_by(&self, fields: Seq<Field>) -> bool {
        &&& lookup(fields, "channels"@) == FieldView::Number(unsigned_number(self.channels as u64))
        &&& lookup(fields, "sensors"@) == FieldView::Number(unsigned_number(self.sensors as u64))
        &&& lookup(fields, "calibration_offset"@) == FieldView::Numbers(
            Seq::new(8, |i: int| (self.calibration_offset@[i] * 1_000_000) as i64),
        )
    }

    /// Reads the configuration from the fields of a command. A configuration
    /// that is parsed has no calibration yet.
    pub fn parse_from_values(values: &ConfigurationValues) -> (r: Result<
        RingTemperatureDriverSpecialConfiguration,
        &'static str,
    >)
        ensures
            match parsed(values.fields@) {
                Ok((channels, sensors)) => r matches Ok(config) && config.channels == channels
                    && config.sensors == sensors && config.address_offset == 0 && config.valid()
                    && forall|i: int| 0 <= i < 8 ==> #[trigger] config.calibration_offset@[i] == 0,
                Err(text) => r matches Err(message) && message@ == text,
            },
    {
        let channels: u32 = match read_unsigned(values, "channels", 0, "invalid channels", None) {
            Ok(n) => n,
            Err(message) => { return Err(message); },
        };
        if channels > 8 {
            return Err("channels must be between 0 and 8");
        }
        let sensors: u32 = match read_unsigned(
            values,
            "sensors",
            6,
            "invalid number of sensors",
            None,
        ) {
            Ok(n) => n,
            Err(message) => { return Err(message); },
        };
        if sensors > 8 {
            return Err("sensors must be between 0 and 8");
        }
        Ok(
            RingTemperatureDriverSpecialConfiguration {
                channels,
                sensors,
                calibration_offset: [0, 0, 0, 0, 0, 0, 0, 0],
                address_offset: 0,
            },
        )
    }

    /// Reads the configuration from its partition.
    pub fn new_from_bytes(bytes: [u8; SENSOR_SETTINGS_PARTITION_SIZE]) -> (config:
        RingTemperatureDriverSpecialConfiguration)
        ensures
            config.decodes(bytes@),
            config.valid(),
    {
        proof {
            lemma_radix_values();
        }
        let stored_channels: u128 = get_unsigned(bytes.as_slice(), 0, 4);
        let stored_sensors: u128 = get_unsigned(bytes.as_slice(), 4, 4);
        let mut calibration_offset: [i16; 8] = [0; 8];
        let mut i: usize = 0;
        while i < 8
            invariant
                i <= 8,
                forall|j: int|
                    0 <= j < i ==> #[trigger] calibration_offset@[j] == to_signed(
                        le_value(bytes@.subrange(8 + 2 * j, 10 + 2 * j)),
                        2,
                    ),
            decreases 8 - i,
        {
            proof {
                lemma_radix_values();
                lemma_le_value_bound(bytes@.subrange(8 + 2 * i, 10 + 2 * i));
            }
            calibration_offset[i] = get_signed(bytes.as_slice(), 8 + 2 * i, 2) as i16;
            i += 1;
        }
        RingTemperatureDriverSpecialConfiguration {
            channels: if stored_channels <= 8 {
                stored_channels as u32
            } else {
                8
            },
            sensors: if stored_sensors <= 8 {
                stored_sensors as u32
            } else {
                8
            },
            calibration_offset,
            address_offset: bytes[24],
        }
    }

    /// Writes the configuration as its partition.
    pub fn to_bytes(&self) -> (bytes: [u8; SENSOR_SETTINGS_PARTITION_SIZE])
        ensures
            bytes@ == self.encoded(),
    {
        let mut out: Vec<u8> = Vec::new();
        put_unsigned(&mut out, self.channels as u128, 4);
        put_unsigned(&mut out, self.sensors as u128, 4);
        let ghost head = out@;
        let mut i: usize = 0;
        proof {
            assert(out@ =~= head + Seq::new(0, |k: int| offset_byte(self.calibration_offset@, k)));
        }
        while i < 8
            invariant
                i <= 8,
                out@ == head + Seq::new(
                    (2 * i) as nat,
                    |k: int| offset_byte(self.calibration_offset@, k),
                ),
            decreases 8 - i,
        {
            proof {
                lemma_radix_values();
                reveal_with_fuel(le_bytes, 3);
                let unsigned = to_unsigned(self.calibration_offset@[i as int] as int, 2);
                assert(le_bytes(unsigned, 2) =~= seq![
                    (unsigned % 256) as u8,
                    (unsigned / 256 % 256) as u8,
                ]);
            }
            let ghost before = out@;
            put_signed(&mut out, self.calibration_offset[i] as i64, 2);
            i += 1;
            proof {
                assert(out@ =~= head + Seq::new(
                    (2 * i) as nat,
                    |k: int| offset_byte(self.calibration_offset@, k),
                ));
            }
        }
        out.push(self.address_offset);
        put_zeros(&mut out, 7);
        proof {
            lemma_le_bytes_len(self.channels as int, 4);
            lemma_le_bytes_len(self.sensors as int, 4);
            assert(out@ =~= self.encoded());
        }
        partition_from(&out)
    }
}

/// A configuration that a driver works with, read back from its own persisted
/// form, is the same configuration.
pub proof fn lemma_special_round_trip(config: RingTemperatureDriverSpecialConfiguration)
    requires
        config.valid(),
    ensures
        config.encoded().len() == 32,
        config.decodes(config.encoded()),
{
    lemma_radix_values();
    lemma_le_round_trip(config.channels as int, 4);
    lemma_le_round_trip(config.sensors as int, 4);
    let bytes = config.encoded();
    assert(bytes.subrange(0, 4) =~= le_bytes(config.channels as int, 4));
    assert(bytes.subrange(4, 8) =~= le_bytes(config.sensors as int, 4));
    assert forall|i: int| 0 <= i < 8 implies #[trigger] config.calibration_offset@[i] == to_signed(
        le_value(bytes.subrange(8 + 2 * i, 10 + 2 * i)),
        2,
    ) by {
        let unsigned = to_unsigned(config.calibration_offset@[i] as int, 2);
        lemma_signed_round_trip(config.calibration_offset@[i] as int, 2);
        lemma_le_round_trip(unsigned, 2);
        reveal_with_fuel(le_bytes, 3);
        assert(le_bytes(unsigned, 2) =~= seq![
            (unsigned % 256) as u8,
            (unsigned / 256 % 256) as u8,
        ]);
        assert(bytes[8 + 2 * i] == offset_byte(config.calibration_offset@, 2 * i));
        assert(bytes[9 + 2 * i] == offset_byte(config.calibration_offset@, 2 * i + 1));
        assert(bytes.subrange(8 + 2 * i, 10 + 2 * i) =~= le_bytes(unsigned, 2));
    }
}

/// The numbers of rings and of sensors of a configuration are read again from
/// the report that shows it. The calibration does not come back this way: it is
/// set by a fit.
pub proof fn lemma_report_round_trip(
    config: RingTemperatureDriverSpecialConfiguration,
    fields: Seq<Field>,
)
    requires
        config.valid(),
        config.shown_by(fields),
    ensures
        parsed(fields) == Ok::<(u32, u32), Seq<char>>((config.channels, config.sensors)),
{
}

/// The I2C address of sensor `i` of a ring, before the configured offset. Rings
/// of six and of eight sensors are wired in their own order; no other ring has
/// addresses.
pub open spec fn ring_base_address(sensors: u32, i: int) -> u8 {
    if sensors == 6 {
        seq![0x18u8, 0x19u8, 0x1Eu8, 0x1Du8, 0x1Au8, 0x1Cu8, 0u8, 0u8][i]
    } else if sensors == 8 {
        seq![0x19u8, 0x18u8, 0x1Cu8, 0x1Du8, 0x1Au8, 0x1Fu8, 0x1Bu8, 0x1Eu8][i]
    } else {
        0
    }
}

/// The I2C address of sensor `i`: its base address and the configured offset,
/// in eight bits.
pub open spec fn ring_address(config: RingTemperatureDriverSpecialConfiguration, i: int) -> u8 {
    ((ring_base_address(config.sensors, i) + config.address_offset) % 256) as u8
}

/// Where the values of ring `channel` start among the values of the driver.
pub open spec fn ring_base(config: RingTemperatureDriverSpecialConfiguration, channel: int) -> int {
    channel * config.sensors * 2
}

/// The raw and the calibrated temperature that the driver holds for sensor
/// `sensor` of ring `channel`.
pub open spec fn ring_pair(
    values: Seq<Option<i64>>,
    config: RingTemperatureDriverSpecialConfiguration,
    channel: int,
    sensor: int,
) -> (Option<i64>, Option<i64>) {
    (
        values[ring_base(config, channel) + 2 * sensor],
        values[ring_base(config, channel) + 2 * sensor + 1],
    )
}

/// Number of rings that a measurement goes through: those behind the
/// multiplexer, or the one ring where there is no multiplexer.
pub open spec fn rings_measured(config: RingTemperatureDriverSpecialConfiguration) -> int {
    if config.channels == 0 {
        1
    } else {
        config.channels as int
    }
}

/// The values of a sensor of one ring lie in front of the values of every later
/// ring, and all of them within the values that the driver holds.
pub proof fn lemma_ring_slots(sensors: int, earlier: int, later: int, sensor: int)
    by (nonlinear_arith)
    requires
        0 <= earlier < later <= 8,
        0 <= sensor < sensors <= 8,
    ensures
        0 <= earlier * sensors * 2,
        earlier * sensors * 2 + 2 * sensor + 1 < later * sensors * 2,
        later * sensors * 2 <= 128,
{
}

/// Number of values that a driver with this configuration reports: two for each
/// sensor of each ring that a measurement goes through.
pub open spec fn value_count(config: RingTemperatureDriverSpecialConfiguration) -> nat {
    (config.sensors * 2 * rings_measured(config)) as nat
}

/// The driver.
#[derive(Clone, Copy, Debug)]
pub struct RingTemperatureDriver {
    pub general_config: SensorDriverGeneralConfiguration,
    pub special_config: RingTemperatureDriverSpecialConfiguration,
    /// For ring `c` and sensor `i`, the raw temperature at `(c * sensors + i) *
    /// 2` and the calibrated temperature behind it, in millionths of a degree.
    pub measured_parameter_values: [Option<i64>; 128],
    /// The sensors of a ring.
    pub sensor_drivers: [MCP9808TemperatureDriver; 8],
}

/// The byte that has the multiplexer connect ring `channel` and no other: bit
/// `channel` alone.
pub open spec fn select_byte(channel: int) -> u8 {
    if channel == 0 {
        0x01
    } else if channel == 1 {
        0x02
    } else if channel == 2 {
        0x04
    } else if channel == 3 {
        0x08
    } else if channel == 4 {
        0x10
    } else if channel == 5 {
        0x20
    } else if channel == 6 {
        0x40
    } else {
        0x80
    }
}

/// The byte that has the multiplexer connect ring `channel` and no other.
pub fn channel_select(channel: usize) -> (select: u8)
    requires
        channel < 8,
    ensures
        select == select_byte(channel as int),
{
    if channel == 0 {
        0x01
    } else if channel == 1 {
        0x02
    } else if channel == 2 {
        0x04
    } else if channel == 3 {
        0x08
    } else if channel == 4 {
        0x10
    } else if channel == 5 {
        0x20
    } else if channel == 6 {
        0x40
    } else {
        0x80
    }
}

/// The values of a driver that has not measured yet: zero for every sensor of
/// every ring.
fn zero_values() -> (values: [Option<i64>; 128])
    ensures
        forall|i: int| 0 <= i < 128 ==> #[trigger] values@[i] == Some(0i64),
{
    let mut values: [Option<i64>; 128] = [Some(0); 128];
    let mut i: usize = 0;
    while i < 128
        invariant
            i <= 128,
            forall|j: int| 0 <= j < i ==> #[trigger] values@[j] == Some(0i64),
        decreases 128 - i,
    {
        values[i] = Some(0);
        i += 1;
    }
    values
}

/// The driver for sensor `i` of a ring.
fn sensor_at(
    special_config: &RingTemperatureDriverSpecialConfiguration,
    addresses: &[u8; 8],
    i: usize,
) -> (driver: MCP9808TemperatureDriver)
    requires
        i < 8,
    ensures
        driver.address == ((addresses@[i as int] + special_config.address_offset) % 256) as u8,
        driver.special_config.calibration_offset == special_config.calibration_offset@[i as int],
        driver.special_config.address == BASE_ADDRESS,
        driver.calibration_offset == 0,
        driver.measured_parameter_values@[0] == Some(0i64),
        driver.measured_parameter_values@[1] == Some(0i64),
{
    let address: u8 = ((addresses[i] as u16 + special_config.address_offset as u16) % 256) as u8;
    MCP9808TemperatureDriver::new_with_address(
        SensorDriverGeneralConfiguration::empty(),
        MCP9808TemperatureDriverSpecialConfiguration::new(special_config.calibration_offset[i]),
        address,
    )
}

impl RingTemperatureDriver {
    /// What holds of the sensors of a ring as long as the ring is not
    /// reconfigured.
    pub open spec fn sensors_match(&self) -> bool {
        forall|i: int|
            0 <= i < 8 ==> {
                &&& (#[trigger] self.sensor_drivers@[i]).address == ring_address(
                    self.special_config,
                    i,
                )
                &&& self.sensor_drivers@[i].special_config.calibration_offset
                    == self.special_config.calibration_offset@[i]
            }
    }

    /// A driver that has not measured yet, whose values are zero, with a
    /// sensor driver for each place on the ring.
    pub fn new(
        general_config: SensorDriverGeneralConfiguration,
        special_config: RingTemperatureDriverSpecialConfiguration,
    ) -> (driver: Self)
        ensures
            driver.general_config == general_config,
            driver.special_config == special_config,
            driver.sensors_match(),
            forall|i: int|
                0 <= i < 128 ==> #[trigger] driver.measured_parameter_values@[i] == Some(0i64),
            forall|i: int|
                0 <= i < 8 ==> (#[trigger] driver.sensor_drivers@[i]).calibration_offset == 0,
    {
        let addresses: [u8; 8] = if special_config.sensors == 6 {
            [0x18, 0x19, 0x1E, 0x1D, 0x1A, 0x1C, 0, 0]
        } else if special_config.sensors == 8 {
            [0x19, 0x18, 0x1C, 0x1D, 0x1A, 0x1F, 0x1B, 0x1E]
        } else {
            [0, 0, 0, 0, 0, 0, 0, 0]
        };
        assert(forall|i: int|
            0 <= i < 8 ==> #[trigger] addresses@[i] == ring_base_address(special_config.sensors, i));
        let driver = RingTemperatureDriver {
            general_config,
            special_config,
            measured_parameter_values: zero_values(),
            sensor_drivers: [
                sensor_at(&special_config, &addresses, 0),
                sensor_at(&special_config, &addresses, 1),
                sensor_at(&special_config, &addresses, 2),
                sensor_at(&special_config, &addresses, 3),
                sensor_at(&special_config, &addresses, 4),
                sensor_at(&special_config, &addresses, 5),
                sensor_at(&special_config, &addresses, 6),
                sensor_at(&special_config, &addresses, 7),
            ],
        };
        driver
    }

    /// Connects ring `channel` through the multiplexer.
    fn enable_channel<B: RRIVBoard>(&self, channel: usize, board: &mut B)
        requires
            channel < 8,
    {
        let message: [u8; 1] = [channel_select(channel)];
        let _ = board.ic2_write(MULTIPLEXER_ADDRESS, message.as_slice());
    }

    /// Disconnects every ring.
    fn disable_all_channels<B: RRIVBoard>(&self, board: &mut B) {
        let message: [u8; 1] = [0];
        let _ = board.ic2_write(MULTIPLEXER_ADDRESS, message.as_slice());
    }

    /// Measures every sensor of the ring that is connected and keeps the values
    /// as those of ring `channel`: for sensor `i`, its raw and its calibrated
    /// temperature at `(channel * sensors + i) * 2` and behind it. No other
    /// value changes.
    fn measure_ring<B: RRIVBoard>(&mut self, channel: usize, board: &mut B)
        requires
            channel < 8,
            old(self).special_config.valid(),
            old(self).sensors_match(),
        ensures
            final(self).general_config == old(self).general_config,
            final(self).special_config == old(self).special_config,
            final(self).sensors_match(),
            forall|k: int|
                0 <= k < 128 && !(ring_base(old(self).special_config, channel as int) <= k
                    < ring_base(old(self).special_config, channel as int + 1))
                    ==> #[trigger] final(self).measured_parameter_values@[k] == old(self).measured_parameter_values@[k],
            forall|i: int|
                0 <= i < 8 ==> (#[trigger] final(self).sensor_drivers@[i]).calibration_offset
                    == old(self).sensor_drivers@[i].calibration_offset,
            forall|i: int|
                0 <= i < old(self).special_config.sensors ==> measured_pair(
                    old(self).sensor_drivers@[i],
                    #[trigger] ring_pair(
                        final(self).measured_parameter_values@,
                        old(self).special_config,
                        channel as int,
                        i,
                    ),
                ),
            forall|i: int|
                0 <= i < old(self).special_config.sensors ==> #[trigger] ring_pair(
                    final(self).measured_parameter_values@,
                    old(self).special_config,
                    channel as int,
                    i,
                ) == (
                    final(self).sensor_drivers@[i].measured_parameter_values@[0],
                    final(self).sensor_drivers@[i].measured_parameter_values@[1],
                ),
    {
        let sensors: usize = self.special_config.sensors as usize;
        assert(channel * sensors <= 56) by (nonlinear_arith)
            requires
                channel <= 7,
                sensors <= 8,
        ;
        let base: usize = channel * sensors * 2;
        proof {
            assert(base == ring_base(self.special_config, channel as int));
            assert(base + 2 * sensors == ring_base(self.special_config, channel as int + 1))
                by (nonlinear_arith)
                requires
                    base == channel * sensors * 2,
                    ring_base(self.special_config, channel as int + 1) == (channel + 1) * sensors
                        * 2,
            ;
        }
        let mut i: usize = 0;
        while i < sensors
            invariant
                i <= sensors <= 8,
                base + 2 * sensors <= 128,
                sensors == self.special_config.sensors,
                self.general_config == old(self).general_config,
                self.special_config == old(self).special_config,
                self.sensors_match(),
                forall|k: int|
                    0 <= k < 128 && !(base <= k < base + 2 * i)
                        ==> #[trigger] self.measured_parameter_values@[k] == old(self).measured_parameter_values@[k],
                base == ring_base(self.special_config, channel as int),
                forall|j: int|
                    0 <= j < 8 ==> (#[trigger] self.sensor_drivers@[j]).calibration_offset == old(self).sensor_drivers@[j].calibration_offset,
                forall|j: int|
                    0 <= j < i ==> measured_pair(
                        old(self).sensor_drivers@[j],
                        #[trigger] ring_pair(
                            self.measured_parameter_values@,
                            self.special_config,
                            channel as int,
                            j,
                        ),
                    ),
                forall|j: int|
                    0 <= j < i ==> #[trigger] ring_pair(
                        self.measured_parameter_values@,
                        self.special_config,
                        channel as int,
                        j,
                    ) == (
                        self.sensor_drivers@[j].measured_parameter_values@[0],
                        self.sensor_drivers@[j].measured_parameter_values@[1],
                    ),
            decreases sensors - i,
        {
            let ghost before = self.measured_parameter_values@;
            let ghost sensors_before = self.sensor_drivers@;
            let mut sensor: MCP9808TemperatureDriver = self.sensor_drivers[i];
            let ghost asked = sensor;
            sensor.take_measurement(board);
            let raw: Option<i64> = sensor.measured_parameter_values[0];
            let calibrated: Option<i64> = sensor.measured_parameter_values[1];
            self.sensor_drivers[i] = sensor;
            let at: usize = base + i * 2;
            self.measured_parameter_values[at] = raw;
            self.measured_parameter_values[at + 1] = calibrated;
            proof {
                let after = self.measured_parameter_values@;
                let config = self.special_config;
                lemma_measured_pair_by_offset(
                    asked,
                    old(self).sensor_drivers@[i as int],
                    (raw, calibrated),
                );
                assert forall|j: int| 0 <= j < i + 1 implies #[trigger] ring_pair(
                    after,
                    config,
                    channel as int,
                    j,
                ) == (
                    self.sensor_drivers@[j].measured_parameter_values@[0],
                    self.sensor_drivers@[j].measured_parameter_values@[1],
                ) by {
                    if j < i {
                        assert(self.sensor_drivers@[j] == sensors_before[j]);
                        assert(ring_pair(after, config, channel as int, j) == ring_pair(
                            before,
                            config,
                            channel as int,
                            j,
                        ));
                    } else {
                        assert(self.sensor_drivers@[j] == sensor);
                        assert(ring_pair(after, config, channel as int, j) == (raw, calibrated));
                    }
                }
                assert forall|j: int| 0 <= j < i + 1 implies measured_pair(
                    old(self).sensor_drivers@[j],
                    #[trigger] ring_pair(after, config, channel as int, j),
                ) by {
                    if j < i {
                        assert(ring_pair(after, config, channel as int, j) == ring_pair(
                            before,
                            config,
                            channel as int,
                            j,
                        ));
                    } else {
                        assert(ring_pair(after, config, channel as int, j) == (raw, calibrated));
                    }
                }
            }
            i += 1;
        }
    }
}

impl SensorDriver for RingTemperatureDriver {
    open spec fn well_formed(&self) -> bool {
        self.special_config.valid() && self.sensors_match()
    }

    open spec fn general(&self) -> SensorDriverGeneralConfiguration {
        self.general_config
    }

    open spec fn special_bytes(&self) -> Seq<u8> {
        self.special_config.encoded()
    }

    open spec fn parameter_count(&self) -> nat {
        value_count(self.special_config)
    }

    open spec fn parameter_value(&self, index: int) -> Option<i64> {
        self.measured_parameter_values@[index]
    }

    /// The label of a value names the kind of value and, by a letter from `A`,
    /// the place of its sensor on the ring.
    open spec fn parameter_name(&self, index: int) -> Seq<u8> {
        if index < value_count(self.special_config) {
            raw_or_cal_text(index % 2, Some(0x54u8)) + seq![
                (0x41 + index / 2 % (self.special_config.sensors as int)) as u8,
            ]
        } else {
            "invalid".spec_bytes()
        }
    }

    /// The sensors and the multiplexer are on the I2C bus, which is shared by
    /// address.
    open spec fn requested(&self) -> Set<int> {
        Set::<int>::empty()
    }

    fn get_id(&self) -> (id: [u8; 6]) {
        self.general_config.id
    }

    fn get_type_id(&self) -> (type_id: u16) {
        self.general_config.sensor_type_id
    }

    /// Sets every sensor up: each takes its calibration from its
    /// configuration.
    fn setup<B: RRIVBoard>(&mut self, board: &mut B)
        ensures
            final(self).special_config == old(self).special_config,
            final(self).measured_parameter_values == old(self).measured_parameter_values,
            forall|i: int|
                0 <= i < 8 ==> (#[trigger] final(self).sensor_drivers@[i]).calibration_offset
                    == old(self).special_config.calibration_offset@[i] * 1000,
    {
        let mut i: usize = 0;
        while i < 8
            invariant
                i <= 8,
                self.general_config == old(self).general_config,
                self.special_config == old(self).special_config,
                self.measured_parameter_values == old(self).measured_parameter_values,
                self.sensors_match(),
                forall|j: int|
                    0 <= j < i ==> (#[trigger] self.sensor_drivers@[j]).calibration_offset
                        == self.special_config.calibration_offset@[j] * 1000,
            decreases 8 - i,
        {
            let mut sensor: MCP9808TemperatureDriver = self.sensor_drivers[i];
            sensor.setup(board);
            self.sensor_drivers[i] = sensor;
            i += 1;
        }
    }

    fn get_measured_parameter_count(&self) -> (count: usize) {
        let rings: u32 = if self.special_config.channels == 0 {
            1
        } else {
            self.special_config.channels
        };
        assert(self.special_config.sensors * 2 * rings <= 128) by (nonlinear_arith)
            requires
                self.special_config.sensors <= 8,
                1 <= rings <= 8,
        ;
        (self.special_config.sensors * 2 * rings) as usize
    }

    fn get_measured_parameter_value(&self, index: usize) -> (r: Result<i64, ()>) {
        assert(self.special_config.sensors * 2 * rings_measured(self.special_config) <= 128)
            by (nonlinear_arith)
            requires
                self.special_config.sensors <= 8,
                1 <= rings_measured(self.special_config) <= 8,
        ;
        if index < self.get_measured_parameter_count() {
            match self.measured_parameter_values[index] {
                Some(value) => Ok(value),
                None => Err(()),
            }
        } else {
            Err(())
        }
    }

    fn get_measured_parameter_identifier(&self, index: usize) -> (identifier: [u8; 16]) {
        if index < self.get_measured_parameter_count() {
            assert(self.special_config.sensors > 0) by (nonlinear_arith)
                requires
                    self.special_config.sensors * 2 * rings_measured(self.special_config) > 0,
                    self.special_config.sensors >= 0,
            ;
            let sensor_index: usize = index / 2 % (self.special_config.sensors as usize);
            let mut text: Vec<u8> = raw_or_cal_bytes(index % 2, Some(0x54));
            text.push(0x41 + sensor_index as u8);
            identifier_from(text.as_slice())
        } else {
            identifier_from("invalid".as_bytes())
        }
    }

    /// Measures ring after ring: connects it, measures its sensors, and
    /// disconnects it. Without a multiplexer the one ring is measured as it
    /// is. A sensor that the bus fails leaves its two values unavailable, and
    /// the others are measured all the same.
    fn take_measurement<B: RRIVBoard>(&mut self, board: &mut B)
        ensures
            final(self).special_config == old(self).special_config,
            forall|c: int, i: int|
                0 <= c < rings_measured(old(self).special_config) && 0 <= i < old(
                    self,
                ).special_config.sensors ==> measured_pair(
                    old(self).sensor_drivers@[i],
                    #[trigger] ring_pair(
                        final(self).measured_parameter_values@,
                        old(self).special_config,
                        c,
                        i,
                    ),
                ),
            forall|k: int|
                ring_base(old(self).special_config, rings_measured(old(self).special_config)) <= k
                    < 128 ==> #[trigger] final(self).measured_parameter_values@[k] == old(
                    self,
                ).measured_parameter_values@[k],
            forall|i: int|
                0 <= i < 8 ==> (#[trigger] final(self).sensor_drivers@[i]).calibration_offset
                    == old(self).sensor_drivers@[i].calibration_offset,
    {
        let channels: usize = self.special_config.channels as usize;
        let ghost config = self.special_config;
        let mut c: usize = 0;
        while c < channels
            invariant
                c <= channels <= 8,
                channels == config.channels,
                self.general_config == old(self).general_config,
                self.special_config == old(self).special_config,
                config == self.special_config,
                self.special_config.valid(),
                self.sensors_match(),
                forall|k: int|
                    ring_base(self.special_config, c as int) <= k < 128
                        ==> #[trigger] self.measured_parameter_values@[k] == old(self).measured_parameter_values@[k],
                forall|j: int|
                    0 <= j < 8 ==> (#[trigger] self.sensor_drivers@[j]).calibration_offset == old(self).sensor_drivers@[j].calibration_offset,
                forall|r: int, i: int|
                    0 <= r < c && 0 <= i < config.sensors ==> measured_pair(
                        old(self).sensor_drivers@[i],
                        #[trigger] ring_pair(self.measured_parameter_values@, config, r, i),
                    ),
            decreases channels - c,
        {
            proof {
                let sensors = self.special_config.sensors as int;
                assert(ring_base(self.special_config, c as int) <= ring_base(
                    self.special_config,
                    c as int + 1,
                )) by (nonlinear_arith)
                    requires
                        ring_base(self.special_config, c as int) == c * sensors * 2,
                        ring_base(self.special_config, c as int + 1) == (c + 1) * sensors * 2,
                        sensors >= 0,
                ;
            }
            self.enable_channel(c, board);
            let ghost before = self.measured_parameter_values@;
            let ghost asked = self.sensor_drivers@;
            self.measure_ring(c, board);
            proof {
                let after = self.measured_parameter_values@;
                assert forall|r: int, i: int|
                    0 <= r < c + 1 && 0 <= i < config.sensors implies measured_pair(
                    old(self).sensor_drivers@[i],
                    #[trigger] ring_pair(after, config, r, i),
                ) by {
                    if r < c {
                        lemma_ring_slots(config.sensors as int, r, c as int, i);
                        assert(ring_pair(after, config, r, i) == ring_pair(before, config, r, i));
                    } else {
                        lemma_measured_pair_by_offset(
                            asked[i],
                            old(self).sensor_drivers@[i],
                            ring_pair(after, config, r, i),
                        );
                    }
                }
            }
            self.disable_all_channels(board);
            c += 1;
        }
        if channels == 0 {
            let ghost asked = self.sensor_drivers@;
            self.measure_ring(0, board);
            proof {
                let after = self.measured_parameter_values@;
                assert forall|r: int, i: int|
                    0 <= r < 1 && 0 <= i < config.sensors implies measured_pair(
                    old(self).sensor_drivers@[i],
                    #[trigger] ring_pair(after, config, r, i),
                ) by {
                    lemma_measured_pair_by_offset(
                        asked[i],
                        old(self).sensor_drivers@[i],
                        ring_pair(after, config, r, i),
                    );
                }
            }
        }
    }

    fn update_actuators<B: RRIVBoard>(&mut self, board: &mut B)
        ensures
            *final(self) == *old(self),
    {
    }

    /// Fits the offset of each sensor to one pair that brings a value for each:
    /// the difference between the reference and the value of the sensor.
    /// Fails, and changes nothing, unless there is exactly one pair, with at
    /// least six values, whose differences can be held. A sensor for which the
    /// pair brings no value keeps its offset.
    fn fit(&mut self, pairs: &[CalibrationPair]) -> (r: Result<(), ()>)
        ensures
            r is Ok == (pairs@.len() == 1 && pairs@[0].values@.len() >= 6 && forall|i: int|
                0 <= i < 8 && i < pairs@[0].values@.len() ==> i64::MIN <= pairs@[0].point
                    - #[trigger] pairs@[0].values@[i] <= i64::MAX),
            r is Ok ==> forall|i: int|
                0 <= i < 8 ==> #[trigger] final(self).special_config.calibration_offset@[i] == if i
                    < pairs@[0].values@.len() {
                    offset_thousandths((pairs@[0].point - pairs@[0].values@[i]) as i64)
                } else {
                    old(self).special_config.calibration_offset@[i]
                },
            r is Ok ==> final(self).special_config.channels == old(self).special_config.channels,
            r is Ok ==> final(self).special_config.sensors == old(self).special_config.sensors,
    {
        if pairs.len() != 1 {
            return Err(());
        }
        let n: usize = pairs[0].values.len();
        if n < MINIMUM_FIT_VALUES {
            return Err(());
        }
        let point: i64 = pairs[0].point;
        let mut fitted: RingTemperatureDriver = *self;
        let mut i: usize = 0;
        while i < 8 && i < n
            invariant
                i <= 8,
                i <= n,
                *self == *old(self),
                self.special_config.valid(),
                self.sensors_match(),
                n == pairs@[0].values@.len(),
                pairs@.len() == 1,
                point == pairs@[0].point,
                fitted.general_config == self.general_config,
                fitted.special_config.channels == self.special_config.channels,
                fitted.special_config.sensors == self.special_config.sensors,
                fitted.special_config.address_offset == self.special_config.address_offset,
                fitted.special_config.valid(),
                forall|j: int|
                    0 <= j < 8 ==> (#[trigger] fitted.sensor_drivers@[j]).address
                        == self.sensor_drivers@[j].address,
                forall|j: int|
                    0 <= j < 8 ==> (#[trigger] fitted.sensor_drivers@[j]).special_config.calibration_offset
                        == fitted.special_config.calibration_offset@[j],
                forall|j: int|
                    0 <= j < i ==> i64::MIN <= point - #[trigger] pairs@[0].values@[j] <= i64::MAX,
                forall|j: int|
                    0 <= j < i ==> #[trigger] fitted.special_config.calibration_offset@[j]
                        == offset_thousandths((point - pairs@[0].values@[j]) as i64),
                forall|j: int|
                    i <= j < 8 ==> #[trigger] fitted.special_config.calibration_offset@[j]
                        == self.special_config.calibration_offset@[j],
            decreases 8 - i,
        {
            let mut sensor: MCP9808TemperatureDriver = fitted.sensor_drivers[i];
            match sensor.fit_offset(point, pairs[0].values[i]) {
                Ok(_) => {},
                Err(_) => { return Err(()); },
            }
            fitted.special_config.calibration_offset[i] = sensor.special_config.calibration_offset;
            fitted.sensor_drivers[i] = sensor;
            i += 1;
        }
        assert(fitted.sensors_match()) by {
            assert(self.sensors_match());
            assert forall|j: int| 0 <= j < 8 implies (#[trigger] fitted.sensor_drivers@[j]).address
                == ring_address(fitted.special_config, j) by {
                assert(self.sensor_drivers@[j].address == ring_address(self.special_config, j));
            }
        }
        *self = fitted;
        Ok(())
    }

    /// Clears the offset of every sensor.
    fn clear_calibration(&mut self)
        ensures
            forall|i: int|
                0 <= i < 8 ==> #[trigger] final(self).special_config.calibration_offset@[i] == 0,
            forall|i: int|
                0 <= i < 8 ==> (#[trigger] final(self).sensor_drivers@[i]).calibration_offset == 0,
            final(self).special_config.channels == old(self).special_config.channels,
            final(self).special_config.sensors == old(self).special_config.sensors,
            final(self).special_config.address_offset == old(self).special_config.address_offset,
            final(self).measured_parameter_values == old(self).measured_parameter_values,
    {
        let mut i: usize = 0;
        while i < 8
            invariant
                i <= 8,
                self.general_config == old(self).general_config,
                self.special_config.channels == old(self).special_config.channels,
                self.special_config.sensors == old(self).special_config.sensors,
                self.special_config.address_offset == old(self).special_config.address_offset,
                self.measured_parameter_values == old(self).measured_parameter_values,
                forall|j: int|
                    0 <= j < 8 ==> (#[trigger] self.sensor_drivers@[j]).address == old(self).sensor_drivers@[j].address,
                forall|j: int|
                    0 <= j < 8 ==> (#[trigger] self.sensor_drivers@[j]).special_config.calibration_offset
                        == self.special_config.calibration_offset@[j],
                forall|j: int|
                    0 <= j < i ==> #[trigger] self.special_config.calibration_offset@[j] == 0,
                forall|j: int|
                    0 <= j < i ==> (#[trigger] self.sensor_drivers@[j]).calibration_offset == 0,
            decreases 8 - i,
        {
            let mut sensor: MCP9808TemperatureDriver = self.sensor_drivers[i];
            sensor.clear_calibration();
            self.special_config.calibration_offset[i] = 0;
            self.sensor_drivers[i] = sensor;
            i += 1;
        }
        assert(self.sensors_match()) by {
            assert(old(self).sensors_match());
            assert forall|j: int| 0 <= j < 8 implies (#[trigger] self.sensor_drivers@[j]).address
                == ring_address(self.special_config, j) by {
                assert(old(self).sensor_drivers@[j].address == ring_address(
                    old(self).special_config,
                    j,
                ));
            }
        }
    }

    fn get_configuration_bytes(&self, storage: &mut [u8; 64]) {
        let general: [u8; 32] = self.general_config.to_bytes();
        let special: [u8; 32] = self.special_config.to_bytes();
        copy_config_into_partition(0, general.as_slice(), storage);
        copy_config_into_partition(1, special.as_slice(), storage);
        proof {
            lemma_both_partitions(old(storage)@, general@, special@);
        }
    }

    /// The report names the slot and the driver and shows the numbers of rings
    /// and of sensors and the calibration of each sensor.
    fn get_configuration_json(&self) -> (values: ConfigurationValues)
        ensures
            self.special_config.shown_by(values.fields@),
            lookup(values.fields@, "type"@) == FieldView::Text(
                driver_name(self.general_config.sensor_type_id),
            ),
            lookup(values.fields@, "id"@) matches FieldView::Text(text) && encode_utf8(text)
                == until_nul(sanitized(self.general_config.id@)),
    {
        let mut values = ConfigurationValues::new();
        let mut id: [u8; 6] = self.general_config.id;
        let id_text: String = match str_from_utf8(&mut id) {
            Ok(text) => text.to_owned(),
            Err(_) => "Invalid".to_owned(),
        };
        let mut offsets: Vec<i64> = Vec::new();
        let mut i: usize = 0;
        while i < 8
            invariant
                i <= 8,
                offsets@.len() == i,
                forall|j: int|
                    0 <= j < i ==> #[trigger] offsets@[j]
                        == self.special_config.calibration_offset@[j] * 1_000_000,
            decreases 8 - i,
        {
            offsets.push(self.special_config.calibration_offset[i] as i64 * 1_000_000);
            i += 1;
        }
        proof {
            assert(offsets@ =~= Seq::new(
                8,
                |i: int| (self.special_config.calibration_offset@[i] * 1_000_000) as i64,
            ));
            reveal_strlit("id");
            reveal_strlit("type");
            reveal_strlit("channels");
            reveal_strlit("sensors");
            reveal_strlit("calibration_offset");
            assert("id"@.len() == 2);
            assert("type"@.len() == 4);
            assert("channels"@.len() == 8);
            assert("sensors"@.len() == 7);
            assert("calibration_offset"@.len() == 18);
        }
        values.set("id", FieldValue::Text(id_text));
        values.set(
            "type",
            FieldValue::Text(name_from_type_id(self.general_config.sensor_type_id).to_owned()),
        );
        values.set(
            "channels",
            FieldValue::Number(number_from_unsigned(self.special_config.channels as u64)),
        );
        values.set(
            "sensors",
            FieldValue::Number(number_from_unsigned(self.special_config.sensors as u64)),
        );
        values.set("calibration_offset", FieldValue::Numbers(offsets));
        values
    }

    fn get_requested_gpios(&self) -> (request: GpioRequest) {
        GpioRequest::none()
    }

    fn receive_message(&mut self, message: Option<[u8; 50]>)
        ensures
            *final(self) == *old(self),
    {
    }

    fn receive_modbus(&mut self, response: &ModbusResponse)
        ensures
            *final(self) == *old(self),
    {
    }
}

} // verus!
