//! The AHT20 humidity and temperature sensor on the I2C bus.
//!
//! The sensor is busy while it converts. The driver polls its status a bounded
//! number of times and gives up after that: a sensor that never gets ready
//! costs a cycle a tenth of a second, not more.

use vstd::prelude::*;
use vstd::string::StringSliceAdditionalSpecFns;
use vstd::utf8::encode_utf8;
use crate::board::RRIVBoard;
use crate::drivers::codec::{
    get_unsigned,
    le_bytes,
    le_value,
    lemma_le_bytes_len,
    lemma_le_round_trip,
    lemma_radix_values,
    put_unsigned,
    put_zeros,
    zeros,
};
use crate::drivers::resources::gpio::GpioRequest;
use crate::drivers::types::{
    copy_config_into_partition,
    identifier_from,
    lemma_both_partitions,
    partition_from,
    CalibrationPair,
    ModbusResponse,
    SensorDriver,
    SensorDriverGeneralConfiguration,
    SENSOR_SETTINGS_PARTITION_SIZE,
};
use crate::registry::{driver_name, name_from_type_id};
use crate::util::{sanitized, str_from_utf8, until_nul};
use crate::values::{
    lookup,
    number_from_unsigned,
    unsigned_number,
    ConfigurationValues,
    FieldValue,
    FieldView,
};

verus! {

/// The I2C address of the sensor.
pub const AHTX0_I2CADDR_DEFAULT: u8 = 0x38;

/// The command that starts the sensor's own calibration.
pub const AHTX0_CMD_CALIBRATE: u8 = 0xE1;

/// The command that starts a conversion.
pub const AHTX0_CMD_TRIGGER: u8 = 0xAC;

/// The command that resets the sensor.
pub const AHTX0_CMD_SOFTRESET: u8 = 0xBA;

/// The status bit that is set while the sensor is busy.
pub const AHTX0_STATUS_BUSY: u8 = 0x80;

/// The status bit that is set once the sensor is calibrated.
pub const AHTX0_STATUS_CALIBRATED: u8 = 0x08;

/// The status that stands for a sensor that did not answer: busy, with every
/// other bit set too.
pub const STATUS_UNREADABLE: u8 = 0xFF;

/// How often the driver waits for a busy sensor before it gives up.
pub const RETRY_CEILING: u8 = 10;

/// Milliseconds of one wait.
pub const RETRY_DELAY_MS: u16 = 10;

/// What the driver persists.
#[derive(Clone, Copy, Debug)]
pub struct AHT20SpecialConfiguration {
    pub wait_time: u32,
}

impl AHT20SpecialConfiguration {
    /// The persisted form.
    pub open spec fn encoded(&self) -> Seq<u8> {
        le_bytes(self.wait_time as int, 4) + zeros(28)
    }

    /// The configuration that the partition `bytes` holds.
    pub open spec fn decoded(bytes: Seq<u8>) -> Self {
        AHT20SpecialConfiguration { wait_time: le_value(bytes.subrange(0, 4)) as u32 }
    }

    /// Reads the configuration from its partition.
    pub fn new_from_bytes(bytes: [u8; SENSOR_SETTINGS_PARTITION_SIZE]) -> (config:
        AHT20SpecialConfiguration)
        ensures
            config == Self::decoded(bytes@),
    {
        proof {
            lemma_radix_values();
        }
        AHT20SpecialConfiguration { wait_time: get_unsigned(bytes.as_slice(), 0, 4) as u32 }
    }

    /// A command configures nothing: every command gives the configuration
    /// without a wait.
    pub fn parse_from_values(values: &ConfigurationValues) -> (r: Result<
        AHT20SpecialConfiguration,
        &'static str,
    >)
        ensures
            r matches Ok(config) && config.wait_time == 0,
    {
        Ok(AHT20SpecialConfiguration { wait_time: 0 })
    }

    /// Writes the configuration as its partition.
    pub fn to_bytes(&self) -> (bytes: [u8; SENSOR_SETTINGS_PARTITION_SIZE])
        ensures
            bytes@ == self.encoded(),
    {
        let mut out: Vec<u8> = Vec::new();
        put_unsigned(&mut out, self.wait_time as u128, 4);
        put_zeros(&mut out, 28);
        proof {
            lemma_le_bytes_len(self.wait_time as int, 4);
            assert(out@ =~= self.encoded());
        }
        partition_from(&out)
    }
}

/// A configuration read back from its own persisted form is the same
/// configuration.
pub proof fn lemma_special_round_trip(config: AHT20SpecialConfiguration)
    ensures
        config.encoded().len() == 32,
        AHT20SpecialConfiguration::decoded(config.encoded()) == config,
{
    lemma_radix_values();
    lemma_le_round_trip(config.wait_time as int, 4);
    assert(config.encoded().subrange(0, 4) =~= le_bytes(config.wait_time as int, 4));
}

/// The payload of a configuration command, which the sensor does not have.
pub struct ConfigurationPayload {}

/// Whether a status says that the sensor is busy.
pub open spec fn is_busy(status: u8) -> bool {
    status >= 0x80
}

/// Whether a status says that the sensor is calibrated.
pub open spec fn is_calibrated_status(status: u8) -> bool {
    status / 8 % 2 == 1
}

/// What to do after a status was read.
#[derive(Clone, Copy, Debug, PartialEq, Eq, Structural)]
pub enum PollStep {
    /// The sensor is ready.
    Ready,
    /// The sensor is busy: wait, then read the status again.
    Wait,
    /// The sensor is busy and was waited for as often as allowed.
    GiveUp,
}

/// What to do after the status `status` was read, when the sensor was waited
/// for `waits` times already.
pub open spec fn poll_step(status: u8, waits: u8) -> PollStep {
    if !is_busy(status) {
        PollStep::Ready
    } else if waits < RETRY_CEILING {
        PollStep::Wait
    } else {
        PollStep::GiveUp
    }
}

/// What to do after the status `status` was read, when the sensor was waited
/// for `waits` times already.
pub fn next_poll_step(status: u8, waits: u8) -> (step: PollStep)
    ensures
        step == poll_step(status, waits),
{
    if status < AHTX0_STATUS_BUSY {
        PollStep::Ready
    } else if waits < RETRY_CEILING {
        PollStep::Wait
    } else {
        PollStep::GiveUp
    }
}

/// A sensor that stays busy is given up once it was waited for as often as
/// allowed, and never before.
pub proof fn lemma_busy_sensor_is_given_up(status: u8, waits: u8)
    requires
        is_busy(status),
    ensures
        poll_step(status, waits) == PollStep::GiveUp <==> waits >= RETRY_CEILING,
        poll_step(status, waits) != PollStep::Ready,
{
}

/// The status that the driver goes by after it asked the sensor for its status:
/// the byte that the sensor gave, or, where the bus failed, the status that
/// stands for a sensor that did not answer.
pub fn status_from(reading: Result<u8, ()>) -> (status: u8)
    ensures
        status == match reading {
            Ok(byte) => byte,
            Err(_) => STATUS_UNREADABLE,
        },
{
    match reading {
        Ok(byte) => byte,
        Err(_) => STATUS_UNREADABLE,
    }
}

/// Whether a status says that the sensor is calibrated.
pub fn status_says_calibrated(status: u8) -> (calibrated: bool)
    ensures
        calibrated == is_calibrated_status(status),
{
    status / 8 % 2 == 1
}

/// Whether the sensor answered when it was probed: it took the reset and got
/// ready within the waits that are allowed.
pub open spec fn answered_given(reset: bool, ready: bool) -> bool {
    reset && ready
}

/// Whether the sensor answered when it was probed. A sensor that did not take
/// the reset did not answer, whatever else is known of it.
pub fn probe_answered(reset: bool, ready: bool) -> (answered: bool)
    ensures
        answered == answered_given(reset, ready),
{
    reset && ready
}

/// The reading of a measurement: what was read, where the sensor took the
/// command and got ready, and nothing where it did not, whatever the bus
/// holds.
pub open spec fn reading_given(written: bool, ready: bool, read: Result<[u8; 6], ()>) -> Result<
    [u8; 6],
    (),
> {
    if written && ready {
        read
    } else {
        Err(())
    }
}

/// The reading of a measurement from its three steps: whether the sensor took
/// the command, whether it got ready, and what was read then.
pub fn reading_of(written: bool, ready: bool, read: Result<[u8; 6], ()>) -> (reading: Result<
    [u8; 6],
    (),
>)
    ensures
        reading == reading_given(written, ready, read),
{
    if written && ready {
        read
    } else {
        Err(())
    }
}

/// A sensor that does not take the command, stays busy or fails to answer the
/// read leaves both values unavailable.
pub proof fn lemma_failed_measurement_leaves_nothing(
    written: bool,
    ready: bool,
    read: Result<[u8; 6], ()>,
)
    requires
        !written || !ready || read is Err,
    ensures
        recorded(reading_given(written, ready, read)) == (None::<i64>, None::<i64>),
{
}

/// How a wait for the sensor ended.
#[derive(Clone, Copy, Debug)]
pub struct Readiness {
    /// Whether the sensor got ready.
    pub ready: bool,
    /// How often the driver waited `RETRY_DELAY_MS` milliseconds.
    pub waits: u8,
}

/// The relative humidity that the six bytes of a measurement stand for, in
/// millionths of a percent: the twenty bits behind the status byte, as a share
/// of a hundred percent.
pub open spec fn humidity_micros(data: Seq<u8>) -> int {
    (data[1] * 4096 + data[2] * 16 + data[3] / 16) * 100_000_000 / 1_048_576
}

/// The temperature that the six bytes of a measurement stand for, in millionths
/// of a degree: the last twenty bits, as a share of two hundred degrees from
/// fifty below zero.
pub open spec fn temperature_micros(data: Seq<u8>) -> int {
    (data[3] % 16 * 65536 + data[4] * 256 + data[5]) * 200_000_000 / 1_048_576 - 50_000_000
}

/// The sensor.
#[derive(Clone, Copy, Debug)]
pub struct AHT20 {
    pub general_config: SensorDriverGeneralConfiguration,
    pub special_config: AHT20SpecialConfiguration,
    /// The humidity of the last measurement; nothing where it failed.
    pub humidity: Option<i64>,
    /// The temperature of the last measurement; nothing where it failed.
    pub temperature: Option<i64>,
    /// Whether the sensor answered when it was set up.
    pub enabled: bool,
}

/// The humidity and the temperature after a measurement: both unavailable where
/// the bus failed or the sensor stayed busy.
pub open spec fn recorded(reading: Result<[u8; 6], ()>) -> (Option<i64>, Option<i64>) {
    match reading {
        Ok(data) => (Some(humidity_micros(data@) as i64), Some(temperature_micros(data@) as i64)),
        Err(_) => (None, None),
    }
}

impl AHT20 {
    /// An enabled driver without values.
    pub fn new(
        general_config: SensorDriverGeneralConfiguration,
        special_config: AHT20SpecialConfiguration,
    ) -> (driver: Self)
        ensures
            driver.general_config == general_config,
            driver.special_config == special_config,
            driver.humidity is None,
            driver.temperature is None,
            driver.enabled,
    {
        AHT20 { general_config, special_config, humidity: None, temperature: None, enabled: true }
    }

    /// Reads the status of the sensor. A sensor that does not answer counts as
    /// busy.
    fn get_status<B: RRIVBoard>(board: &mut B) -> (status: u8) {
        let mut buffer: [u8; 1] = [0; 1];
        let reading: Result<u8, ()> = match board.ic2_read(AHTX0_I2CADDR_DEFAULT, &mut buffer) {
            Ok(_) => Ok(buffer[0]),
            Err(_) => Err(()),
        };
        status_from(reading)
    }

    /// Waits until the sensor is ready. The status is read before each wait and
    /// after the last; the driver waits at most `RETRY_CEILING` times, each time
    /// `RETRY_DELAY_MS` milliseconds, and gives up only once it has waited that
    /// often.
    pub fn loop_until_ready<B: RRIVBoard>(board: &mut B) -> (outcome: Readiness)
        ensures
            outcome.waits <= RETRY_CEILING,
            !outcome.ready ==> outcome.waits == RETRY_CEILING,
    {
        let mut waits: u8 = 0;
        loop
            invariant
                waits <= RETRY_CEILING,
            decreases RETRY_CEILING - waits,
        {
            let status: u8 = Self::get_status(board);
            match next_poll_step(status, waits) {
                PollStep::Ready => {
                    return Readiness { ready: true, waits };
                },
                PollStep::GiveUp => {
                    return Readiness { ready: false, waits };
                },
                PollStep::Wait => {
                    board.delay_ms(RETRY_DELAY_MS);
                    waits = waits + 1;
                },
            }
        }
    }

    /// Whether the sensor says that it is calibrated.
    fn is_calibrated<B: RRIVBoard>(board: &mut B) -> bool {
        let status: u8 = Self::get_status(board);
        status_says_calibrated(status)
    }

    /// Has the sensor calibrate itself.
    fn self_calibrate<B: RRIVBoard>(board: &mut B) {
        let command: [u8; 3] = [AHTX0_CMD_CALIBRATE, 0x08, 0x00];
        let _ = board.ic2_write(AHTX0_I2CADDR_DEFAULT, command.as_slice());
        let _ = Self::loop_until_ready(board);
    }

    /// Takes the outcome of probing the sensor at set-up: the driver is enabled
    /// where the sensor took the reset and got ready, and disabled where it
    /// did not.
    pub fn record_probe(&mut self, answered: bool)
        ensures
            *final(self) == (AHT20 { enabled: answered, ..*old(self) }),
    {
        self.enabled = answered;
    }

    /// Takes the outcome of the three steps of a measurement: the values are
    /// those of the bytes that were read, where the sensor took the command,
    /// got ready and answered the read, and unavailable where any of the three
    /// failed.
    pub fn record_measurement(&mut self, written: bool, ready: bool, read: Result<[u8; 6], ()>)
        ensures
            final(self).humidity == recorded(reading_given(written, ready, read)).0,
            final(self).temperature == recorded(reading_given(written, ready, read)).1,
            !written || !ready || read is Err ==> final(self).humidity is None && final(self).temperature is None,
            final(self).general_config == old(self).general_config,
            final(self).special_config == old(self).special_config,
            final(self).enabled == old(self).enabled,
    {
        self.record_data(reading_of(written, ready, read));
    }

    /// Takes the outcome of a measurement. A failed measurement leaves both
    /// values unavailable.
    pub fn record_data(&mut self, reading: Result<[u8; 6], ()>)
        ensures
            final(self).humidity == recorded(reading).0,
            final(self).temperature == recorded(reading).1,
            reading is Err ==> final(self).humidity is None && final(self).temperature is None,
            final(self).general_config == old(self).general_config,
            final(self).special_config == old(self).special_config,
            final(self).enabled == old(self).enabled,
    {
        match reading {
            Ok(data) => {
                let h: i64 = data[1] as i64 * 4096 + data[2] as i64 * 16 + (data[3] / 16) as i64;
                let t: i64 = (data[3] % 16) as i64 * 65536 + data[4] as i64 * 256 + data[5] as i64;
                self.humidity = Some(h * 100_000_000 / 1_048_576);
                self.temperature = Some(t * 200_000_000 / 1_048_576 - 50_000_000);
            },
            Err(_) => {
                self.humidity = None;
                self.temperature = None;
            },
        }
    }
}

impl SensorDriver for AHT20 {
    open spec fn well_formed(&self) -> bool {
        true
    }

    open spec fn general(&self) -> SensorDriverGeneralConfiguration {
        self.general_config
    }

    open spec fn special_bytes(&self) -> Seq<u8> {
        self.special_config.encoded()
    }

    open spec fn parameter_count(&self) -> nat {
        2
    }

    /// A disabled driver has no values.
    open spec fn parameter_value(&self, index: int) -> Option<i64> {
        if !self.enabled {
            None
        } else if index == 0 {
            self.humidity
        } else {
            self.temperature
        }
    }

    open spec fn parameter_name(&self, index: int) -> Seq<u8> {
        if index == 0 {
            "humidity".spec_bytes()
        } else if index == 1 {
            "temperature".spec_bytes()
        } else {
            Seq::<u8>::empty()
        }
    }

    /// The sensor is on the I2C bus, which is shared by address.
    open spec fn requested(&self) -> Set<int> {
        Set::<int>::empty()
    }

    fn get_id(&self) -> (id: [u8; 6]) {
        self.general_config.id
    }

    fn get_type_id(&self) -> (type_id: u16) {
        self.general_config.sensor_type_id
    }

    /// Resets the sensor and waits for it, and has it calibrate itself where it
    /// is not calibrated. A sensor that does not take the reset, or does not
    /// get ready, leaves the driver disabled.
    fn setup<B: RRIVBoard>(&mut self, board: &mut B)
        ensures
            final(self).special_config == old(self).special_config,
            final(self).humidity == old(self).humidity,
            final(self).temperature == old(self).temperature,
    {
        let reset: [u8; 1] = [AHTX0_CMD_SOFTRESET];
        let taken: bool = match board.ic2_write(AHTX0_I2CADDR_DEFAULT, reset.as_slice()) {
            Ok(_) => true,
            Err(_) => false,
        };
        let ready: bool = if taken {
            board.delay_ms(20);
            Self::loop_until_ready(board).ready
        } else {
            false
        };
        self.record_probe(probe_answered(taken, ready));
        if !self.enabled {
            if taken {
                board.serial_debug("AHT20 Not Found");
            }
            return;
        }
        if !Self::is_calibrated(board) {
            Self::self_calibrate(board);
        }
    }

    fn get_measured_parameter_count(&self) -> (count: usize) {
        2
    }

    fn get_measured_parameter_value(&self, index: usize) -> (r: Result<i64, ()>) {
        if !self.enabled || index >= 2 {
            return Err(());
        }
        let value: Option<i64> = if index == 0 {
            self.humidity
        } else {
            self.temperature
        };
        match value {
            Some(value) => Ok(value),
            None => Err(()),
        }
    }

    fn get_measured_parameter_identifier(&self, index: usize) -> (identifier: [u8; 16]) {
        if index == 0 {
            identifier_from("humidity".as_bytes())
        } else if index == 1 {
            identifier_from("temperature".as_bytes())
        } else {
            let empty: [u8; 0] = [];
            identifier_from(empty.as_slice())
        }
    }

    /// Starts a conversion, waits for the sensor, reads the six bytes of the
    /// measurement and records them. A disabled driver does nothing. Where the
    /// bus fails or the sensor stays busy, both values are unavailable.
    fn take_measurement<B: RRIVBoard>(&mut self, board: &mut B)
        ensures
            !old(self).enabled ==> *final(self) == *old(self),
            old(self).enabled ==> exists|reading: Result<[u8; 6], ()>|
                final(self).humidity == recorded(reading).0 && final(self).temperature == recorded(
                    reading,
                ).1,
            final(self).special_config == old(self).special_config,
            final(self).enabled == old(self).enabled,
    {
        if !self.enabled {
            return;
        }
        let command: [u8; 3] = [AHTX0_CMD_TRIGGER, 0x33, 0];
        let written: bool = match board.ic2_write(AHTX0_I2CADDR_DEFAULT, command.as_slice()) {
            Ok(_) => true,
            Err(_) => false,
        };
        let ready: bool = if written {
            Self::loop_until_ready(board).ready
        } else {
            false
        };
        let mut data: [u8; 6] = [0; 6];
        let read: Result<[u8; 6], ()> = if ready {
            match board.ic2_read(AHTX0_I2CADDR_DEFAULT, &mut data) {
                Ok(_) => Ok(data),
                Err(_) => Err(()),
            }
        } else {
            Err(())
        };
        self.record_measurement(written, ready, read);
    }

    fn update_actuators<B: RRIVBoard>(&mut self, board: &mut B)
        ensures
            *final(self) == *old(self),
    {
    }

    /// The sensor is calibrated by itself: every fit is refused.
    fn fit(&mut self, pairs: &[CalibrationPair]) -> (r: Result<(), ()>)
        ensures
            r is Err,
    {
        Err(())
    }

    fn clear_calibration(&mut self)
        ensures
            *final(self) == *old(self),
    {
    }

    fn get_configuration_bytes(&self, storage: &mut [u8; 64]) {
        let general: [u8; 32] = self.general_config.to_bytes();
        let special: [u8; 32] = self.special_config.to_bytes();
        copy_config_into_partition(0, general.as_slice(), storage);
        copy_config_into_partition(1, special.as_slice(), storage);
        proof {
            lemma_both_partitions(old(storage)@, general@, special@);
        }
    }

    /// The report names the slot and the driver and shows the wait.
    fn get_configuration_json(&self) -> (values: ConfigurationValues)
        ensures
            lookup(values.fields@, "wait_time"@) == FieldView::Number(
                unsigned_number(self.special_config.wait_time as u64),
            ),
            lookup(values.fields@, "type"@) == FieldView::Text(
                driver_name(self.general_config.sensor_type_id),
            ),
            lookup(values.fields@, "id"@) matches FieldView::Text(text) && encode_utf8(text)
                == until_nul(sanitized(self.general_config.id@)),
    {
        let mut values = ConfigurationValues::new();
        let mut id: [u8; 6] = self.general_config.id;
        let id_text: String = match str_from_utf8(&mut id) {
            Ok(text) => text.to_owned(),
            Err(_) => "Invalid".to_owned(),
        };
        proof {
            reveal_strlit("id");
            reveal_strlit("type");
            reveal_strlit("wait_time");
            assert("id"@.len() == 2);
            assert("type"@.len() == 4);
            assert("wait_time"@.len() == 9);
        }
        values.set("id", FieldValue::Text(id_text));
        values.set(
            "type",
            FieldValue::Text(name_from_type_id(self.general_config.sensor_type_id).to_owned()),
        );
        values.set(
            "wait_time",
            FieldValue::Number(number_from_unsigned(self.special_config.wait_time as u64)),
        );
        values
    }

    fn get_requested_gpios(&self) -> (request: GpioRequest) {
        GpioRequest::none()
    }

    fn receive_message(&mut self, message: Option<[u8; 50]>)
        ensures
            *final(self) == *old(self),
    {
    }

    fn receive_modbus(&mut self, response: &ModbusResponse)
        ensures
            *final(self) == *old(self),
    {
    }
}

} // verus!
