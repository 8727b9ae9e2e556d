//! A switched output with an on/off period and a duty cycle while on: a heater,
//! a pump, a valve.
//!
//! The outer period runs on wall-clock seconds. While the output is on, it is
//! driven high for a share of a shorter period and low for the rest; that duty
//! cycle runs on the board's millisecond counter, which wraps.

use vstd::prelude::*;
use vstd::string::StringSliceAdditionalSpecFns;
use vstd::utf8::encode_utf8;
use crate::board::{GpioMode, RRIVBoard};
use crate::drivers::codec::{
    get_unsigned,
    le_bytes,
    le_value,
    lemma_le_bytes_len,
    lemma_le_round_trip,
    lemma_radix_values,
    put_unsigned,
    put_zeros,
    zeros,
};
use crate::drivers::resources::gpio::GpioRequest;
use crate::drivers::types::{
    agrees,
    bool_field,
    copy_config_into_partition,
    identifier_from,
    lemma_both_partitions,
    partition_from,
    read_bool,
    read_unsigned,
    unsigned_field,
    CalibrationPair,
    ModbusResponse,
    SensorDriver,
    SensorDriverGeneralConfiguration,
    SENSOR_SETTINGS_PARTITION_SIZE,
};
use crate::registry::{driver_name, name_from_type_id};
use crate::util::{sanitized, str_from_utf8, until_nul};
use crate::values::{
    lookup,
    micros_number,
    number_from_micros,
    number_from_unsigned,
    unsigned_number,
    ConfigurationValues,
    Field,
    FieldValue,
    FieldView,
};

verus! {

/// What a timed switch persists.
#[derive(Clone, Copy, Debug)]
pub struct TimedSwitch2SpecialConfiguration {
    /// Seconds that the output stays on.
    pub on_time_s: u32,
    /// Seconds that the output stays off.
    pub off_time_s: u32,
    /// The pin that is switched, 1 to 8.
    pub gpio_pin: u8,
    /// Whether the output starts on.
    pub initial_state: bool,
    /// Length of one duty cycle, in millionths of a second.
    pub period_micros: u64,
    /// Share of a duty cycle for which the output is high, in millionths.
    pub ratio_micros: u32,
}

/// How the pin of a timed switch is read from its field.
pub open spec fn pin_field(value: FieldView) -> Result<u8, Seq<char>> {
    match value {
        FieldView::Number(number) => match number.unsigned {
            Some(n) => if 1 <= n <= 8 {
                Ok(n as u8)
            } else {
                Err("invalid pin"@)
            },
            None => Err("invalid pin"@),
        },
        _ => Err("gpio pin is required"@),
    }
}

/// How the duty period is read from its field, given in seconds.
pub open spec fn period_field(value: FieldView) -> Result<u64, Seq<char>> {
    match value {
        FieldView::Number(number) => if number.micros <= 0 {
            Err("period is invalid"@)
        } else {
            Ok(number.micros as u64)
        },
        _ => Err("period is required"@),
    }
}

/// How the duty ratio is read from its field, a number from 0 to 1.
pub open spec fn ratio_field(value: FieldView) -> Result<u32, Seq<char>> {
    match value {
        FieldView::Number(number) => if 0 <= number.micros <= 1_000_000 {
            Ok(number.micros as u32)
        } else {
            Err("ratio is invalid"@)
        },
        _ => Err("ratio is invalid"@),
    }
}

/// The configuration that the fields of a command give, or the error of the
/// first field that is refused. The fields are read in the order `on_time_s`,
/// `off_time_s`, `gpio_pin`, `initial_state`, `period`, `ratio`.
pub open spec fn parsed(fields: Seq<Field>) -> Result<TimedSwitch2SpecialConfiguration, Seq<char>> {
    let on_time = unsigned_field(
        lookup(fields, "on_time_s"@),
        10,
        "invalid on time"@,
        Some("on time is required"@),
    );
    let off_time = unsigned_field(
        lookup(fields, "off_time_s"@),
        10,
        "invalid off time"@,
        Some("off time is required"@),
    );
    let pin = pin_field(lookup(fields, "gpio_pin"@));
    let initial = bool_field(lookup(fields, "initial_state"@), "initial state is required"@);
    let period = period_field(lookup(fields, "period"@));
    let ratio = ratio_field(lookup(fields, "ratio"@));
    if on_time is Err {
        Err(on_time->Err_0)
    } else if off_time is Err {
        Err(off_time->Err_0)
    } else if pin is Err {
        Err(pin->Err_0)
    } else if initial is Err {
        Err(initial->Err_0)
    } else if period is Err {
        Err(period->Err_0)
    } else if ratio is Err {
        Err(ratio->Err_0)
    } else {
        Ok(
            TimedSwitch2SpecialConfiguration {
                on_time_s: on_time->Ok_0,
                off_time_s: off_time->Ok_0,
                gpio_pin: pin->Ok_0,
                initial_state: initial->Ok_0,
                period_micros: period->Ok_0,
                ratio_micros: ratio->Ok_0,
            },
        )
    }
}

impl TimedSwitch2SpecialConfiguration {
    /// What the parser can give: a pin that exists, a period that is positive,
    /// a ratio of at most one.
    pub open spec fn valid(&self) -> bool {
        &&& 1 <= self.gpio_pin <= 8
        &&& 1 <= self.period_micros <= i64::MAX
        &&& self.ratio_micros <= 1_000_000
    }

    /// The persisted form.
    pub open spec fn encoded(&self) -> Seq<u8> {
        le_bytes(self.on_time_s as int, 4) + le_bytes(self.off_time_s as int, 4) + seq![
            self.gpio_pin,
            if self.initial_state {
                1u8
            } else {
                0u8
            },
        ] + le_bytes(self.period_micros as int, 8) + le_bytes(self.ratio_micros as int, 4)
            + zeros(10)
    }

    /// The configuration that the partition `bytes` holds.
    pub open spec fn decoded(bytes: Seq<u8>) -> Self {
        TimedSwitch2SpecialConfiguration {
            on_time_s: le_value(bytes.subrange(0, 4)) as u32,
            off_time_s: le_value(bytes.subrange(4, 8)) as u32,
            gpio_pin: bytes[8],
            initial_state: bytes[9] % 2 == 1,
            period_micros: le_value(bytes.subrange(10, 18)) as u64,
            ratio_micros: le_value(bytes.subrange(18, 22)) as u32,
        }
    }

    /// The fields of a configuration report show this configuration.
    pub open spec fn shown_by(&self, fields: Seq<Field>) -> bool {
        &&& lookup(fields, "on_time_s"@) == FieldView::Number(
            unsigned_number(self.on_time_s as u64),
        )
        &&& lookup(fields, "off_time_s"@) == FieldView::Number(
            unsigned_number(self.off_time_s as u64),
        )
        &&& lookup(fields, "gpio_pin"@) == FieldView::Number(unsigned_number(self.gpio_pin as u64))
        &&& lookup(fields, "initial_state"@) == FieldView::Bool(self.initial_state)
        &&& lookup(fields, "period"@) == FieldView::Number(
            micros_number(
                if self.period_micros <= i64::MAX {
                    self.period_micros as i64
                } else {
                    i64::MAX
                },
            ),
        )
        &&& lookup(fields, "ratio"@) == FieldView::Number(micros_number(self.ratio_micros as i64))
    }

    /// Reads the configuration from the fields of a command.
    pub fn parse_from_values(values: &ConfigurationValues) -> (r: Result<
        TimedSwitch2SpecialConfiguration,
        &'static str,
    >)
        ensures
            agrees(r, parsed(values.fields@)),
            r matches Ok(config) ==> config.valid(),
    {
        let on_time_s: u32 = match read_unsigned(
            values,
            "on_time_s",
            10,
            "invalid on time",
            Some("on time is required"),
        ) {
            Ok(n) => n,
            Err(message) => { return Err(message); },
        };
        let off_time_s: u32 = match read_unsigned(
            values,
            "off_time_s",
            10,
            "invalid off time",
            Some("off time is required"),
        ) {
            Ok(n) => n,
            Err(message) => { return Err(message); },
        };
        let gpio_pin: u8 = match values.get("gpio_pin") {
            Some(FieldValue::Number(number)) => match number.unsigned {
                Some(n) => if 1 <= n && n <= 8 {
                    n as u8
                } else {
                    return Err("invalid pin");
                },
                None => { return Err("invalid pin"); },
            },
            _ => { return Err("gpio pin is required"); },
        };
        let initial_state: bool = match read_bool(
            values,
            "initial_state",
            "initial state is required",
        ) {
            Ok(b) => b,
            Err(message) => { return Err(message); },
        };
        let period_micros: u64 = match values.get("period") {
            Some(FieldValue::Number(number)) => if number.micros <= 0 {
                return Err("period is invalid");
            } else {
                number.micros as u64
            },
            _ => { return Err("period is required"); },
        };
        let ratio_micros: u32 = match values.get("ratio") {
            Some(FieldValue::Number(number)) => if 0 <= number.micros && number.micros
                <= 1_000_000 {
                number.micros as u32
            } else {
                return Err("ratio is invalid");
            },
            _ => { return Err("ratio is invalid"); },
        };
        Ok(
            TimedSwitch2SpecialConfiguration {
                on_time_s,
                off_time_s,
                gpio_pin,
                initial_state,
                period_micros,
                ratio_micros,
            },
        )
    }

    /// Reads the configuration from its partition.
    pub fn new_from_bytes(bytes: [u8; SENSOR_SETTINGS_PARTITION_SIZE]) -> (config:
        TimedSwitch2SpecialConfiguration)
        ensures
            config == Self::decoded(bytes@),
    {
        proof {
            lemma_radix_values();
        }
        TimedSwitch2SpecialConfiguration {
            on_time_s: get_unsigned(bytes.as_slice(), 0, 4) as u32,
            off_time_s: get_unsigned(bytes.as_slice(), 4, 4) as u32,
            gpio_pin: bytes[8],
            initial_state: bytes[9] % 2 == 1,
            period_micros: get_unsigned(bytes.as_slice(), 10, 8) as u64,
            ratio_micros: get_unsigned(bytes.as_slice(), 18, 4) as u32,
        }
    }

    /// Writes the configuration as its partition.
    pub fn to_bytes(&self) -> (bytes: [u8; SENSOR_SETTINGS_PARTITION_SIZE])
        ensures
            bytes@ == self.encoded(),
    {
        let mut out: Vec<u8> = Vec::new();
        put_unsigned(&mut out, self.on_time_s as u128, 4);
        put_unsigned(&mut out, self.off_time_s as u128, 4);
        out.push(self.gpio_pin);
        out.push(if self.initial_state { 1 } else { 0 });
        put_unsigned(&mut out, self.period_micros as u128, 8);
        put_unsigned(&mut out, self.ratio_micros as u128, 4);
        put_zeros(&mut out, 10);
        proof {
            lemma_le_bytes_len(self.on_time_s as int, 4);
            lemma_le_bytes_len(self.off_time_s as int, 4);
            lemma_le_bytes_len(self.period_micros as int, 8);
            lemma_le_bytes_len(self.ratio_micros as int, 4);
            assert(out@ =~= self.encoded());
        }
        partition_from(&out)
    }
}

/// A configuration read back from its own persisted form is the same
/// configuration.
pub proof fn lemma_special_round_trip(config: TimedSwitch2SpecialConfiguration)
    ensures
        config.encoded().len() == 32,
        TimedSwitch2SpecialConfiguration::decoded(config.encoded()) == config,
{
    lemma_radix_values();
    lemma_le_round_trip(config.on_time_s as int, 4);
    lemma_le_round_trip(config.off_time_s as int, 4);
    lemma_le_round_trip(config.period_micros as int, 8);
    lemma_le_round_trip(config.ratio_micros as int, 4);
    let bytes = config.encoded();
    assert(bytes.subrange(0, 4) =~= le_bytes(config.on_time_s as int, 4));
    assert(bytes.subrange(4, 8) =~= le_bytes(config.off_time_s as int, 4));
    assert(bytes.subrange(10, 18) =~= le_bytes(config.period_micros as int, 8));
    assert(bytes.subrange(18, 22) =~= le_bytes(config.ratio_micros as int, 4));
}

/// A configuration that the parser can give is read again from the report that
/// shows it.
pub proof fn lemma_report_round_trip(config: TimedSwitch2SpecialConfiguration, fields: Seq<Field>)
    requires
        config.valid(),
        config.shown_by(fields),
    ensures
        parsed(fields) == Ok::<TimedSwitch2SpecialConfiguration, Seq<char>>(config),
{
}

/// Milliseconds of a duty cycle, at most what the counter can hold.
pub open spec fn duty_total_millis(period_micros: u64) -> int {
    if period_micros / 1000 <= u32::MAX {
        (period_micros / 1000) as int
    } else {
        u32::MAX as int
    }
}

/// Milliseconds of a duty cycle for which the output is high: the share
/// `ratio_micros` of the period, rounded down.
pub open spec fn duty_on_millis(period_micros: u64, ratio_micros: u32) -> int {
    let ratio = if ratio_micros <= 1_000_000 {
        ratio_micros as int
    } else {
        1_000_000
    };
    let on = period_micros * ratio / 1_000_000_000;
    if on <= duty_total_millis(period_micros) {
        on
    } else {
        duty_total_millis(period_micros)
    }
}

/// Milliseconds from `then` to `now` on a counter of 32 bits that wraps.
pub open spec fn wrapped_elapsed(now: u32, then: u32) -> int {
    if now >= then {
        now - then
    } else {
        now - then + 0x1_0000_0000
    }
}

/// Milliseconds from `then` to `now` on a counter of 32 bits that wraps.
pub fn elapsed_millis(now: u32, then: u32) -> (elapsed: u32)
    ensures
        elapsed == wrapped_elapsed(now, then),
{
    if now >= then {
        now - then
    } else {
        (u32::MAX - then) + (now + 1)
    }
}

/// A timed switch.
#[derive(Clone, Copy, Debug)]
pub struct TimedSwitch2 {
    pub general_config: SensorDriverGeneralConfiguration,
    pub special_config: TimedSwitch2SpecialConfiguration,
    /// 0 while the output is off, 1 while it is on.
    pub state: u8,
    /// Wall-clock second of the last change between on and off.
    pub last_state_updated_at: i64,
    /// Whether the output is in the high phase of its duty cycle.
    pub duty_cycle_state: bool,
    /// Reading of the millisecond counter at the last change of phase.
    pub last_duty_cycle_update: u32,
    /// Milliseconds of the high phase.
    pub duty_cycle_on_time: u32,
    /// Milliseconds of the low phase.
    pub duty_cycle_off_time: u32,
}

/// The switch as `setup` leaves it at wall-clock second `timestamp` and counter
/// reading `millis`: in its initial state, at the start of a phase.
pub open spec fn started(switch: TimedSwitch2, timestamp: i64, millis: u32) -> TimedSwitch2 {
    let on = duty_on_millis(switch.special_config.period_micros, switch.special_config.ratio_micros);
    TimedSwitch2 {
        state: if switch.special_config.initial_state {
            1
        } else {
            0
        },
        last_state_updated_at: timestamp,
        duty_cycle_state: switch.special_config.initial_state,
        last_duty_cycle_update: millis,
        duty_cycle_on_time: on as u32,
        duty_cycle_off_time: (duty_total_millis(switch.special_config.period_micros) - on) as u32,
        ..switch
    }
}

/// One step of the switch at wall-clock second `timestamp` and counter reading
/// `millis`: the switch after the step, and the level to drive the pin to where
/// it changes.
///
/// While off, the switch turns on once more than `off_time_s` seconds have
/// passed since it turned off. While on, it turns off once more than
/// `on_time_s` seconds have passed since it turned on; until then its phase
/// changes whenever the current phase has lasted its time. Each change between
/// on and off starts a phase anew.
pub open spec fn stepped(switch: TimedSwitch2, timestamp: i64, millis: u32) -> (
    TimedSwitch2,
    Option<bool>,
) {
    let since_change = timestamp - switch.last_state_updated_at;
    let in_phase = wrapped_elapsed(millis, switch.last_duty_cycle_update);
    if switch.state == 0 {
        if since_change > switch.special_config.off_time_s {
            (
                TimedSwitch2 {
                    state: 1,
                    last_state_updated_at: timestamp,
                    duty_cycle_state: true,
                    last_duty_cycle_update: millis,
                    ..switch
                },
                Some(true),
            )
        } else {
            (switch, None)
        }
    } else if since_change > switch.special_config.on_time_s {
        (
            TimedSwitch2 {
                state: 0,
                last_state_updated_at: timestamp,
                duty_cycle_state: false,
                last_duty_cycle_update: millis,
                ..switch
            },
            Some(false),
        )
    } else if switch.duty_cycle_state && in_phase >= switch.duty_cycle_on_time {
        (
            TimedSwitch2 { duty_cycle_state: false, last_duty_cycle_update: millis, ..switch },
            Some(false),
        )
    } else if !switch.duty_cycle_state && in_phase >= switch.duty_cycle_off_time {
        (
            TimedSwitch2 { duty_cycle_state: true, last_duty_cycle_update: millis, ..switch },
            Some(true),
        )
    } else {
        (switch, None)
    }
}

impl TimedSwitch2 {
    /// A switch that is off and has not been set up.
    pub fn new(
        general_config: SensorDriverGeneralConfiguration,
        special_config: TimedSwitch2SpecialConfiguration,
    ) -> (switch: Self)
        ensures
            switch.general_config == general_config,
            switch.special_config == special_config,
            switch.state == 0,
            switch.last_state_updated_at == 0,
            !switch.duty_cycle_state,
            switch.last_duty_cycle_update == 0,
            switch.duty_cycle_on_time == 0,
            switch.duty_cycle_off_time == 0,
    {
        TimedSwitch2 {
            general_config,
            special_config,
            state: 0,
            last_state_updated_at: 0,
            duty_cycle_state: false,
            last_duty_cycle_update: 0,
            duty_cycle_on_time: 0,
            duty_cycle_off_time: 0,
        }
    }

    /// Milliseconds of the high and of the low phase of a duty cycle.
    pub fn duty_times(&self) -> (times: (u32, u32))
        ensures
            times.0 == duty_on_millis(
                self.special_config.period_micros,
                self.special_config.ratio_micros,
            ),
            times.0 + times.1 == duty_total_millis(self.special_config.period_micros),
    {
        let period: u64 = self.special_config.period_micros;
        let total: u32 = if period / 1000 <= u32::MAX as u64 {
            (period / 1000) as u32
        } else {
            u32::MAX
        };
        let ratio: u128 = if self.special_config.ratio_micros <= 1_000_000 {
            self.special_config.ratio_micros as u128
        } else {
            1_000_000
        };
        assert(period as u128 * ratio <= 0xFFFF_FFFF_FFFF_FFFF * 1_000_000) by (nonlinear_arith)
            requires
                period <= 0xFFFF_FFFF_FFFF_FFFF,
                ratio <= 1_000_000,
        ;
        let share: u128 = (period as u128) * ratio / 1_000_000_000;
        let on: u32 = if share <= total as u128 {
            share as u32
        } else {
            total
        };
        (on, total - on)
    }

    /// Puts the switch in its initial state, at the start of a phase.
    pub fn start(&mut self, timestamp: i64, millis: u32)
        ensures
            *final(self) == started(*old(self), timestamp, millis),
    {
        let times: (u32, u32) = self.duty_times();
        self.state = if self.special_config.initial_state {
            1
        } else {
            0
        };
        self.last_state_updated_at = timestamp;
        self.duty_cycle_state = self.special_config.initial_state;
        self.last_duty_cycle_update = millis;
        self.duty_cycle_on_time = times.0;
        self.duty_cycle_off_time = times.1;
    }

    /// Advances the switch to wall-clock second `timestamp` and counter reading
    /// `millis`, and says to which level the pin is to be driven, if it
    /// changes.
    pub fn step(&mut self, timestamp: i64, millis: u32) -> (action: Option<bool>)
        ensures
            (*final(self), action) == stepped(*old(self), timestamp, millis),
    {
        let since_change: i128 = timestamp as i128 - self.last_state_updated_at as i128;
        let in_phase: u32 = elapsed_millis(millis, self.last_duty_cycle_update);
        if self.state == 0 {
            if since_change > self.special_config.off_time_s as i128 {
                self.state = 1;
                self.last_state_updated_at = timestamp;
                self.duty_cycle_state = true;
                self.last_duty_cycle_update = millis;
                Some(true)
            } else {
                None
            }
        } else if since_change > self.special_config.on_time_s as i128 {
            self.state = 0;
            self.last_state_updated_at = timestamp;
            self.duty_cycle_state = false;
            self.last_duty_cycle_update = millis;
            Some(false)
        } else if self.duty_cycle_state && in_phase >= self.duty_cycle_on_time {
            self.duty_cycle_state = false;
            self.last_duty_cycle_update = millis;
            Some(false)
        } else if !self.duty_cycle_state && in_phase >= self.duty_cycle_off_time {
            self.duty_cycle_state = true;
            self.last_duty_cycle_update = millis;
            Some(true)
        } else {
            None
        }
    }
}

impl SensorDriver for TimedSwitch2 {
    open spec fn well_formed(&self) -> bool {
        self.state <= 1
    }

    open spec fn general(&self) -> SensorDriverGeneralConfiguration {
        self.general_config
    }

    open spec fn special_bytes(&self) -> Seq<u8> {
        self.special_config.encoded()
    }

    open spec fn parameter_count(&self) -> nat {
        1
    }

    /// The one parameter is the state of the output: one while on, zero while
    /// off.
    open spec fn parameter_value(&self, index: int) -> Option<i64> {
        Some((self.state as int * 1_000_000) as i64)
    }

    open spec fn parameter_name(&self, index: int) -> Seq<u8> {
        "heater".spec_bytes()
    }

    open spec fn requested(&self) -> Set<int> {
        if 1 <= self.special_config.gpio_pin <= 8 {
            Set::<int>::empty().insert(self.special_config.gpio_pin - 1)
        } else {
            Set::<int>::empty()
        }
    }

    fn get_id(&self) -> (id: [u8; 6]) {
        self.general_config.id
    }

    fn get_type_id(&self) -> (type_id: u16) {
        self.general_config.sensor_type_id
    }

    /// Makes the pin an output, drives it to its initial level and starts the
    /// clocks of the switch at what the board's clocks show.
    fn setup<B: RRIVBoard>(&mut self, board: &mut B)
        ensures
            exists|timestamp: i64, millis: u32|
                *final(self) == started(*old(self), timestamp, millis),
    {
        board.set_gpio_pin_mode(self.special_config.gpio_pin, GpioMode::PushPullOutput);
        board.write_gpio_pin(self.special_config.gpio_pin, self.special_config.initial_state);
        let timestamp: i64 = board.timestamp();
        let millis: u32 = board.millis();
        self.start(timestamp, millis);
    }

    fn get_measured_parameter_count(&self) -> (count: usize) {
        1
    }

    fn get_measured_parameter_value(&self, index: usize) -> (r: Result<i64, ()>) {
        if index < 1 {
            Ok(self.state as i64 * 1_000_000)
        } else {
            Err(())
        }
    }

    fn get_measured_parameter_identifier(&self, index: usize) -> (identifier: [u8; 16]) {
        identifier_from("heater".as_bytes())
    }

    fn take_measurement<B: RRIVBoard>(&mut self, board: &mut B)
        ensures
            *final(self) == *old(self),
    {
    }

    /// Reads the board's clocks, makes one step, and drives the pin where the
    /// step says so.
    fn update_actuators<B: RRIVBoard>(&mut self, board: &mut B)
        ensures
            exists|timestamp: i64, millis: u32|
                *final(self) == stepped(*old(self), timestamp, millis).0,
    {
        let timestamp: i64 = board.timestamp();
        let millis: u32 = board.millis();
        match self.step(timestamp, millis) {
            Some(level) => {
                board.write_gpio_pin(self.special_config.gpio_pin, level);
            },
            None => {},
        }
    }

    /// A switch has nothing to calibrate: every fit is refused.
    fn fit(&mut self, pairs: &[CalibrationPair]) -> (r: Result<(), ()>)
        ensures
            r is Err,
    {
        Err(())
    }

    fn clear_calibration(&mut self)
        ensures
            *final(self) == *old(self),
    {
    }

    fn get_configuration_bytes(&self, storage: &mut [u8; 64]) {
        let general: [u8; 32] = self.general_config.to_bytes();
        let special: [u8; 32] = self.special_config.to_bytes();
        copy_config_into_partition(0, general.as_slice(), storage);
        copy_config_into_partition(1, special.as_slice(), storage);
        proof {
            lemma_both_partitions(old(storage)@, general@, special@);
        }
    }

    /// The report names the slot and the driver and shows every field of the
    /// configuration.
    fn get_configuration_json(&self) -> (values: ConfigurationValues)
        ensures
            self.special_config.shown_by(values.fields@),
            lookup(values.fields@, "type"@) == FieldView::Text(
                driver_name(self.general_config.sensor_type_id),
            ),
            lookup(values.fields@, "id"@) matches FieldView::Text(text) && encode_utf8(text)
                == until_nul(sanitized(self.general_config.id@)),
    {
        let mut values = ConfigurationValues::new();
        let mut id: [u8; 6] = self.general_config.id;
        let id_text: String = match str_from_utf8(&mut id) {
            Ok(text) => text.to_owned(),
            Err(_) => "Invalid".to_owned(),
        };
        let period: i64 = if self.special_config.period_micros <= i64::MAX as u64 {
            self.special_config.period_micros as i64
        } else {
            i64::MAX
        };
        proof {
            reveal_strlit("id");
            reveal_strlit("type");
            reveal_strlit("on_time_s");
            reveal_strlit("off_time_s");
            reveal_strlit("gpio_pin");
            reveal_strlit("initial_state");
            reveal_strlit("period");
            reveal_strlit("ratio");
            assert("id"@.len() == 2);
            assert("type"@.len() == 4);
            assert("on_time_s"@.len() == 9);
            assert("off_time_s"@.len() == 10);
            assert("gpio_pin"@.len() == 8);
            assert("initial_state"@.len() == 13);
            assert("period"@.len() == 6);
            assert("ratio"@.len() == 5);
        }
        values.set("id", FieldValue::Text(id_text));
        values.set(
            "type",
            FieldValue::Text(name_from_type_id(self.general_config.sensor_type_id).to_owned()),
        );
        values.set(
            "on_time_s",
            FieldValue::Number(number_from_unsigned(self.special_config.on_time_s as u64)),
        );
        values.set(
            "off_time_s",
            FieldValue::Number(number_from_unsigned(self.special_config.off_time_s as u64)),
        );
        values.set(
            "gpio_pin",
            FieldValue::Number(number_from_unsigned(self.special_config.gpio_pin as u64)),
        );
        values.set("initial_state", FieldValue::Bool(self.special_config.initial_state));
        values.set("period", FieldValue::Number(number_from_micros(period)));
        values.set(
            "ratio",
            FieldValue::Number(number_from_micros(self.special_config.ratio_micros as i64)),
        );
        values
    }

    fn get_requested_gpios(&self) -> (request: GpioRequest) {
        let mut request = GpioRequest::none();
        request.use_pin(self.special_config.gpio_pin);
        request
    }

    fn receive_message(&mut self, message: Option<[u8; 50]>)
        ensures
            *final(self) == *old(self),
    {
    }

    fn receive_modbus(&mut self, response: &ModbusResponse)
        ensures
            *final(self) == *old(self),
    {
    }
}

} // verus!
