//! The drivers against a board that is scripted.

use std::collections::VecDeque;

use rriv_datalogger::board::{GpioMode, HardwareError, RRIVBoard, RXProcessor, SerialRxPeripheral};
use rriv_datalogger::drivers::adc_temperature::{
    ADCTemperatureDriver, ADCTemperatureDriverSpecialConfiguration,
};
use rriv_datalogger::drivers::aht20::{
    next_poll_step, probe_answered, reading_of, status_from, status_says_calibrated,
    AHT20SpecialConfiguration, PollStep,
    AHT20, RETRY_CEILING, RETRY_DELAY_MS,
};
use rriv_datalogger::drivers::atlas_ec::{
    reading_is_there, registers_read, AtlasEC, AtlasECSpecialConfiguration,
};
use rriv_datalogger::drivers::basic_evo::{
    checksum_calculator, line_of, BasicEvo, BasicEvoSpecialConfiguration,
};
use rriv_datalogger::drivers::calibration::LinearCalibration;
use rriv_datalogger::drivers::ds18b20::{Ds18b20, Ds18b20SpecialConfiguration, Resolution};
use rriv_datalogger::drivers::mcp9808::{
    MCP9808TemperatureDriver, MCP9808TemperatureDriverSpecialConfiguration,
};
use rriv_datalogger::drivers::modbus::{ModbusDriver, ModbusDriverSpecialConfiguration};
use rriv_datalogger::drivers::ring_temperature::{
    channel_select, RingTemperatureDriver, RingTemperatureDriverSpecialConfiguration,
};
use rriv_datalogger::drivers::timed_switch_2::{
    elapsed_millis, TimedSwitch2, TimedSwitch2SpecialConfiguration,
};
use rriv_datalogger::drivers::types::{
    CalibrationPair, ModbusResponse, SensorDriver, SensorDriverGeneralConfiguration,
};

#[derive(Default)]
struct MockBoard {
    now_s: i64,
    now_ms: u32,
    delays: Vec<u16>,
    gpio_writes: Vec<(u32, u8, bool)>,
    gpio_modes: Vec<(u8, GpioMode)>,
    i2c_reads: VecDeque<Result<Vec<u8>, ()>>,
    i2c_default_read: Option<Vec<u8>>,
    i2c_write_fails: bool,
    i2c_writes: Vec<(u8, Vec<u8>)>,
    one_wire_reply: Option<Vec<u8>>,
    one_wire_written: Vec<u8>,
    usart_sent: Vec<Vec<u8>>,
    debug_lines: Vec<String>,
    temp_adc: i32,
    installed: Vec<SerialRxPeripheral>,
    calls: Vec<&'static str>,
}

impl MockBoard {
    fn fill(buffer: &mut [u8], reply: Result<Vec<u8>, ()>) -> Result<(), ()> {
        match reply {
            Ok(bytes) => {
                for (place, byte) in buffer.iter_mut().zip(bytes.iter()) {
                    *place = *byte;
                }
                Ok(())
            }
            Err(()) => Err(()),
        }
    }

    fn next_read(&mut self) -> Result<Vec<u8>, ()> {
        match self.i2c_reads.pop_front() {
            Some(reply) => reply,
            None => match &self.i2c_default_read {
                Some(bytes) => Ok(bytes.clone()),
                None => Err(()),
            },
        }
    }
}

impl RRIVBoard for MockBoard {
    fn run_loop_iteration(&mut self) {}
    fn set_serial_rx_processor(&mut self, peripheral: SerialRxPeripheral, _processor: Box<dyn RXProcessor>) {
        self.installed.push(peripheral);
    }
    fn store_datalogger_settings(&mut self, _bytes: &[u8; 64]) {}
    fn retrieve_datalogger_settings(&mut self, _buffer: &mut [u8; 64]) {}
    fn store_sensor_settings(&mut self, _slot: u8, _bytes: &[u8; 64]) {}
    fn retrieve_sensor_settings(&mut self, _buffer: &mut [u8; 768]) {}
    fn set_debug(&mut self, _debug: bool) {}
    fn write_log_file(&mut self, _text: &str) {}
    fn flush_log_file(&mut self) {}
    fn set_epoch(&mut self, epoch: i64) {
        self.now_s = epoch;
    }
    fn epoch_timestamp(&mut self) -> i64 {
        self.now_s
    }
    fn get_millis(&mut self) -> u32 {
        self.now_ms
    }
    fn usb_serial_send(&mut self, _text: &str) {}
    fn usart_send(&mut self, bytes: &[u8]) {
        self.usart_sent.push(bytes.to_vec());
    }
    fn rs485_send(&mut self, _message: &[u8]) {}
    fn serial_debug(&mut self, text: &str) {
        self.debug_lines.push(text.to_string());
    }
    fn delay_ms(&mut self, ms: u16) {
        self.delays.push(ms);
        self.now_ms = self.now_ms.wrapping_add(ms as u32);
    }
    fn timestamp(&mut self) -> i64 {
        self.now_s
    }
    fn millis(&mut self) -> u32 {
        self.now_ms
    }
    fn get_battery_level(&mut self) -> i16 {
        0
    }
    fn sleep(&mut self) {}
    fn dump_eeprom(&mut self) {}
    fn get_uid(&mut self) -> [u8; 12] {
        [0; 12]
    }
    fn set_serial_number(&mut self, _serial_number: [u8; 5]) -> bool {
        false
    }
    fn get_serial_number(&mut self) -> [u8; 5] {
        [0; 5]
    }
    fn query_internal_adc(&mut self, _port: u8) -> u16 {
        0
    }
    fn query_external_adc(&mut self, _port: u8) -> u16 {
        0
    }
    fn ic2_read(&mut self, _addr: u8, buffer: &mut [u8]) -> Result<(), ()> {
        self.calls.push("ic2_read");
        let reply = self.next_read();
        MockBoard::fill(buffer, reply)
    }
    fn ic2_write(&mut self, addr: u8, message: &[u8]) -> Result<(), ()> {
        self.calls.push("ic2_write");
        self.i2c_writes.push((addr, message.to_vec()));
        if self.i2c_write_fails {
            Err(())
        } else {
            Ok(())
        }
    }
    fn ic2_write_read(&mut self, addr: u8, message: &[u8], buffer: &mut [u8]) -> Result<(), ()> {
        self.calls.push("ic2_write_read");
        self.i2c_writes.push((addr, message.to_vec()));
        if self.i2c_write_fails {
            return Err(());
        }
        let reply = self.next_read();
        MockBoard::fill(buffer, reply)
    }
    fn write_gpio_pin(&mut self, pin: u8, value: bool) {
        self.gpio_writes.push((self.now_ms, pin, value));
    }
    fn write_pwm_pin_duty(&mut self, _value: u8) {}
    fn read_gpio_pin(&mut self, _pin: u8) -> Result<bool, ()> {
        Err(())
    }
    fn set_gpio_pin_mode(&mut self, pin: u8, mode: GpioMode) {
        self.gpio_modes.push((pin, mode));
    }
    fn one_wire_send_command(&mut self, _command: u8, _address: u64) {}
    fn one_wire_reset(&mut self) {}
    fn one_wire_skip_address(&mut self) {}
    fn one_wire_write_byte(&mut self, byte: u8) {
        self.one_wire_written.push(byte);
    }
    fn one_wire_match_address(&mut self, _address: u64) {}
    fn one_wire_read_bytes(&mut self, output: &mut [u8]) -> Result<(), ()> {
        match self.one_wire_reply.clone() {
            Some(bytes) => MockBoard::fill(output, Ok(bytes)),
            None => Err(()),
        }
    }
    fn one_wire_bus_start_search(&mut self) {}
    fn one_wire_bus_search(&mut self) -> Option<u64> {
        None
    }
    fn read_temp_adc(&mut self) -> i32 {
        self.temp_adc
    }
    fn disable_interrupts(&self) {}
    fn enable_interrupts(&self) {}
    fn get_errors(&self) -> [HardwareError; 5] {
        [HardwareError::NoError; 5]
    }
    fn error_alarm(&mut self) {}
}

fn general(name: &[u8], type_id: u16) -> SensorDriverGeneralConfiguration {
    let mut id = [0u8; 6];
    id[..name.len()].copy_from_slice(name);
    SensorDriverGeneralConfiguration::new(id, type_id)
}

fn label(text: &str) -> [u8; 16] {
    let mut bytes = [0u8; 16];
    bytes[..text.len()].copy_from_slice(text.as_bytes());
    bytes
}

fn heater() -> TimedSwitch2 {
    TimedSwitch2::new(
        general(b"heat", 9),
        TimedSwitch2SpecialConfiguration {
            on_time_s: 10,
            off_time_s: 10,
            gpio_pin: 6,
            initial_state: true,
            period_micros: 4_000_000,
            ratio_micros: 500_000,
        },
    )
}

#[test]
fn timed_switch_duty_cycle_toggles_every_two_seconds() {
    let mut board = MockBoard::default();
    let mut switch = heater();
    switch.setup(&mut board);
    assert_eq!(board.gpio_modes, vec![(6, GpioMode::PushPullOutput)]);
    assert_eq!(switch.duty_cycle_on_time, 2000);
    assert_eq!(switch.duty_cycle_off_time, 2000);
    for step in 1..=4000u32 {
        board.now_ms = step;
        board.now_s = (step / 1000) as i64;
        switch.update_actuators(&mut board);
    }
    assert_eq!(board.gpio_writes, vec![(0, 6, true), (2000, 6, false), (4000, 6, true)]);
    assert_eq!(switch.get_measured_parameter_value(0), Ok(1_000_000));
}

#[test]
fn timed_switch_duty_cycle_does_not_follow_the_wall_clock() {
    let mut board = MockBoard::default();
    board.now_s = 1_700_000_000;
    let mut switch = heater();
    switch.setup(&mut board);
    for step in 1..=4000u32 {
        board.now_ms = step;
        board.now_s = 1_700_000_000 + ((step % 7) as i64) - 3;
        switch.update_actuators(&mut board);
    }
    assert_eq!(board.gpio_writes, vec![(0, 6, true), (2000, 6, false), (4000, 6, true)]);
}

#[test]
fn timed_switch_turns_off_after_its_on_time_and_on_again() {
    let mut switch = heater();
    switch.start(100, 0);
    assert_eq!(switch.state, 1);
    assert_eq!(switch.step(110, 1000), None);
    assert_eq!(switch.step(111, 1500), Some(false));
    assert_eq!(switch.state, 0);
    assert!(!switch.duty_cycle_state);
    assert_eq!(switch.last_state_updated_at, 111);
    assert_eq!(switch.step(121, 9000), None);
    assert_eq!(switch.step(122, 9500), Some(true));
    assert_eq!(switch.state, 1);
    assert!(switch.duty_cycle_state);
    assert_eq!(switch.last_duty_cycle_update, 9500);
}

#[test]
fn timed_switch_counts_through_the_wrap_of_the_counter() {
    assert_eq!(elapsed_millis(5, u32::MAX - 4), 10);
    assert_eq!(elapsed_millis(2000, 0), 2000);
    assert_eq!(elapsed_millis(0, 0), 0);
    let mut switch = heater();
    switch.start(0, u32::MAX - 999);
    assert_eq!(switch.step(1, 999), None);
    assert_eq!(switch.step(1, 1000), Some(false));
}

#[test]
fn timed_switch_reports_its_state_and_asks_for_its_pin() {
    let mut switch = heater();
    assert_eq!(switch.get_measured_parameter_count(), 1);
    assert_eq!(switch.get_measured_parameter_value(0), Ok(0));
    assert_eq!(switch.get_measured_parameter_value(1), Err(()));
    assert_eq!(switch.get_measured_parameter_identifier(0), label("heater"));
    let request = switch.get_requested_gpios();
    assert!(request.uses_pin(6));
    assert!(!request.uses_pin(5));
    assert_eq!(switch.fit(&[]), Err(()));
    assert_eq!(switch.get_id(), *b"heat\0\0");
    assert_eq!(switch.get_type_id(), 9);
}

#[test]
fn aht20_gives_up_on_a_sensor_that_stays_busy() {
    let mut board = MockBoard::default();
    board.i2c_default_read = Some(vec![0x80]);
    let mut sensor = AHT20::new(general(b"air", 2), AHT20SpecialConfiguration { wait_time: 0 });
    sensor.humidity = Some(1);
    sensor.temperature = Some(2);
    sensor.take_measurement(&mut board);
    assert_eq!(board.delays.len(), RETRY_CEILING as usize);
    assert!(board.delays.iter().all(|ms| *ms == RETRY_DELAY_MS));
    assert_eq!(board.now_ms, 100);
    assert_eq!(sensor.get_measured_parameter_value(0), Err(()));
    assert_eq!(sensor.get_measured_parameter_value(1), Err(()));
}

#[test]
fn aht20_poll_steps() {
    assert_eq!(next_poll_step(0x18, 0), PollStep::Ready);
    assert_eq!(next_poll_step(0x7F, 10), PollStep::Ready);
    assert_eq!(next_poll_step(0x80, 0), PollStep::Wait);
    assert_eq!(next_poll_step(0x98, 9), PollStep::Wait);
    assert_eq!(next_poll_step(0x80, 10), PollStep::GiveUp);
    assert_eq!(next_poll_step(0xFF, 200), PollStep::GiveUp);
}

#[test]
fn aht20_is_disabled_by_a_sensor_that_does_not_answer() {
    let mut board = MockBoard::default();
    board.i2c_write_fails = true;
    let mut sensor = AHT20::new(general(b"air", 2), AHT20SpecialConfiguration { wait_time: 0 });
    sensor.setup(&mut board);
    assert!(!sensor.enabled);
    let calls = board.calls.len();
    sensor.take_measurement(&mut board);
    assert_eq!(board.calls.len(), calls);
    assert_eq!(sensor.get_measured_parameter_value(0), Err(()));
    assert_eq!(sensor.get_measured_parameter_value(1), Err(()));
}

#[test]
fn aht20_is_disabled_by_a_sensor_that_never_gets_ready() {
    let mut board = MockBoard::default();
    board.i2c_default_read = Some(vec![0xFF]);
    let mut sensor = AHT20::new(general(b"air", 2), AHT20SpecialConfiguration { wait_time: 0 });
    sensor.setup(&mut board);
    assert!(!sensor.enabled);
    assert_eq!(board.delays.len(), 11);
    assert_eq!(board.debug_lines, vec!["AHT20 Not Found".to_string()]);
}

#[test]
fn aht20_measures_humidity_and_temperature() {
    let mut board = MockBoard::default();
    board.i2c_reads.push_back(Ok(vec![0x18]));
    board.i2c_reads.push_back(Ok(vec![0x18]));
    let mut sensor = AHT20::new(general(b"air", 2), AHT20SpecialConfiguration { wait_time: 0 });
    sensor.setup(&mut board);
    assert!(sensor.enabled);
    assert_eq!(board.i2c_writes[0], (0x38, vec![0xBA]));
    board.i2c_reads.push_back(Ok(vec![0x98]));
    board.i2c_reads.push_back(Ok(vec![0x18]));
    board.i2c_reads.push_back(Ok(vec![0x1C, 0x80, 0x00, 0x05, 0x99, 0x9A]));
    board.delays.clear();
    sensor.take_measurement(&mut board);
    assert_eq!(board.delays, vec![10]);
    assert_eq!(sensor.get_measured_parameter_value(0), Ok(50_000_000));
    assert_eq!(sensor.get_measured_parameter_value(1), Ok(20_000_076));
    assert_eq!(sensor.get_measured_parameter_value(2), Err(()));
    assert_eq!(sensor.get_measured_parameter_identifier(0), label("humidity"));
    assert_eq!(sensor.get_measured_parameter_identifier(1), label("temperature"));
    assert_eq!(sensor.get_measured_parameter_identifier(2), [0u8; 16]);
}

#[test]
fn aht20_has_no_stale_values_after_a_failed_read() {
    let mut board = MockBoard::default();
    let mut sensor = AHT20::new(general(b"air", 2), AHT20SpecialConfiguration { wait_time: 0 });
    sensor.record_data(Ok([0x1C, 0x80, 0x00, 0x05, 0x99, 0x9A]));
    assert_eq!(sensor.get_measured_parameter_value(0), Ok(50_000_000));
    board.i2c_reads.push_back(Ok(vec![0x18]));
    board.i2c_reads.push_back(Err(()));
    sensor.take_measurement(&mut board);
    assert_eq!(sensor.get_measured_parameter_value(0), Err(()));
    assert_eq!(sensor.get_measured_parameter_value(1), Err(()));
    assert_eq!(sensor.fit(&[]), Err(()));
}

#[test]
fn mcp9808_measures_and_calibrates() {
    let mut board = MockBoard::default();
    let mut sensor = MCP9808TemperatureDriver::new(
        general(b"t1", 6),
        MCP9808TemperatureDriverSpecialConfiguration { calibration_offset: -250, address: 0x1A },
    );
    assert_eq!(sensor.get_measured_parameter_value(0), Ok(0));
    assert_eq!(sensor.get_measured_parameter_value(1), Ok(0));
    sensor.setup(&mut board);
    assert_eq!(sensor.calibration_offset, -250_000);
    board.i2c_reads.push_back(Ok(vec![0xC1, 0x94]));
    sensor.take_measurement(&mut board);
    assert_eq!(board.i2c_writes, vec![(0x1A, vec![0x05])]);
    assert_eq!(sensor.get_measured_parameter_value(0), Ok(25_250_000));
    assert_eq!(sensor.get_measured_parameter_value(1), Ok(25_000_000));
    assert_eq!(sensor.get_measured_parameter_value(2), Err(()));
    assert_eq!(sensor.get_measured_parameter_identifier(0), label("T_raw"));
    assert_eq!(sensor.get_measured_parameter_identifier(1), label("T_cal"));
    assert_eq!(sensor.get_measured_parameter_identifier(2), label("T_invalid"));
    sensor.record_reading(Ok([0x1E, 0x70]));
    assert_eq!(sensor.get_measured_parameter_value(0), Ok(25_000_000));
}

#[test]
fn mcp9808_has_no_stale_values_after_a_bus_failure() {
    let mut board = MockBoard::default();
    let mut sensor = MCP9808TemperatureDriver::new(
        general(b"t1", 6),
        MCP9808TemperatureDriverSpecialConfiguration::new(0),
    );
    sensor.record_reading(Ok([0x01, 0x94]));
    assert_eq!(sensor.get_measured_parameter_value(1), Ok(25_250_000));
    board.i2c_write_fails = true;
    sensor.take_measurement(&mut board);
    assert_eq!(sensor.get_measured_parameter_value(0), Err(()));
    assert_eq!(sensor.get_measured_parameter_value(1), Err(()));
    sensor.record_reading(Ok([0x01, 0x94]));
    board.i2c_write_fails = false;
    sensor.take_measurement(&mut board);
    assert_eq!(sensor.get_measured_parameter_value(0), Err(()));
    assert_eq!(sensor.get_measured_parameter_value(1), Err(()));
}

#[test]
fn mcp9808_fits_an_offset_to_one_pair() {
    let mut sensor = MCP9808TemperatureDriver::new(
        general(b"t1", 6),
        MCP9808TemperatureDriverSpecialConfiguration::new(0),
    );
    let pair = CalibrationPair { point: 26_000_000, values: vec![25_250_000] };
    assert_eq!(sensor.fit(&[pair]), Ok(()));
    assert_eq!(sensor.calibration_offset, 750_000);
    assert_eq!(*sensor.get_calibration_offset(), 750);
    sensor.record_reading(Ok([0x01, 0x94]));
    assert_eq!(sensor.get_measured_parameter_value(1), Ok(26_000_000));
    let low = CalibrationPair { point: -1_500, values: vec![0] };
    assert_eq!(sensor.fit(&[low]), Ok(()));
    assert_eq!(*sensor.get_calibration_offset(), -1);
    let far = CalibrationPair { point: 40_000_000, values: vec![0] };
    assert_eq!(sensor.fit(&[far]), Ok(()));
    assert_eq!(*sensor.get_calibration_offset(), i16::MAX);
    assert_eq!(sensor.fit(&[]), Err(()));
    let none = CalibrationPair { point: 1, values: vec![] };
    assert_eq!(sensor.fit(&[none]), Err(()));
    let wide = CalibrationPair { point: i64::MAX, values: vec![-1] };
    assert_eq!(sensor.fit(&[wide]), Err(()));
    assert_eq!(sensor.calibration_offset, 40_000_000);
    sensor.clear_calibration();
    assert_eq!(sensor.calibration_offset, 0);
    assert_eq!(*sensor.get_calibration_offset(), 0);
}

#[test]
fn ds18b20_two_point_calibration() {
    let mut sensor = Ds18b20::new(
        general(b"probe", 5),
        Ds18b20SpecialConfiguration { calibration: LinearCalibration::identity() },
    );
    let pairs = [
        CalibrationPair { point: 0, values: vec![10_000_000] },
        CalibrationPair { point: 100_000_000, values: vec![110_000_000] },
    ];
    assert_eq!(sensor.fit(&pairs), Ok(()));
    let calibration = sensor.special_config.calibration;
    assert_eq!((calibration.raw_low, calibration.reference_low), (10_000_000, 0));
    assert_eq!((calibration.raw_high, calibration.reference_high), (110_000_000, 100_000_000));
    assert_eq!(calibration.apply(10_000_000), Some(0));
    assert_eq!(calibration.apply(110_000_000), Some(100_000_000));
    assert_eq!(calibration.apply(60_000_000), Some(50_000_000));
    sensor.record_scratchpad(Ok([0xC0, 0x03, 0x4B, 0x46, 0x7F, 0xFF, 0x0C, 0x10, 84]));
    assert_eq!(sensor.get_measured_parameter_value(0), Ok(60_000_000));
    assert_eq!(sensor.get_measured_parameter_value(1), Ok(50_000_000));
}

#[test]
fn ds18b20_fit_is_refused_without_two_distinct_points() {
    let mut sensor = Ds18b20::new(
        general(b"probe", 5),
        Ds18b20SpecialConfiguration { calibration: LinearCalibration::identity() },
    );
    let one = [CalibrationPair { point: 0, values: vec![10] }];
    assert_eq!(sensor.fit(&one), Err(()));
    let same = [
        CalibrationPair { point: 0, values: vec![10] },
        CalibrationPair { point: 5, values: vec![10] },
    ];
    assert_eq!(sensor.fit(&same), Err(()));
    let empty = [
        CalibrationPair { point: 0, values: vec![] },
        CalibrationPair { point: 5, values: vec![10] },
    ];
    assert_eq!(sensor.fit(&empty), Err(()));
    let calibration = sensor.special_config.calibration;
    assert_eq!((calibration.raw_low, calibration.reference_low), (0, 0));
    assert_eq!((calibration.raw_high, calibration.reference_high), (1, 1));
}

#[test]
fn ds18b20_fit_shows_its_points_however_far_they_lie_apart() {
    let mut sensor = Ds18b20::new(
        general(b"probe", 5),
        Ds18b20SpecialConfiguration { calibration: LinearCalibration::identity() },
    );
    let wide = [
        CalibrationPair { point: i64::MIN, values: vec![0] },
        CalibrationPair { point: i64::MAX, values: vec![1] },
    ];
    assert_eq!(sensor.fit(&wide), Ok(()));
    let calibration = sensor.special_config.calibration;
    assert_eq!(calibration.apply(0), Some(i64::MIN));
    assert_eq!(calibration.apply(1), Some(i64::MAX));
    assert_eq!(calibration.apply(2), None);
    assert_eq!(calibration.apply(-1), None);
    let corners = [
        (i64::MAX, i64::MIN, i64::MIN, i64::MAX),
        (i64::MIN, i64::MIN, i64::MAX, i64::MAX),
        (i64::MIN, i64::MAX, i64::MAX, i64::MIN),
        (7, i64::MIN, 7, i64::MAX),
        (-3, i64::MAX, 5, i64::MAX - 1),
        (i64::MAX, -1, i64::MIN, 0),
    ];
    for (p1, v1, p2, v2) in corners {
        let pairs = [
            CalibrationPair { point: p1, values: vec![v1] },
            CalibrationPair { point: p2, values: vec![v2] },
        ];
        assert_eq!(sensor.fit(&pairs), Ok(()));
        let calibration = sensor.special_config.calibration;
        assert_eq!(calibration.apply(v1), Some(p1));
        assert_eq!(calibration.apply(v2), Some(p2));
        let back = LinearCalibration::from_bytes(&sensor.special_config.to_bytes());
        assert_eq!(back.apply(v1), Some(p1));
        assert_eq!(back.apply(v2), Some(p2));
    }
    let middle = LinearCalibration::two_point(i64::MIN, i64::MIN, i64::MAX, i64::MAX).unwrap();
    assert_eq!(middle.apply(0), Some(0));
    assert_eq!(middle.apply(-12345), Some(-12345));
    let turned = LinearCalibration::two_point(i64::MAX, i64::MIN, i64::MIN, i64::MAX).unwrap();
    assert_eq!(turned.apply(0), Some(-1));
    assert_eq!(turned.apply(-1), Some(0));
}

#[test]
fn calibration_with_a_falling_slope_keeps_the_lower_raw_value_in_front() {
    let calibration = LinearCalibration::two_point(30, 20, 10, 10).unwrap();
    assert_eq!((calibration.raw_low, calibration.reference_low), (10, 10));
    assert_eq!((calibration.raw_high, calibration.reference_high), (20, 30));
    assert_eq!(calibration.apply(15), Some(20));
    assert_eq!(calibration.apply(0), Some(-10));
    let falling = LinearCalibration::two_point(0, 100, 50, 0).unwrap();
    assert_eq!((falling.raw_low, falling.reference_low), (0, 50));
    assert_eq!((falling.raw_high, falling.reference_high), (100, 0));
    assert_eq!(falling.apply(100), Some(0));
    assert_eq!(falling.apply(0), Some(50));
    assert_eq!(falling.apply(1), Some(49));
    assert_eq!(falling.apply(3), Some(48));
    assert_eq!(falling.apply(-1), Some(50));
    assert_eq!(falling.apply(i64::MIN), Some(4_611_686_018_427_387_954));
    let steep = LinearCalibration::two_point(0, 0, i64::MAX, 1).unwrap();
    assert_eq!(steep.apply(1), Some(i64::MAX));
    assert_eq!(steep.apply(2), None);
    assert_eq!(steep.apply(-1), Some(-i64::MAX));
    assert_eq!(steep.apply(-2), None);
    let high = LinearCalibration::two_point(i64::MAX, 0, i64::MAX - 1, -1).unwrap();
    assert_eq!(high.apply(0), Some(i64::MAX));
    assert_eq!(high.apply(1), None);
    assert!(LinearCalibration::two_point(0, 7, 1, 7).is_none());
}

#[test]
fn ds18b20_measures_at_each_resolution() {
    let mut board = MockBoard::default();
    let mut sensor = Ds18b20::new(
        general(b"probe", 5),
        Ds18b20SpecialConfiguration { calibration: LinearCalibration::identity() },
    );
    board.one_wire_reply = Some(vec![0x91, 0x01, 0, 0, 0x7F, 0, 0, 0, 0]);
    sensor.take_measurement(&mut board);
    assert_eq!(board.one_wire_written, vec![0x44, 0xBE]);
    assert_eq!(board.delays, vec![1000]);
    assert_eq!(sensor.get_measured_parameter_value(0), Ok(25_062_500));
    assert_eq!(sensor.get_measured_parameter_value(1), Ok(25_062_500));
    sensor.record_scratchpad(Ok([0x32, 0, 0, 0, 0x1F, 0, 0, 0, 0]));
    assert_eq!(sensor.get_measured_parameter_value(0), Ok(25_000_000));
    sensor.record_scratchpad(Ok([0x64, 0, 0, 0, 0x3F, 0, 0, 0, 0]));
    assert_eq!(sensor.get_measured_parameter_value(0), Ok(25_000_000));
    sensor.record_scratchpad(Ok([0xC8, 0, 0, 0, 0x5F, 0, 0, 0, 0]));
    assert_eq!(sensor.get_measured_parameter_value(0), Ok(25_000_000));
    sensor.record_scratchpad(Ok([0xC8, 0, 0, 0, 0x00, 0, 0, 0, 0]));
    assert_eq!(sensor.get_measured_parameter_value(0), Err(()));
    assert_eq!(sensor.get_measured_parameter_value(1), Err(()));
}

#[test]
fn ds18b20_has_no_stale_values_after_a_failed_read() {
    let mut board = MockBoard::default();
    let mut sensor = Ds18b20::new(
        general(b"probe", 5),
        Ds18b20SpecialConfiguration { calibration: LinearCalibration::identity() },
    );
    sensor.record_scratchpad(Ok([0x91, 0x01, 0, 0, 0x7F, 0, 0, 0, 0]));
    assert_eq!(sensor.get_measured_parameter_value(0), Ok(25_062_500));
    board.one_wire_reply = None;
    sensor.take_measurement(&mut board);
    assert_eq!(sensor.get_measured_parameter_value(0), Err(()));
    assert_eq!(sensor.get_measured_parameter_value(1), Err(()));
    assert_eq!(sensor.get_measured_parameter_value(2), Err(()));
}

#[test]
fn ds18b20_replaces_a_calibration_that_cannot_be_applied() {
    for broken in [
        LinearCalibration { raw_low: 5, reference_low: 0, raw_high: 5, reference_high: 9 },
        LinearCalibration { raw_low: 6, reference_low: 0, raw_high: 5, reference_high: 9 },
    ] {
        let sensor =
            Ds18b20::new(general(b"probe", 5), Ds18b20SpecialConfiguration { calibration: broken });
        let calibration = sensor.special_config.calibration;
        assert_eq!((calibration.raw_low, calibration.reference_low), (0, 0));
        assert_eq!((calibration.raw_high, calibration.reference_high), (1, 1));
        assert_eq!(calibration.apply(-77), Some(-77));
    }
}

#[test]
fn resolution_registers() {
    assert_eq!(Resolution::Bits9.max_measurement_time_millis(), 94);
    assert_eq!(Resolution::Bits10.max_measurement_time_millis(), 188);
    assert_eq!(Resolution::Bits11.max_measurement_time_millis(), 375);
    assert_eq!(Resolution::Bits12.max_measurement_time_millis(), 1000);
    assert_eq!(Resolution::Bits9.to_config_register(), 0b0001_1111);
    assert_eq!(Resolution::Bits10.to_config_register(), 0b0011_1111);
    assert_eq!(Resolution::Bits11.to_config_register(), 0b0101_1111);
    assert_eq!(Resolution::Bits12.to_config_register(), 0b0111_1111);
    for config in 0..=255u8 {
        match Resolution::from_config_register(config) {
            Some(resolution) => assert_eq!(resolution.to_config_register(), config),
            None => assert!(![0x1F, 0x3F, 0x5F, 0x7F].contains(&config)),
        }
    }
    assert_eq!(Resolution::from_config_register(0x7F), Some(Resolution::Bits12));
}

#[test]
fn atlas_ec_reads_a_reading_that_is_there() {
    let mut board = MockBoard::default();
    let mut sensor = AtlasEC::new(general(b"ec", 3), AtlasECSpecialConfiguration {});
    sensor.setup(&mut board);
    assert_eq!(board.i2c_writes, vec![(0x64, vec![0x06, 1]), (0x64, vec![0x05, 1])]);
    board.i2c_writes.clear();
    board.i2c_reads.push_back(Ok(vec![1]));
    board.i2c_reads.push_back(Ok(vec![0x00]));
    board.i2c_reads.push_back(Ok(vec![0x00]));
    board.i2c_reads.push_back(Ok(vec![0x30]));
    board.i2c_reads.push_back(Ok(vec![0x39]));
    sensor.take_measurement(&mut board);
    assert_eq!(sensor.get_measured_parameter_value(0), Ok(12_345_000));
    assert_eq!(
        board.i2c_writes,
        vec![
            (0x64, vec![0x07]),
            (0x64, vec![0x18]),
            (0x64, vec![0x19]),
            (0x64, vec![0x1A]),
            (0x64, vec![0x1B]),
            (0x64, vec![0x07, 0]),
        ]
    );
    sensor.record_reading(Some([0x01, 0x02, 0x03, 0x04]));
    assert_eq!(sensor.get_measured_parameter_value(0), Ok(16_909_060_000));
    assert_eq!(sensor.get_measured_parameter_identifier(0), label("eC"));
    assert_eq!(sensor.get_measured_parameter_count(), 1);
}

#[test]
fn atlas_ec_has_no_stale_value_without_a_reading() {
    let mut board = MockBoard::default();
    let mut sensor = AtlasEC::new(general(b"ec", 3), AtlasECSpecialConfiguration {});
    sensor.record_reading(Some([0, 0, 0x30, 0x39]));
    board.i2c_reads.push_back(Ok(vec![0]));
    sensor.take_measurement(&mut board);
    assert_eq!(sensor.get_measured_parameter_value(0), Err(()));
    sensor.record_reading(Some([0, 0, 0x30, 0x39]));
    board.i2c_reads.push_back(Ok(vec![1]));
    board.i2c_reads.push_back(Ok(vec![0]));
    board.i2c_reads.push_back(Err(()));
    sensor.take_measurement(&mut board);
    assert_eq!(sensor.get_measured_parameter_value(0), Err(()));
    assert_eq!(sensor.get_measured_parameter_value(1), Err(()));
}

#[test]
fn adc_temperature_reads_the_converter() {
    let mut board = MockBoard::default();
    board.temp_adc = -7;
    let mut sensor = ADCTemperatureDriver::new(
        general(b"mcu", 1),
        ADCTemperatureDriverSpecialConfiguration {},
    );
    assert_eq!(sensor.get_measured_parameter_value(0), Ok(0));
    sensor.take_measurement(&mut board);
    assert_eq!(sensor.get_measured_parameter_value(0), Ok(-7_000_000));
    assert_eq!(sensor.get_measured_parameter_value(1), Err(()));
    assert_eq!(sensor.get_measured_parameter_identifier(0), label("temperature"));
    assert_eq!(sensor.fit(&[]), Ok(()));
}

#[test]
fn modbus_driver_takes_the_registers_of_an_answer() {
    let mut driver = ModbusDriver::new(general(b"mb", 7), ModbusDriverSpecialConfiguration::new());
    assert_eq!(driver.get_measured_parameter_count(), 0);
    assert_eq!(driver.get_measured_parameter_value(0), Err(()));
    driver.receive_modbus(&ModbusResponse::ReadInputRegisters(vec![215, 0xFFFF, 0x8000]));
    assert_eq!(driver.get_measured_parameter_count(), 3);
    assert_eq!(driver.get_measured_parameter_value(0), Ok(21_500_000));
    assert_eq!(driver.get_measured_parameter_value(1), Ok(-100_000));
    assert_eq!(driver.get_measured_parameter_value(2), Ok(-3_276_800_000));
    assert_eq!(driver.get_measured_parameter_value(3), Err(()));
    assert_eq!(driver.get_measured_parameter_identifier(0), label("value_0"));
    assert_eq!(driver.get_measured_parameter_identifier(2), label("value_2"));
    assert_eq!(driver.get_measured_parameter_identifier(3), label("invalid"));
    driver.receive_modbus(&ModbusResponse::Exception);
    driver.receive_modbus(&ModbusResponse::OtherFunction);
    assert_eq!(driver.get_measured_parameter_count(), 3);
    driver.receive_modbus(&ModbusResponse::ReadInputRegisters((0..20).collect()));
    assert_eq!(driver.get_measured_parameter_count(), 12);
    assert_eq!(driver.get_measured_parameter_value(11), Ok(1_100_000));
    assert_eq!(driver.get_measured_parameter_identifier(11), label("value_11"));
    let held = ModbusDriver::new(
        general(b"mb", 7),
        ModbusDriverSpecialConfiguration { measured_parameter_count: 40 },
    );
    assert_eq!(held.get_measured_parameter_count(), 12);
}

#[test]
fn basic_evo_builds_its_requests() {
    assert_eq!(checksum_calculator("340300800004".to_string()), 0xAA);
    assert_eq!(checksum_calculator(String::new()), 0);
    let special = BasicEvoSpecialConfiguration {
        device_address: 0x34,
        command: 6,
        start_address: 0,
        no_of_registers: 0,
        reg_address: 0,
        reg_value: 0,
        mode: 4,
    };
    let mut sensor = BasicEvo::new(general(b"n2o", 4), special);
    assert_eq!(sensor.message, b":340300800004AA".to_vec());
    let mut board = MockBoard::default();
    sensor.setup(&mut board);
    assert_eq!(sensor.special_config.command, 3);
    assert_eq!(sensor.special_config.start_address, 0x80);
    assert_eq!(sensor.special_config.no_of_registers, 4);
    assert_eq!(sensor.message, b":340300800004AA".to_vec());
    assert_eq!(
        sensor.construct_message_manual(6, 0, 0, 0x47, 0x10),
        b":340600470010A7".to_vec()
    );
    assert_eq!(sensor.construct_message_manual(3, 9, 2, 0, 0), sensor_message(0x34, 3, 9, 2));
    sensor.special_config.mode = 1;
    assert_eq!(sensor.construct_message(), sensor_message(0x34, 3, 9, 2));
    sensor.special_config.mode = 2;
    sensor.special_config.reg_value = 0x1234;
    assert_eq!(sensor.construct_message(), sensor_message(0x34, 6, 0x47, 0x1234));
    sensor.special_config.mode = 3;
    assert_eq!(sensor.construct_message(), sensor_message(0x34, 6, 0x54, 0x1234));
    sensor.special_config.mode = 0;
    sensor.special_config.command = 9;
    sensor.special_config.device_address = 0x1AB;
    assert_eq!(sensor.construct_message(), b":1AB09E3".to_vec());
    sensor.take_measurement(&mut board);
    assert_eq!(board.usart_sent, vec![b":340300800004AA\r\n".to_vec()]);
    assert_eq!(board.delays, vec![500]);
    sensor.send_write_command(&mut board, b":340600470010A7".to_vec());
    assert_eq!(board.usart_sent[1], b":340600470010A7\r\n".to_vec());
    assert_eq!(board.delays, vec![500, 2000]);
    let request = sensor.get_requested_gpios();
    assert!(request.uses_pin(6));
}

fn sensor_message(device: u32, command: u32, first: u32, second: u32) -> Vec<u8> {
    let body = format!("{:02X}{:02X}{:04X}{:04X}", device, command, first, second);
    let sum: u32 = body.bytes().map(|b| b as u32).sum();
    format!(":{}{:02X}", body, (256 - sum % 256) % 256).into_bytes()
}

fn message(text: &str) -> [u8; 50] {
    let mut bytes = [0u8; 50];
    bytes[..text.len()].copy_from_slice(text.as_bytes());
    bytes
}

#[test]
fn basic_evo_takes_a_response() {
    let special = BasicEvoSpecialConfiguration {
        device_address: 0x34,
        command: 3,
        start_address: 9,
        no_of_registers: 2,
        reg_address: 0,
        reg_value: 0,
        mode: 0,
    };
    let mut sensor = BasicEvo::new(general(b"n2o", 4), special);
    assert_eq!(sensor.get_measured_parameter_count(), 2);
    assert_eq!(sensor.get_measured_parameter_value(0), Ok(0));
    sensor.receive_message(Some(message(":3403040001000A40")));
    assert_eq!(sensor.get_measured_parameter_value(0), Ok(1_000_000));
    assert_eq!(sensor.get_measured_parameter_value(1), Ok(10_000_000));
    assert_eq!(sensor.get_measured_parameter_value(2), Err(()));
    assert_eq!(sensor.get_measured_parameter_identifier(1), label("read"));
    assert_eq!(sensor.get_measured_parameter_identifier(2), label("invalid"));
    sensor.receive_message(Some(message(":3403040002000B40")));
    assert_eq!(sensor.register_values[0], 1);
    sensor.receive_message(Some(message(":3503040002000B3D")));
    assert_eq!(sensor.register_values[0], 1);
    sensor.receive_message(None);
    sensor.receive_message(Some(message("")));
    sensor.receive_message(Some(message(":40")));
    assert_eq!(sensor.register_values[..2], [1, 10]);
    sensor.receive_message(Some(message(":34030400070B")));
    assert_eq!(sensor.register_values[..2], [7, 10]);
    sensor.receive_message(Some(message(":34030400zz000AAD")));
    assert_eq!(sensor.register_values[..2], [0, 10]);
    sensor.receive_message(Some(message(":3403040001000a20")));
    assert_eq!(sensor.register_values[..2], [1, 10]);
}

#[test]
fn ring_addresses_follow_the_wiring() {
    let six = RingTemperatureDriverSpecialConfiguration {
        channels: 0,
        sensors: 6,
        calibration_offset: [1, 2, 3, 4, 5, 6, 7, 8],
        address_offset: 0,
    };
    let ring = RingTemperatureDriver::new(general(b"ring", 8), six);
    let addresses: Vec<u8> = ring.sensor_drivers.iter().map(|driver| driver.address).collect();
    assert_eq!(addresses, vec![0x18, 0x19, 0x1E, 0x1D, 0x1A, 0x1C, 0, 0]);
    let offsets: Vec<i16> =
        ring.sensor_drivers.iter().map(|driver| *driver.get_calibration_offset()).collect();
    assert_eq!(offsets, vec![1, 2, 3, 4, 5, 6, 7, 8]);
    let eight = RingTemperatureDriverSpecialConfiguration { sensors: 8, address_offset: 0xF0, ..six };
    let ring = RingTemperatureDriver::new(general(b"ring", 8), eight);
    let addresses: Vec<u8> = ring.sensor_drivers.iter().map(|driver| driver.address).collect();
    assert_eq!(addresses, vec![0x09, 0x08, 0x0C, 0x0D, 0x0A, 0x0F, 0x0B, 0x0E]);
    let three = RingTemperatureDriverSpecialConfiguration { sensors: 3, address_offset: 2, ..six };
    let ring = RingTemperatureDriver::new(general(b"ring", 8), three);
    assert!(ring.sensor_drivers.iter().all(|driver| driver.address == 2));
    assert!(ring.measured_parameter_values.iter().all(|value| *value == Some(0)));
    assert_eq!(ring.measured_parameter_values.len(), 128);
    assert_eq!(ring.get_measured_parameter_value(0), Ok(0));
    assert_eq!(ring.get_measured_parameter_value(5), Ok(0));
    assert_eq!(ring.special_config.calibration_offset, [1, 2, 3, 4, 5, 6, 7, 8]);
    assert_eq!((ring.special_config.sensors, ring.special_config.address_offset), (3, 2));
}

#[test]
fn drivers_start_from_zero_until_they_have_measured() {
    let atlas = AtlasEC::new(general(b"ec", 3), AtlasECSpecialConfiguration {});
    assert_eq!(atlas.measured_parameter_values, [Some(0), Some(0)]);
    assert_eq!(atlas.get_measured_parameter_value(0), Ok(0));
    let probe = Ds18b20::new(
        general(b"probe", 5),
        Ds18b20SpecialConfiguration { calibration: LinearCalibration::identity() },
    );
    assert_eq!(probe.get_measured_parameter_value(0), Ok(0));
    assert_eq!(probe.get_measured_parameter_value(1), Ok(0));
    let bus = MCP9808TemperatureDriver::new_with_address(
        general(b"t2", 6),
        MCP9808TemperatureDriverSpecialConfiguration::new(0),
        0x1C,
    );
    assert_eq!(bus.measured_parameter_values, [Some(0), Some(0)]);
    let air = AHT20::new(general(b"air", 2), AHT20SpecialConfiguration { wait_time: 0 });
    assert_eq!(air.get_measured_parameter_value(0), Err(()));
    assert_eq!(air.get_measured_parameter_value(1), Err(()));
}

#[test]
fn a_ring_without_a_multiplexer_reports_its_one_ring() {
    let special = RingTemperatureDriverSpecialConfiguration {
        channels: 0,
        sensors: 2,
        calibration_offset: [0, 1000, 0, 0, 0, 0, 0, 0],
        address_offset: 0,
    };
    let mut ring = RingTemperatureDriver::new(general(b"ring", 8), special);
    let mut board = MockBoard::default();
    ring.setup(&mut board);
    assert_eq!(ring.get_measured_parameter_count(), 4);
    board.i2c_reads.push_back(Ok(vec![0x01, 0x00]));
    board.i2c_reads.push_back(Err(()));
    ring.take_measurement(&mut board);
    let values: Vec<Result<i64, ()>> = (0..6).map(|i| ring.get_measured_parameter_value(i)).collect();
    assert_eq!(values, vec![Ok(16_000_000), Ok(16_000_000), Err(()), Err(()), Err(()), Err(())]);
    assert!(board.i2c_writes.iter().all(|(address, _)| *address != 0x70));
    assert_eq!(ring.get_measured_parameter_identifier(0), label("T_rawA"));
    assert_eq!(ring.get_measured_parameter_identifier(3), label("T_calB"));
    assert_eq!(ring.get_measured_parameter_identifier(4), label("invalid"));
    let six = RingTemperatureDriver::new(
        general(b"ring", 8),
        RingTemperatureDriverSpecialConfiguration { sensors: 6, ..special },
    );
    assert_eq!(six.get_measured_parameter_count(), 12);
    let three = RingTemperatureDriver::new(
        general(b"ring", 8),
        RingTemperatureDriverSpecialConfiguration { channels: 3, sensors: 6, ..special },
    );
    assert_eq!(three.get_measured_parameter_count(), 36);
    let none = RingTemperatureDriver::new(
        general(b"ring", 8),
        RingTemperatureDriverSpecialConfiguration { channels: 3, sensors: 0, ..special },
    );
    assert_eq!(none.get_measured_parameter_count(), 0);
}

#[test]
fn ring_measures_ring_after_ring() {
    let special = RingTemperatureDriverSpecialConfiguration {
        channels: 2,
        sensors: 2,
        calibration_offset: [0, 1000, 0, 0, 0, 0, 0, 0],
        address_offset: 0,
    };
    let mut ring = RingTemperatureDriver::new(general(b"ring", 8), special);
    let mut board = MockBoard::default();
    ring.setup(&mut board);
    assert_eq!(ring.get_measured_parameter_count(), 8);
    board.i2c_reads.push_back(Ok(vec![0x01, 0x00]));
    board.i2c_reads.push_back(Ok(vec![0x01, 0x10]));
    board.i2c_reads.push_back(Err(()));
    board.i2c_reads.push_back(Ok(vec![0x01, 0x30]));
    ring.take_measurement(&mut board);
    let values: Vec<Result<i64, ()>> = (0..9).map(|i| ring.get_measured_parameter_value(i)).collect();
    assert_eq!(
        values,
        vec![
            Ok(16_000_000),
            Ok(16_000_000),
            Ok(17_000_000),
            Ok(18_000_000),
            Err(()),
            Err(()),
            Ok(19_000_000),
            Ok(20_000_000),
            Err(()),
        ]
    );
    let writes: Vec<(u8, Vec<u8>)> =
        board.i2c_writes.iter().filter(|(address, _)| *address == 0x70).cloned().collect();
    assert_eq!(
        writes,
        vec![(0x70, vec![0x01]), (0x70, vec![0]), (0x70, vec![0x02]), (0x70, vec![0])]
    );
    assert_eq!(ring.get_measured_parameter_identifier(0), label("T_rawA"));
    assert_eq!(ring.get_measured_parameter_identifier(1), label("T_calA"));
    assert_eq!(ring.get_measured_parameter_identifier(3), label("T_calB"));
    assert_eq!(ring.get_measured_parameter_identifier(4), label("T_rawA"));
    assert_eq!(ring.get_measured_parameter_identifier(8), label("invalid"));
}

#[test]
fn ring_fits_an_offset_for_each_sensor() {
    let special = RingTemperatureDriverSpecialConfiguration {
        channels: 1,
        sensors: 6,
        calibration_offset: [9, 9, 9, 9, 9, 9, 9, 9],
        address_offset: 0,
    };
    let mut ring = RingTemperatureDriver::new(general(b"ring", 8), special);
    let pair = CalibrationPair {
        point: 20_000_000,
        values: vec![19_000_000, 19_500_000, 20_000_000, 20_500_000, 21_000_000, 20_001_999],
    };
    assert_eq!(ring.fit(&[pair]), Ok(()));
    assert_eq!(ring.special_config.calibration_offset, [1000, 500, 0, -500, -1000, -1, 9, 9]);
    assert_eq!(ring.sensor_drivers[0].calibration_offset, 1_000_000);
    assert_eq!(ring.sensor_drivers[5].calibration_offset, -1_999);
    assert_eq!(*ring.sensor_drivers[6].get_calibration_offset(), 9);
    let short = CalibrationPair { point: 0, values: vec![1, 2, 3, 4, 5] };
    assert_eq!(ring.fit(&[short]), Err(()));
    assert_eq!(ring.fit(&[]), Err(()));
    let wide = CalibrationPair { point: i64::MAX, values: vec![0, 0, 0, 0, 0, -1] };
    assert_eq!(ring.fit(&[wide]), Err(()));
    assert_eq!(ring.special_config.calibration_offset, [1000, 500, 0, -500, -1000, -1, 9, 9]);
    assert_eq!(ring.sensor_drivers[0].calibration_offset, 1_000_000);
    ring.clear_calibration();
    assert_eq!(ring.special_config.calibration_offset, [0; 8]);
    assert!(ring.sensor_drivers.iter().all(|driver| driver.calibration_offset == 0));
}

#[test]
fn aht20_waits_no_longer_than_its_ceiling() {
    let mut board = MockBoard::default();
    board.i2c_default_read = Some(vec![0x80]);
    let outcome = AHT20::loop_until_ready(&mut board);
    assert!(!outcome.ready);
    assert_eq!(outcome.waits, 10);
    assert_eq!(board.delays, vec![10; 10]);
    assert_eq!(board.calls.len(), 11);
    let mut board = MockBoard::default();
    board.i2c_reads.push_back(Ok(vec![0x80]));
    board.i2c_reads.push_back(Err(()));
    board.i2c_reads.push_back(Ok(vec![0x00]));
    let outcome = AHT20::loop_until_ready(&mut board);
    assert!(outcome.ready);
    assert_eq!(outcome.waits, 2);
    let mut board = MockBoard::default();
    board.i2c_default_read = Some(vec![0x7F]);
    let outcome = AHT20::loop_until_ready(&mut board);
    assert!(outcome.ready);
    assert_eq!(outcome.waits, 0);
    assert!(board.delays.is_empty());
}

#[test]
fn what_goes_out_on_the_buses() {
    for channel in 0..8 {
        assert_eq!(channel_select(channel), 1 << channel);
    }
    assert_eq!(line_of(b":3403"), b":3403\r\n".to_vec());
    assert_eq!(line_of(b""), b"\r\n".to_vec());
}

#[test]
fn aht20_reads_a_silent_sensor_as_busy_and_calibrated() {
    assert_eq!(status_from(Ok(0x18)), 0x18);
    assert_eq!(status_from(Ok(0)), 0);
    assert_eq!(status_from(Err(())), 0xFF);
    assert_eq!(next_poll_step(status_from(Err(())), 0), PollStep::Wait);
    assert!(status_says_calibrated(0x08));
    assert!(status_says_calibrated(0x18));
    assert!(status_says_calibrated(0xFF));
    assert!(!status_says_calibrated(0x10));
    assert!(!status_says_calibrated(0x80));
    assert!(!status_says_calibrated(0));
}

#[test]
fn aht20_records_nothing_unless_every_step_succeeded() {
    let data = [0x1C, 0x80, 0x00, 0x05, 0x99, 0x9A];
    assert_eq!(reading_of(true, true, Ok(data)), Ok(data));
    assert_eq!(reading_of(true, true, Err(())), Err(()));
    assert_eq!(reading_of(true, false, Ok(data)), Err(()));
    assert_eq!(reading_of(false, true, Ok(data)), Err(()));
    assert_eq!(reading_of(false, false, Ok(data)), Err(()));
    assert!(probe_answered(true, true));
    assert!(!probe_answered(true, false));
    assert!(!probe_answered(false, true));
    assert!(!probe_answered(false, false));
    let mut sensor = AHT20::new(general(b"air", 2), AHT20SpecialConfiguration { wait_time: 0 });
    sensor.record_measurement(true, true, Ok(data));
    assert_eq!(sensor.get_measured_parameter_value(0), Ok(50_000_000));
    assert_eq!(sensor.get_measured_parameter_value(1), Ok(20_000_076));
    sensor.record_measurement(true, false, Ok(data));
    assert_eq!(sensor.get_measured_parameter_value(0), Err(()));
    assert_eq!(sensor.get_measured_parameter_value(1), Err(()));
    sensor.record_measurement(true, true, Ok(data));
    sensor.record_measurement(false, true, Ok(data));
    assert_eq!(sensor.humidity, None);
    assert_eq!(sensor.temperature, None);
    sensor.record_measurement(true, true, Ok(data));
    sensor.record_measurement(true, true, Err(()));
    assert_eq!(sensor.humidity, None);
    assert_eq!(sensor.temperature, None);
}

#[test]
fn aht20_that_stays_busy_leaves_both_values_unavailable() {
    let mut board = MockBoard::default();
    let mut sensor = AHT20::new(general(b"air", 2), AHT20SpecialConfiguration { wait_time: 0 });
    sensor.record_data(Ok([0x1C, 0x80, 0x00, 0x05, 0x99, 0x9A]));
    assert_eq!(sensor.get_measured_parameter_value(0), Ok(50_000_000));
    board.i2c_default_read = Some(vec![0x98, 0x80, 0x00, 0x05, 0x99, 0x9A]);
    sensor.take_measurement(&mut board);
    assert_eq!(board.delays.len(), RETRY_CEILING as usize);
    assert_eq!(board.i2c_writes.len(), 1);
    assert_eq!(sensor.get_measured_parameter_value(0), Err(()));
    assert_eq!(sensor.get_measured_parameter_value(1), Err(()));

    let mut board = MockBoard::default();
    board.i2c_write_fails = true;
    board.i2c_default_read = Some(vec![0x18, 0x80, 0x00, 0x05, 0x99, 0x9A]);
    sensor.record_data(Ok([0x1C, 0x80, 0x00, 0x05, 0x99, 0x9A]));
    sensor.take_measurement(&mut board);
    assert!(board.delays.is_empty());
    assert_eq!(sensor.get_measured_parameter_value(0), Err(()));
    assert_eq!(sensor.get_measured_parameter_value(1), Err(()));
}

#[test]
fn atlas_ec_reading_needs_the_flag_and_all_four_registers() {
    assert_eq!(registers_read(&[Ok(1), Ok(2), Ok(3), Ok(4)]), Some([1, 2, 3, 4]));
    assert_eq!(registers_read(&[Ok(0), Ok(0), Ok(0), Ok(0)]), Some([0, 0, 0, 0]));
    assert_eq!(registers_read(&[Err(()), Ok(2), Ok(3), Ok(4)]), None);
    assert_eq!(registers_read(&[Ok(1), Ok(2), Ok(3), Err(())]), None);
    assert_eq!(registers_read(&[Ok(1), Err(()), Err(()), Err(())]), None);
    assert!(reading_is_there(Ok(1)));
    assert!(!reading_is_there(Ok(0)));
    assert!(!reading_is_there(Ok(2)));
    assert!(!reading_is_there(Err(())));
    let registers = Some([0, 0, 0x30, 0x39]);
    assert_eq!(rriv_datalogger::drivers::atlas_ec::reading_of(Ok(1), registers), registers);
    assert_eq!(rriv_datalogger::drivers::atlas_ec::reading_of(Ok(1), None), None);
    assert_eq!(rriv_datalogger::drivers::atlas_ec::reading_of(Ok(0), registers), None);
    assert_eq!(rriv_datalogger::drivers::atlas_ec::reading_of(Ok(255), registers), None);
    assert_eq!(rriv_datalogger::drivers::atlas_ec::reading_of(Err(()), registers), None);
}
