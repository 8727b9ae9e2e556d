//! The data logger: slots, arbitration and the cycle.

use std::collections::VecDeque;

use rriv_datalogger::board::{GpioMode, HardwareError, RRIVBoard, RXProcessor, SerialRxPeripheral};
use rriv_datalogger::datalogger::DataLogger;
use rriv_datalogger::drivers::adc_temperature::{
    ADCTemperatureDriver, ADCTemperatureDriverSpecialConfiguration,
};
use rriv_datalogger::drivers::basic_evo::{BasicEvo, BasicEvoSpecialConfiguration};
use rriv_datalogger::drivers::mcp9808::{
    MCP9808TemperatureDriver, MCP9808TemperatureDriverSpecialConfiguration,
};
use rriv_datalogger::drivers::resources::gpio::GpioRequest;
use rriv_datalogger::drivers::timed_switch_2::{TimedSwitch2, TimedSwitch2SpecialConfiguration};
use rriv_datalogger::drivers::types::{SensorDriver, SensorDriverGeneralConfiguration};
use rriv_datalogger::registry::{
    instantiate, name_from_type_id, sensor_name_from_type_id, type_id_from_name, Driver,
};

#[derive(Default)]
struct MockBoard {
    now_s: i64,
    now_ms: u32,
    delays: Vec<u16>,
    gpio_writes: Vec<(u32, u8, bool)>,
    gpio_modes: Vec<(u8, GpioMode)>,
    i2c_reads: VecDeque<Result<Vec<u8>, ()>>,
    i2c_default_read: Option<Vec<u8>>,
    i2c_write_fails: bool,
    i2c_writes: Vec<(u8, Vec<u8>)>,
    one_wire_reply: Option<Vec<u8>>,
    one_wire_written: Vec<u8>,
    usart_sent: Vec<Vec<u8>>,
    debug_lines: Vec<String>,
    temp_adc: i32,
    installed: Vec<SerialRxPeripheral>,
    eeprom: Vec<u8>,
    calls: Vec<&'static str>,
}

impl MockBoard {
    fn fill(buffer: &mut [u8], reply: Result<Vec<u8>, ()>) -> Result<(), ()> {
        match reply {
            Ok(bytes) => {
                for (place, byte) in buffer.iter_mut().zip(bytes.iter()) {
                    *place = *byte;
                }
                Ok(())
            }
            Err(()) => Err(()),
        }
    }

    fn next_read(&mut self) -> Result<Vec<u8>, ()> {
        match self.i2c_reads.pop_front() {
            Some(reply) => reply,
            None => match &self.i2c_default_read {
                Some(bytes) => Ok(bytes.clone()),
                None => Err(()),
            },
        }
    }
}

impl RRIVBoard for MockBoard {
    fn run_loop_iteration(&mut self) {}
    fn set_serial_rx_processor(&mut self, peripheral: SerialRxPeripheral, _processor: Box<dyn RXProcessor>) {
        self.installed.push(peripheral);
    }
    fn store_datalogger_settings(&mut self, _bytes: &[u8; 64]) {}
    fn retrieve_datalogger_settings(&mut self, _buffer: &mut [u8; 64]) {}
    fn store_sensor_settings(&mut self, slot: u8, bytes: &[u8; 64]) {
        self.eeprom.resize(768, 0xFF);
        self.eeprom[64 * slot as usize..64 * slot as usize + 64].copy_from_slice(bytes);
    }
    fn retrieve_sensor_settings(&mut self, buffer: &mut [u8; 768]) {
        self.eeprom.resize(768, 0xFF);
        buffer.copy_from_slice(&self.eeprom);
    }
    fn set_debug(&mut self, _debug: bool) {}
    fn write_log_file(&mut self, _text: &str) {}
    fn flush_log_file(&mut self) {}
    fn set_epoch(&mut self, epoch: i64) {
        self.now_s = epoch;
    }
    fn epoch_timestamp(&mut self) -> i64 {
        self.now_s
    }
    fn get_millis(&mut self) -> u32 {
        self.now_ms
    }
    fn usb_serial_send(&mut self, _text: &str) {}
    fn usart_send(&mut self, bytes: &[u8]) {
        self.usart_sent.push(bytes.to_vec());
    }
    fn rs485_send(&mut self, _message: &[u8]) {}
    fn serial_debug(&mut self, text: &str) {
        self.debug_lines.push(text.to_string());
    }
    fn delay_ms(&mut self, ms: u16) {
        self.delays.push(ms);
        self.now_ms = self.now_ms.wrapping_add(ms as u32);
    }
    fn timestamp(&mut self) -> i64 {
        self.now_s
    }
    fn millis(&mut self) -> u32 {
        self.now_ms
    }
    fn get_battery_level(&mut self) -> i16 {
        0
    }
    fn sleep(&mut self) {}
    fn dump_eeprom(&mut self) {}
    fn get_uid(&mut self) -> [u8; 12] {
        [0; 12]
    }
    fn set_serial_number(&mut self, _serial_number: [u8; 5]) -> bool {
        false
    }
    fn get_serial_number(&mut self) -> [u8; 5] {
        [0; 5]
    }
    fn query_internal_adc(&mut self, _port: u8) -> u16 {
        0
    }
    fn query_external_adc(&mut self, _port: u8) -> u16 {
        0
    }
    fn ic2_read(&mut self, _addr: u8, buffer: &mut [u8]) -> Result<(), ()> {
        self.calls.push("ic2_read");
        let reply = self.next_read();
        MockBoard::fill(buffer, reply)
    }
    fn ic2_write(&mut self, addr: u8, message: &[u8]) -> Result<(), ()> {
        self.calls.push("ic2_write");
        self.i2c_writes.push((addr, message.to_vec()));
        if self.i2c_write_fails {
            Err(())
        } else {
            Ok(())
        }
    }
    fn ic2_write_read(&mut self, addr: u8, message: &[u8], buffer: &mut [u8]) -> Result<(), ()> {
        self.calls.push("ic2_write_read");
        self.i2c_writes.push((addr, message.to_vec()));
        if self.i2c_write_fails {
            return Err(());
        }
        let reply = self.next_read();
        MockBoard::fill(buffer, reply)
    }
    fn write_gpio_pin(&mut self, pin: u8, value: bool) {
        self.gpio_writes.push((self.now_ms, pin, value));
    }
    fn write_pwm_pin_duty(&mut self, _value: u8) {}
    fn read_gpio_pin(&mut self, _pin: u8) -> Result<bool, ()> {
        Err(())
    }
    fn set_gpio_pin_mode(&mut self, pin: u8, mode: GpioMode) {
        self.gpio_modes.push((pin, mode));
    }
    fn one_wire_send_command(&mut self, _command: u8, _address: u64) {}
    fn one_wire_reset(&mut self) {}
    fn one_wire_skip_address(&mut self) {}
    fn one_wire_write_byte(&mut self, byte: u8) {
        self.one_wire_written.push(byte);
    }
    fn one_wire_match_address(&mut self, _address: u64) {}
    fn one_wire_read_bytes(&mut self, output: &mut [u8]) -> Result<(), ()> {
        match self.one_wire_reply.clone() {
            Some(bytes) => MockBoard::fill(output, Ok(bytes)),
            None => Err(()),
        }
    }
    fn one_wire_bus_start_search(&mut self) {}
    fn one_wire_bus_search(&mut self) -> Option<u64> {
        None
    }
    fn read_temp_adc(&mut self) -> i32 {
        self.temp_adc
    }
    fn disable_interrupts(&self) {}
    fn enable_interrupts(&self) {}
    fn get_errors(&self) -> [HardwareError; 5] {
        [HardwareError::NoError; 5]
    }
    fn error_alarm(&mut self) {}
}

fn general(name: &[u8], type_id: u16) -> SensorDriverGeneralConfiguration {
    let mut id = [0u8; 6];
    id[..name.len()].copy_from_slice(name);
    SensorDriverGeneralConfiguration::new(id, type_id)
}

fn switch_on_pin(pin: u8) -> Driver {
    Driver::TimedSwitch(TimedSwitch2::new(
        general(b"heat", 9),
        TimedSwitch2SpecialConfiguration {
            on_time_s: 10,
            off_time_s: 10,
            gpio_pin: pin,
            initial_state: true,
            period_micros: 4_000_000,
            ratio_micros: 500_000,
        },
    ))
}

fn gas_sensor() -> Driver {
    Driver::BasicEvo(BasicEvo::new(
        general(b"n2o", 4),
        BasicEvoSpecialConfiguration {
            device_address: 0x34,
            command: 3,
            start_address: 9,
            no_of_registers: 2,
            reg_address: 0,
            reg_value: 0,
            mode: 1,
        },
    ))
}

fn thermometer(name: &[u8]) -> Driver {
    Driver::Mcp9808(MCP9808TemperatureDriver::new(
        general(name, 6),
        MCP9808TemperatureDriverSpecialConfiguration::new(0),
    ))
}

#[test]
fn requests_are_granted_as_a_whole() {
    let mut held = GpioRequest::none();
    let mut first = GpioRequest::none();
    first.use_pin(6);
    first.use_usart();
    assert_eq!(held.update_or_conflict(first), Ok(()));
    let mut second = GpioRequest::none();
    second.use_pin(2);
    second.use_pin(6);
    assert!(held.conflicts_with(&second));
    assert!(held.update_or_conflict(second).is_err());
    assert!(!held.uses_pin(2));
    assert!(held.uses_pin(6));
    let mut third = GpioRequest::none();
    third.use_pin(2);
    third.use_rs485();
    third.use_pin(0);
    third.use_pin(9);
    assert_eq!(third.claimed, [false, true, false, false, false, false, false, false, false, true]);
    assert_eq!(held.update_or_conflict(third), Ok(()));
    assert_eq!(held.claimed, [false, true, false, false, false, true, false, false, true, true]);
    held.release(first);
    assert_eq!(held.claimed, [false, true, false, false, false, false, false, false, false, true]);
    assert_eq!(held.update_or_conflict(second).map_err(|_| ()), Err(()));
    assert!(!GpioRequest::none().conflicts_with(&held));
    assert!(!held.uses_pin(0));
    assert!(!held.uses_pin(9));
}

#[test]
fn a_second_driver_on_a_pin_is_refused() {
    let mut board = MockBoard::default();
    let mut logger = DataLogger::new();
    assert_eq!(logger.sensor_drivers.len(), 12);
    assert_eq!(logger.add_sensor(0, gas_sensor(), &mut board), Ok(()));
    assert_eq!(logger.add_sensor(1, thermometer(b"t1"), &mut board), Ok(()));
    let writes = board.gpio_writes.len();
    let modes = board.gpio_modes.len();
    assert_eq!(logger.add_sensor(2, switch_on_pin(6), &mut board), Err("resource already in use"));
    assert!(logger.sensor_drivers[2].is_none());
    assert_eq!(board.gpio_writes.len(), writes);
    assert_eq!(board.gpio_modes.len(), modes);
    match &logger.sensor_drivers[0] {
        Some(Driver::BasicEvo(sensor)) => {
            assert_eq!(sensor.message, b":340300090002AB".to_vec());
            assert_eq!(sensor.special_config.device_address, 0x34);
        }
        other => panic!("slot 0 holds {:?}", other),
    }
    let values = logger.run_cycle(&mut board);
    assert_eq!(values, vec![Some(0), Some(0), None, None]);
    assert_eq!(board.usart_sent, vec![b":340300090002AB\r\n".to_vec()]);
    assert_eq!(logger.add_sensor(2, switch_on_pin(5), &mut board), Ok(()));
    assert_eq!(board.gpio_modes, vec![(5, GpioMode::PushPullOutput)]);
    assert_eq!(logger.add_sensor(1, switch_on_pin(5), &mut board), Err("resource already in use"));
    assert!(matches!(logger.sensor_drivers[1], Some(Driver::Mcp9808(_))));
    assert_eq!(logger.add_sensor(2, switch_on_pin(7), &mut board), Ok(()));
    assert_eq!(logger.add_sensor(0, switch_on_pin(6), &mut board), Ok(()));
    assert_eq!(logger.add_sensor(12, thermometer(b"t9"), &mut board), Err("no such slot"));
    logger.remove_sensor(0);
    logger.remove_sensor(40);
    assert!(logger.sensor_drivers[0].is_none());
    assert_eq!(logger.add_sensor(5, gas_sensor(), &mut board), Ok(()));
    let held = logger.requests_of_others(12);
    assert_eq!(held.claimed, [false, false, false, false, false, true, true, false, true, false]);
    let others = logger.requests_of_others(5);
    assert_eq!(others.claimed, [false, false, false, false, false, false, true, false, false, false]);
}

#[test]
fn a_cycle_measures_in_slot_order_and_skips_what_is_disabled() {
    let mut board = MockBoard::default();
    board.temp_adc = 21;
    let mut logger = DataLogger::new();
    let adc = Driver::AdcTemperature(ADCTemperatureDriver::new(
        general(b"mcu", 1),
        ADCTemperatureDriverSpecialConfiguration {},
    ));
    assert_eq!(logger.add_sensor(7, adc, &mut board), Ok(()));
    assert_eq!(logger.add_sensor(3, thermometer(b"t1"), &mut board), Ok(()));
    let mut off = MCP9808TemperatureDriver::new(
        general(b"t2", 6),
        MCP9808TemperatureDriverSpecialConfiguration::new(0),
    );
    off.general_config.enabled = false;
    assert_eq!(logger.add_sensor(4, Driver::Mcp9808(off), &mut board), Ok(()));
    assert_eq!(logger.add_sensor(9, switch_on_pin(2), &mut board), Ok(()));
    board.i2c_reads.push_back(Ok(vec![0x01, 0x94]));
    board.i2c_reads.push_back(Ok(vec![0x00, 0x10]));
    board.now_ms = 2500;
    let values = logger.run_cycle(&mut board);
    assert_eq!(values, vec![Some(25_250_000), Some(25_250_000), Some(21_000_000), Some(1_000_000)]);
    assert_eq!(board.i2c_reads.len(), 1);
    assert_eq!(board.gpio_writes, vec![(0, 2, true), (2500, 2, false)]);
    assert_eq!(logger.collect_values(), values);
    let values = logger.run_cycle(&mut board);
    assert_eq!(values, vec![Some(1_000_000), Some(1_000_000), Some(21_000_000), Some(1_000_000)]);
    board.i2c_write_fails = true;
    let values = logger.run_cycle(&mut board);
    assert_eq!(values, vec![None, None, Some(21_000_000), Some(1_000_000)]);
    assert_eq!(DataLogger::new().run_cycle(&mut board), vec![]);
}

#[test]
fn drivers_have_names_and_codes() {
    let names = [
        "no_match", "adc_temperature", "aht20", "atlas_ec", "basic_evo", "ds18b20", "mcp_9808",
        "modbus", "ring_temperature", "timed_switch_2",
    ];
    for (type_id, name) in names.iter().enumerate() {
        assert_eq!(name_from_type_id(type_id as u16), *name);
        let mut label = [0u8; 16];
        let length = name.len().min(15);
        label[..length].copy_from_slice(&name.as_bytes()[..length]);
        assert_eq!(sensor_name_from_type_id(type_id as u16), label);
        if type_id == 0 {
            assert_eq!(type_id_from_name(name), None);
        } else {
            assert_eq!(type_id_from_name(name), Some(type_id as u16));
        }
    }
    assert_eq!(name_from_type_id(10), "no_match");
    assert_eq!(name_from_type_id(u16::MAX), "no_match");
    assert_eq!(type_id_from_name(""), None);
    assert_eq!(type_id_from_name("AHT20"), None);
    assert_eq!(type_id_from_name("aht2"), None);
}

#[test]
fn every_known_code_has_a_driver() {
    for type_id in 0..=20u16 {
        let driver = instantiate(type_id, general(b"x", type_id), [0; 32]);
        assert_eq!(driver.is_some(), (1..=9).contains(&type_id));
        if let Some(driver) = driver {
            assert_eq!(driver.get_type_id(), type_id);
            assert_eq!(driver.get_id(), *b"x\0\0\0\0\0");
            let mut storage = [0xEEu8; 64];
            driver.get_configuration_bytes(&mut storage);
            let general = SensorDriverGeneralConfiguration::new_from_bytes(
                rriv_datalogger::drivers::types::partition_of(&storage, 0),
            );
            let special = rriv_datalogger::drivers::types::partition_of(&storage, 1);
            let again = instantiate(general.sensor_type_id, general, special).unwrap();
            let mut second = [0x11u8; 64];
            again.get_configuration_bytes(&mut second);
            assert_eq!(storage, second);
            let count = again.get_measured_parameter_count();
            for index in 0..count {
                assert_eq!(
                    again.get_measured_parameter_identifier(index),
                    driver.get_measured_parameter_identifier(index)
                );
            }
        }
    }
}

#[test]
fn drivers_come_back_from_what_was_persisted() {
    let mut board = MockBoard::default();
    let mut logger = DataLogger::new();
    assert_eq!(logger.add_sensor(0, gas_sensor(), &mut board), Ok(()));
    assert_eq!(logger.add_sensor(3, switch_on_pin(2), &mut board), Ok(()));
    for slot in 0..13 {
        logger.store_sensor(slot, &mut board);
    }
    assert_eq!(board.eeprom[64..128], [0xFF; 64]);
    assert_eq!(board.eeprom[..6], *b"n2o\0\0\0");
    let mut rival = [0xFFu8; 64];
    switch_on_pin(6).get_configuration_bytes(&mut rival);
    board.eeprom[64 * 5..64 * 6].copy_from_slice(&rival);
    board.eeprom[64 * 7 + 6] = 200;
    board.gpio_modes.clear();
    let mut restored = DataLogger::new();
    restored.restore_sensors(&mut board);
    let kinds: Vec<Option<u16>> = restored
        .sensor_drivers
        .iter()
        .map(|slot| slot.as_ref().map(|driver| driver.get_type_id()))
        .collect();
    let mut expected = vec![None; 12];
    expected[0] = Some(4);
    expected[3] = Some(9);
    assert_eq!(kinds, expected);
    assert_eq!(board.gpio_modes, vec![(2, GpioMode::PushPullOutput)]);
    for slot in [0usize, 3] {
        let mut first = [0u8; 64];
        let mut second = [1u8; 64];
        logger.sensor_drivers[slot].as_ref().unwrap().get_configuration_bytes(&mut first);
        restored.sensor_drivers[slot].as_ref().unwrap().get_configuration_bytes(&mut second);
        assert_eq!(first, second);
    }
    assert!(rriv_datalogger::datalogger::driver_from_slot(&rival).is_some());
    assert!(rriv_datalogger::datalogger::driver_from_slot(&[0xFF; 64]).is_none());
    assert!(rriv_datalogger::datalogger::driver_from_slot(&[0; 64]).is_none());
}

#[test]
fn a_slot_is_persisted_as_its_driver_writes_it() {
    let mut board = MockBoard::default();
    let mut logger = DataLogger::new();
    assert_eq!(logger.add_sensor(4, switch_on_pin(3), &mut board), Ok(()));
    let mut written = [0u8; 64];
    switch_on_pin(3).get_configuration_bytes(&mut written);
    assert_eq!(logger.slot_bytes(4), written);
    assert_eq!(&logger.slot_bytes(4)[..8], &[b'h', b'e', b'a', b't', 0, 0, 9, 0][..]);
    assert_eq!(logger.slot_bytes(0), [0xFF; 64]);
    assert_eq!(logger.slot_bytes(11), [0xFF; 64]);
}

#[test]
fn restoring_takes_the_slots_in_their_order() {
    let mut stored = [0xFFu8; 768];
    let mut first = [0u8; 64];
    switch_on_pin(2).get_configuration_bytes(&mut first);
    let mut gas = [0u8; 64];
    gas_sensor().get_configuration_bytes(&mut gas);
    stored[64 * 2..64 * 3].copy_from_slice(&first);
    stored[64 * 5..64 * 6].copy_from_slice(&first);
    stored[64 * 8..64 * 9].copy_from_slice(&gas);
    stored[64 * 9 + 6] = 77;
    stored[64 * 9 + 7] = 0;

    let mut board = MockBoard::default();
    let mut logger = DataLogger::new();
    assert_eq!(logger.add_sensor(9, thermometer(b"water"), &mut board), Ok(()));
    assert_eq!(logger.add_sensor(11, gas_sensor(), &mut board), Ok(()));
    board.gpio_modes.clear();
    logger.restore_from(&stored, &mut board);
    let kinds: Vec<Option<u16>> = logger
        .sensor_drivers
        .iter()
        .map(|slot| slot.as_ref().map(|driver| driver.get_type_id()))
        .collect();
    let mut expected = vec![None; 12];
    expected[2] = Some(9);
    expected[9] = Some(6);
    expected[11] = Some(4);
    assert_eq!(kinds, expected);
    assert_eq!(board.gpio_modes, vec![(2, GpioMode::PushPullOutput)]);
    assert_eq!(logger.slot_bytes(2), first);
    assert_eq!(&logger.slot_bytes(9)[..6], b"water\0");

    let mut empty = DataLogger::new();
    empty.restore_from(&[0xFF; 768], &mut board);
    assert!(empty.sensor_drivers.iter().all(|slot| slot.is_none()));
    let mut twice = DataLogger::new();
    twice.restore_from(&stored, &mut board);
    let kinds: Vec<Option<u16>> = twice
        .sensor_drivers
        .iter()
        .map(|slot| slot.as_ref().map(|driver| driver.get_type_id()))
        .collect();
    let mut expected = vec![None; 12];
    expected[2] = Some(9);
    expected[8] = Some(4);
    assert_eq!(kinds, expected);
}
