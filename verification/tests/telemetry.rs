//! What the telemeters send.

use std::collections::VecDeque;

use rriv_datalogger::board::{GpioMode, HardwareError, RRIVBoard, RXProcessor, SerialRxPeripheral};
use rriv_datalogger::telemetry::codecs::naive_codec::encode;
use rriv_datalogger::telemetry::telemeters::modbus::{
    frame_to_send, input_registers, response_frame, send_input_registers_response, transmit,
    ModBusRTU,
};
use rriv_datalogger::telemetry::telemeters::serial::{run_loop_iteration, timestamp_message};
use rriv_datalogger::telemetry::telemeters::{telemetry_values, Telemeter};

#[derive(Default)]
struct MockBoard {
    now_s: i64,
    now_ms: u32,
    delays: Vec<u16>,
    gpio_writes: Vec<(u32, u8, bool)>,
    gpio_modes: Vec<(u8, GpioMode)>,
    i2c_reads: VecDeque<Result<Vec<u8>, ()>>,
    i2c_default_read: Option<Vec<u8>>,
    i2c_write_fails: bool,
    i2c_writes: Vec<(u8, Vec<u8>)>,
    one_wire_reply: Option<Vec<u8>>,
    one_wire_written: Vec<u8>,
    usart_sent: Vec<Vec<u8>>,
    debug_lines: Vec<String>,
    temp_adc: i32,
    installed: Vec<SerialRxPeripheral>,
    calls: Vec<&'static str>,
}

impl MockBoard {
    fn fill(buffer: &mut [u8], reply: Result<Vec<u8>, ()>) -> Result<(), ()> {
        match reply {
            Ok(bytes) => {
                for (place, byte) in buffer.iter_mut().zip(bytes.iter()) {
                    *place = *byte;
                }
                Ok(())
            }
            Err(()) => Err(()),
        }
    }

    fn next_read(&mut self) -> Result<Vec<u8>, ()> {
        match self.i2c_reads.pop_front() {
            Some(reply) => reply,
            None => match &self.i2c_default_read {
                Some(bytes) => Ok(bytes.clone()),
                None => Err(()),
            },
        }
    }
}

impl RRIVBoard for MockBoard {
    fn run_loop_iteration(&mut self) {}
    fn set_serial_rx_processor(&mut self, peripheral: SerialRxPeripheral, _processor: Box<dyn RXProcessor>) {
        self.installed.push(peripheral);
    }
    fn store_datalogger_settings(&mut self, _bytes: &[u8; 64]) {}
    fn retrieve_datalogger_settings(&mut self, _buffer: &mut [u8; 64]) {}
    fn store_sensor_settings(&mut self, _slot: u8, _bytes: &[u8; 64]) {}
    fn retrieve_sensor_settings(&mut self, _buffer: &mut [u8; 768]) {}
    fn set_debug(&mut self, _debug: bool) {}
    fn write_log_file(&mut self, _text: &str) {}
    fn flush_log_file(&mut self) {}
    fn set_epoch(&mut self, epoch: i64) {
        self.now_s = epoch;
    }
    fn epoch_timestamp(&mut self) -> i64 {
        self.now_s
    }
    fn get_millis(&mut self) -> u32 {
        self.now_ms
    }
    fn usb_serial_send(&mut self, _text: &str) {}
    fn usart_send(&mut self, bytes: &[u8]) {
        self.usart_sent.push(bytes.to_vec());
    }
    fn rs485_send(&mut self, _message: &[u8]) {}
    fn serial_debug(&mut self, text: &str) {
        self.debug_lines.push(text.to_string());
    }
    fn delay_ms(&mut self, ms: u16) {
        self.delays.push(ms);
        self.now_ms = self.now_ms.wrapping_add(ms as u32);
    }
    fn timestamp(&mut self) -> i64 {
        self.now_s
    }
    fn millis(&mut self) -> u32 {
        self.now_ms
    }
    fn get_battery_level(&mut self) -> i16 {
        0
    }
    fn sleep(&mut self) {}
    fn dump_eeprom(&mut self) {}
    fn get_uid(&mut self) -> [u8; 12] {
        [0; 12]
    }
    fn set_serial_number(&mut self, _serial_number: [u8; 5]) -> bool {
        false
    }
    fn get_serial_number(&mut self) -> [u8; 5] {
        [0; 5]
    }
    fn query_internal_adc(&mut self, _port: u8) -> u16 {
        0
    }
    fn query_external_adc(&mut self, _port: u8) -> u16 {
        0
    }
    fn ic2_read(&mut self, _addr: u8, buffer: &mut [u8]) -> Result<(), ()> {
        self.calls.push("ic2_read");
        let reply = self.next_read();
        MockBoard::fill(buffer, reply)
    }
    fn ic2_write(&mut self, addr: u8, message: &[u8]) -> Result<(), ()> {
        self.calls.push("ic2_write");
        self.i2c_writes.push((addr, message.to_vec()));
        if self.i2c_write_fails {
            Err(())
        } else {
            Ok(())
        }
    }
    fn ic2_write_read(&mut self, addr: u8, message: &[u8], buffer: &mut [u8]) -> Result<(), ()> {
        self.calls.push("ic2_write_read");
        self.i2c_writes.push((addr, message.to_vec()));
        if self.i2c_write_fails {
            return Err(());
        }
        let reply = self.next_read();
        MockBoard::fill(buffer, reply)
    }
    fn write_gpio_pin(&mut self, pin: u8, value: bool) {
        self.gpio_writes.push((self.now_ms, pin, value));
    }
    fn write_pwm_pin_duty(&mut self, _value: u8) {}
    fn read_gpio_pin(&mut self, _pin: u8) -> Result<bool, ()> {
        Err(())
    }
    fn set_gpio_pin_mode(&mut self, pin: u8, mode: GpioMode) {
        self.gpio_modes.push((pin, mode));
    }
    fn one_wire_send_command(&mut self, _command: u8, _address: u64) {}
    fn one_wire_reset(&mut self) {}
    fn one_wire_skip_address(&mut self) {}
    fn one_wire_write_byte(&mut self, byte: u8) {
        self.one_wire_written.push(byte);
    }
    fn one_wire_match_address(&mut self, _address: u64) {}
    fn one_wire_read_bytes(&mut self, output: &mut [u8]) -> Result<(), ()> {
        match self.one_wire_reply.clone() {
            Some(bytes) => MockBoard::fill(output, Ok(bytes)),
            None => Err(()),
        }
    }
    fn one_wire_bus_start_search(&mut self) {}
    fn one_wire_bus_search(&mut self) -> Option<u64> {
        None
    }
    fn read_temp_adc(&mut self) -> i32 {
        self.temp_adc
    }
    fn disable_interrupts(&self) {}
    fn enable_interrupts(&self) {}
    fn get_errors(&self) -> [HardwareError; 5] {
        [HardwareError::NoError; 5]
    }
    fn error_alarm(&mut self) {}
}

const VALUES: [i16; 16] = [10, -1, 32767, 0, 0, 0, 0, 0, 0, 0, 0, 0, 0, 0, 0, 0];

const FRAME: [u8; 37] = [
    24, 4, 32, 0, 10, 255, 255, 127, 255, 0, 0, 0, 0, 0, 0, 0, 0, 0, 0, 0, 0, 0, 0, 0, 0, 0, 0, 0, 0,
    0, 0, 0, 0, 0, 0, 142, 91,
];

#[test]
fn the_values_of_a_cycle_fill_the_input_registers() {
    let registers = input_registers(&VALUES);
    assert_eq!(registers[..4], [10, 0xFFFF, 0x7FFF, 0]);
    assert_eq!(input_registers(&[i16::MIN; 16]), [0x8000; 16]);
    assert_eq!(response_frame(&VALUES), Some(FRAME.to_vec()));
}

#[test]
fn the_answer_goes_out_while_the_transceiver_sends() {
    let mut board = MockBoard::default();
    send_input_registers_response(&mut board, &VALUES);
    assert_eq!(board.gpio_modes, vec![(1, GpioMode::PushPullOutput)]);
    assert_eq!(board.gpio_writes, vec![(0, 1, true), (0, 1, false)]);
    assert_eq!(board.usart_sent, vec![FRAME.to_vec()]);
    transmit(&mut board, &[1, 2, 3]);
    assert_eq!(board.usart_sent[1], vec![1, 2, 3]);
    let mut telemeter = ModBusRTU();
    assert!(telemeter.ready_to_transmit(&mut board));
    telemeter.run_loop_iteration(&mut board);
    telemeter.process_events(&mut board);
    Telemeter::transmit(&mut telemeter, &mut board, &VALUES);
    assert_eq!(board.usart_sent[2], FRAME.to_vec());
    let request = telemeter.get_requested_gpios();
    assert_eq!(
        request.claimed,
        [false, false, false, false, false, false, false, false, false, true]
    );
}

#[test]
fn a_refusal_is_sent_where_the_answer_cannot_be_framed() {
    assert_eq!(frame_to_send(Ok(vec![1]), Ok(vec![2])), Some(vec![1]));
    assert_eq!(frame_to_send(Ok(vec![1]), Err(())), Some(vec![1]));
    assert_eq!(frame_to_send(Err(()), Ok(vec![2])), Some(vec![2]));
    assert_eq!(frame_to_send(Err(()), Err(())), None);
}

#[test]
fn values_are_sent_in_tenths() {
    let values = vec![
        Some(25_250_000),
        None,
        Some(-1_999_999),
        Some(i64::MAX),
        Some(i64::MIN),
        Some(3_276_600_000),
        Some(3_276_700_000),
        Some(-3_276_800_000),
        Some(99_999),
    ];
    let sent = telemetry_values(&values);
    assert_eq!(
        sent,
        [252, 32767, -19, 32766, -32768, 32766, 32766, -32768, 0, 32767, 32767, 32767, 32767, 32767, 32767, 32767]
    );
    let many: Vec<Option<i64>> = (0..40).map(|i| Some(i * 100_000)).collect();
    let sent = telemetry_values(&many);
    assert_eq!(sent[15], 15);
    assert_eq!(telemetry_values(&[]), [32767; 16]);
}

#[test]
fn the_serial_telemeter_reports_the_time() {
    assert_eq!(timestamp_message(1_700_000_000), b"timestamp:1700000000".to_vec());
    assert_eq!(timestamp_message(0), b"timestamp:0".to_vec());
    assert_eq!(timestamp_message(-12), b"timestamp:-12".to_vec());
    let mut board = MockBoard::default();
    board.now_s = 42;
    run_loop_iteration(&mut board);
    assert_eq!(board.usart_sent, vec![b"timestamp:42".to_vec()]);
}

#[test]
fn a_cycle_is_packed_with_the_high_byte_first() {
    let bytes = encode(0x0102_0304_0506_0708, &[0x1122, -2, 0x7FFF]);
    assert_eq!(
        bytes,
        [
            1, 2, 3, 4, 5, 6, 7, 8, 0x11, 0x22, 0, 0, 0xFF, 0xFE, 0, 0, 0x7F, 0xFF, 0, 0, 0, 0
        ]
    );
    let bytes = encode(-1, &[]);
    assert_eq!(bytes[..8], [0xFF; 8]);
    assert_eq!(bytes[8..], [0; 14]);
    let bytes = encode(i64::MIN, &[i16::MIN]);
    assert_eq!(bytes[..10], [0x80, 0, 0, 0, 0, 0, 0, 0, 0x80, 0]);
    assert_eq!(bytes[10..], [0; 12]);
    let bytes = encode(1_700_000_000, &[1, 2, 3, 4, 5]);
    assert_eq!(bytes[..8], 1_700_000_000i64.to_be_bytes());
    assert_eq!(bytes[8..], [0, 1, 0, 0, 0, 2, 0, 0, 0, 3, 0, 0, 0, 0]);
}
