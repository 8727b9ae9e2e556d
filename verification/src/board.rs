//! The capability surface that a board offers to the data logger: buses, pins,
//! clocks and the small non-volatile store. Drivers are written against the
//! `RRIVBoard` trait and hold for every board that implements it.

use vstd::prelude::*;

verus! {

/// Bytes reserved in the non-volatile store for the data logger's own settings.
pub const EEPROM_DATALOGGER_SETTINGS_SIZE: usize = 64;

/// Bytes reserved in the non-volatile store for each driver slot.
pub const EEPROM_SENSOR_SETTINGS_SIZE: usize = 64;

/// Length of the board's serial number.
pub const EEPROM_SERIAL_NUMBER_SIZE: usize = 5;

/// Number of driver slots in the non-volatile store.
pub const EEPROM_TOTAL_SENSOR_SLOTS: usize = 12;

/// Bytes taken by all driver slots together.
pub const EEPROM_SENSOR_REGION_SIZE: usize = 768;

/// Number of hardware errors that a board keeps.
pub const HARDWARE_ERROR_CAPACITY: usize = 5;

/// A storage fault raised by a board subsystem. `NoError` marks a free entry of
/// the error record.
#[derive(Clone, Copy, Debug, PartialEq, Eq, Structural)]
pub enum HardwareError {
    NoError,
    StorageFull,
    StorageMissing,
    StorageOther,
}

/// The electrical mode of a general-purpose pin.
#[derive(Clone, Copy, Debug, PartialEq, Eq, Structural)]
pub enum GpioMode {
    FloatingInput,
    PullUpInput,
    PullDownInput,
    PushPullOutput,
    OpenDrainOutput,
    Unset,
}

/// A consumer of bytes that arrive on a serial line. The board calls it from its
/// receive interrupt, one byte at a time.
pub trait RXProcessor {
    fn process_byte(&mut self, byte: u8);
}

/// The serial lines on which a byte consumer can be installed.
#[derive(Clone, Copy, Debug, PartialEq, Eq, Structural)]
pub enum SerialRxPeripheral {
    CommandSerial,
    SerialPeripheral1,
    SerialPeripheral2,
}

/// The services of a board. Nothing is promised of what a bus or a clock
/// returns: code written against this trait is verified for every outcome.
pub trait RRIVBoard {
    /// Housekeeping that the board needs once per cycle.
    fn run_loop_iteration(&mut self);

    /// Installs the consumer of the bytes received on `peripheral`.
    fn set_serial_rx_processor(
        &mut self,
        peripheral: SerialRxPeripheral,
        processor: Box<dyn RXProcessor>,
    );

    fn store_datalogger_settings(&mut self, bytes: &[u8; 64]);

    fn retrieve_datalogger_settings(&mut self, buffer: &mut [u8; 64]);

    /// Persists the partition of driver slot `slot`.
    fn store_sensor_settings(&mut self, slot: u8, bytes: &[u8; 64]);

    /// Reads the partitions of all driver slots, slot by slot.
    fn retrieve_sensor_settings(&mut self, buffer: &mut [u8; 768]);

    fn set_debug(&mut self, debug: bool);

    fn write_log_file(&mut self, text: &str);

    fn flush_log_file(&mut self);

    fn set_epoch(&mut self, epoch: i64);

    fn epoch_timestamp(&mut self) -> i64;

    fn get_millis(&mut self) -> u32;

    fn usb_serial_send(&mut self, text: &str);

    fn usart_send(&mut self, bytes: &[u8]);

    fn rs485_send(&mut self, message: &[u8]);

    fn serial_debug(&mut self, text: &str);

    fn delay_ms(&mut self, ms: u16);

    /// Wall-clock time in seconds.
    fn timestamp(&mut self) -> i64;

    /// A free-running millisecond counter that wraps.
    fn millis(&mut self) -> u32;

    fn get_battery_level(&mut self) -> i16;

    fn sleep(&mut self);

    fn dump_eeprom(&mut self);

    fn get_uid(&mut self) -> [u8; 12];

    fn set_serial_number(&mut self, serial_number: [u8; 5]) -> bool;

    fn get_serial_number(&mut self) -> [u8; 5];

    fn query_internal_adc(&mut self, port: u8) -> u16;

    fn query_external_adc(&mut self, port: u8) -> u16;

    /// Reads `buffer.len()` bytes from the device at `addr`.
    fn ic2_read(&mut self, addr: u8, buffer: &mut [u8]) -> (r: Result<(), ()>)
        ensures
            final(buffer)@.len() == old(buffer)@.len(),
    ;

    fn ic2_write(&mut self, addr: u8, message: &[u8]) -> Result<(), ()>;

    /// Writes `message` to the device at `addr`, then reads `buffer.len()` bytes.
    fn ic2_write_read(&mut self, addr: u8, message: &[u8], buffer: &mut [u8]) -> (r: Result<
        (),
        (),
    >)
        ensures
            final(buffer)@.len() == old(buffer)@.len(),
    ;

    fn write_gpio_pin(&mut self, pin: u8, value: bool);

    fn write_pwm_pin_duty(&mut self, value: u8);

    fn read_gpio_pin(&mut self, pin: u8) -> Result<bool, ()>;

    fn set_gpio_pin_mode(&mut self, pin: u8, mode: GpioMode);

    fn one_wire_send_command(&mut self, command: u8, address: u64);

    fn one_wire_reset(&mut self);

    fn one_wire_skip_address(&mut self);

    fn one_wire_write_byte(&mut self, byte: u8);

    fn one_wire_match_address(&mut self, address: u64);

    /// Reads `output.len()` bytes; fails where the checksum of what was read is
    /// wrong.
    fn one_wire_read_bytes(&mut self, output: &mut [u8]) -> (r: Result<(), ()>)
        ensures
            final(output)@.len() == old(output)@.len(),
    ;

    fn one_wire_bus_start_search(&mut self);

    fn one_wire_bus_search(&mut self) -> Option<u64>;

    fn read_temp_adc(&mut self) -> i32;

    fn disable_interrupts(&self);

    fn enable_interrupts(&self);

    /// The hardware errors currently raised.
    fn get_errors(&self) -> [HardwareError; 5];

    /// Raises the board's generic alarm.
    fn error_alarm(&mut self);
}

/// Brings a board up, peripheral by peripheral.
pub trait RRIVBoardBuilder {
    fn setup(&mut self);
}

/// Index of the first free entry of an error record, or its length where the
/// record is full.
pub open spec fn first_free_entry(errors: Seq<HardwareError>) -> int
    decreases errors.len(),
{
    if errors.len() == 0 {
        0
    } else if errors[0] == HardwareError::NoError {
        0
    } else {
        1 + first_free_entry(errors.subrange(1, errors.len() as int))
    }
}

/// The record after `error` was raised: it takes the first free entry, and is
/// dropped where none is free.
pub open spec fn with_error(errors: Seq<HardwareError>, error: HardwareError) -> Seq<
    HardwareError,
> {
    if first_free_entry(errors) < errors.len() {
        errors.update(first_free_entry(errors), error)
    } else {
        errors
    }
}

/// `first_free_entry` is the least index of a free entry, and lies within the
/// record.
pub proof fn lemma_first_free_entry(errors: Seq<HardwareError>)
    ensures
        0 <= first_free_entry(errors) <= errors.len(),
        forall|i: int| 0 <= i < first_free_entry(errors) ==> errors[i] != HardwareError::NoError,
        first_free_entry(errors) < errors.len() ==> errors[first_free_entry(errors)]
            == HardwareError::NoError,
    decreases errors.len(),
{
    if errors.len() > 0 && errors[0] != HardwareError::NoError {
        let rest = errors.subrange(1, errors.len() as int);
        lemma_first_free_entry(rest);
        assert forall|i: int| 0 <= i < first_free_entry(errors) implies errors[i]
            != HardwareError::NoError by {
            if i > 0 {
                assert(rest[i - 1] == errors[i]);
            }
        }
        if first_free_entry(errors) < errors.len() {
            assert(rest[first_free_entry(rest)] == errors[first_free_entry(errors)]);
        }
    }
}

/// Raises `hardware_error` in a bounded error record. Once the record is full,
/// further errors are dropped.
pub fn add_hardware_error(hardware_errors: &mut [HardwareError; 5], hardware_error: HardwareError)
    ensures
        final(hardware_errors)@ == with_error(old(hardware_errors)@, hardware_error),
{
    let mut i: usize = 0;
    while i < 5
        invariant
            i <= 5,
            hardware_errors@ == old(hardware_errors)@,
            forall|j: int| 0 <= j < i ==> hardware_errors@[j] != HardwareError::NoError,
        decreases 5 - i,
    {
        if hardware_errors[i] == HardwareError::NoError {
            proof {
                lemma_first_free_entry(old(hardware_errors)@);
            }
            hardware_errors[i] = hardware_error;
            assert(hardware_errors@ =~= with_error(old(hardware_errors)@, hardware_error));
            return;
        }
        i += 1;
    }
    proof {
        lemma_first_free_entry(old(hardware_errors)@);
    }
}

/// Takes the errors out of a record, to report them: the record is handed out
/// as it is, and is empty afterwards.
pub fn drain_hardware_errors(hardware_errors: &mut [HardwareError; 5]) -> (raised: [HardwareError;
    5])
    ensures
        raised == *old(hardware_errors),
        forall|i: int| 0 <= i < 5 ==> #[trigger] final(hardware_errors)@[i] == HardwareError::NoError,
{
    let raised: [HardwareError; 5] = *hardware_errors;
    *hardware_errors = [
        HardwareError::NoError,
        HardwareError::NoError,
        HardwareError::NoError,
        HardwareError::NoError,
        HardwareError::NoError,
    ];
    raised
}

/// The text shown to the user for a hardware error.
pub open spec fn error_text(error: HardwareError) -> Seq<char> {
    match error {
        HardwareError::NoError => "None"@,
        HardwareError::StorageFull => "SD Card Full"@,
        HardwareError::StorageMissing => "SD Card Missing"@,
        HardwareError::StorageOther => "SD Card Error"@,
    }
}

/// The text shown to the user for a hardware error.
pub fn hardware_error_text(error: HardwareError) -> (text: &'static str)
    ensures
        text@ == error_text(error),
{
    match error {
        HardwareError::NoError => "None",
        HardwareError::StorageFull => "SD Card Full",
        HardwareError::StorageMissing => "SD Card Missing",
        HardwareError::StorageOther => "SD Card Error",
    }
}

/// How often a send on the command line waits for the host before it gives up.
pub const USB_RETRY_CEILING: u16 = 100;

/// What came of writing to the command line.
#[derive(Clone, Copy, Debug, PartialEq, Eq, Structural)]
pub enum UsbWrite {
    /// So many bytes were taken.
    Written(usize),
    /// The host does not take bytes now.
    WouldBlock,
    /// The line failed.
    Failed,
}

/// What to do next while a text is sent on the command line.
#[derive(Clone, Copy, Debug, PartialEq, Eq, Structural)]
pub enum UsbSendStep {
    /// Write the bytes from this index on.
    Write { from: usize },
    /// Every byte was taken.
    Done,
    /// The host did not take the bytes in time.
    GiveUp,
}

/// How far a send on the command line has come.
#[derive(Clone, Copy, Debug, PartialEq, Eq, Structural)]
pub struct UsbSendState {
    /// Number of bytes that the host took.
    pub written: usize,
    /// Number of writes that took no byte.
    pub waits: u16,
}

/// How many more writes a send of `length` bytes can need at most.
pub open spec fn usb_writes_left(state: UsbSendState, length: usize) -> int {
    if state.written >= length || state.waits > USB_RETRY_CEILING {
        0
    } else {
        (length - state.written) + (USB_RETRY_CEILING + 1 - state.waits)
    }
}

/// What to do next: nothing more once every byte was taken, or once more
/// writes than allowed took no byte; else write what is left.
pub open spec fn usb_next_step(state: UsbSendState, length: usize) -> UsbSendStep {
    if state.written >= length {
        UsbSendStep::Done
    } else if state.waits > USB_RETRY_CEILING {
        UsbSendStep::GiveUp
    } else {
        UsbSendStep::Write { from: state.written }
    }
}

/// The state after a write: the bytes that were taken count as written; a
/// write that took none counts as a wait.
pub open spec fn usb_after_write(state: UsbSendState, length: usize, outcome: UsbWrite) -> UsbSendState {
    match outcome {
        UsbWrite::Written(count) => if count == 0 {
            UsbSendState { waits: (state.waits + 1) as u16, ..state }
        } else if count >= length - state.written {
            UsbSendState { written: length, ..state }
        } else {
            UsbSendState { written: (state.written + count) as usize, ..state }
        },
        _ => UsbSendState { waits: (state.waits + 1) as u16, ..state },
    }
}

impl UsbSendState {
    /// The state before the first write.
    pub fn new() -> (state: Self)
        ensures
            state.written == 0,
            state.waits == 0,
    {
        UsbSendState { written: 0, waits: 0 }
    }
}

/// What to do next while `length` bytes are sent on the command line.
pub fn usb_send_step(state: &UsbSendState, length: usize) -> (step: UsbSendStep)
    ensures
        step == usb_next_step(*state, length),
        step is Write <==> usb_writes_left(*state, length) > 0,
{
    if state.written >= length {
        UsbSendStep::Done
    } else if state.waits > USB_RETRY_CEILING {
        UsbSendStep::GiveUp
    } else {
        UsbSendStep::Write { from: state.written }
    }
}

/// Takes what came of the write that `usb_send_step` asked for, and says
/// whether to wait a millisecond before the next. Every write brings the send
/// nearer to its end: a send of `length` bytes ends after `length` writes and a
/// hundred and one waits at most.
pub fn usb_send_record(state: &mut UsbSendState, length: usize, outcome: UsbWrite) -> (wait: bool)
    requires
        usb_next_step(*old(state), length) is Write,
    ensures
        *final(state) == usb_after_write(*old(state), length, outcome),
        wait == (final(state).waits != old(state).waits),
        usb_writes_left(*final(state), length) < usb_writes_left(*old(state), length),
{
    match outcome {
        UsbWrite::Written(count) => {
            if count == 0 {
                state.waits = state.waits + 1;
                true
            } else if count >= length - state.written {
                state.written = length;
                false
            } else {
                state.written = state.written + count;
                false
            }
        },
        _ => {
            state.waits = state.waits + 1;
            true
        },
    }
}

/// Whether a serial number is the one of a board that was never given one: the
/// bytes of an erased store. Only such a board takes a serial number.
pub fn serial_number_is_unset(serial_number: &[u8; 5]) -> (unset: bool)
    ensures
        unset == forall|i: int| 0 <= i < 5 ==> #[trigger] serial_number@[i] == 0xFF,
{
    serial_number[0] == 0xFF && serial_number[1] == 0xFF && serial_number[2] == 0xFF
        && serial_number[3] == 0xFF && serial_number[4] == 0xFF
}

/// The partition of driver slot `slot` within the bytes of all slots.
pub fn sensor_settings_of(buffer: &[u8; 768], slot: usize) -> (bytes: [u8; 64])
    requires
        slot < EEPROM_TOTAL_SENSOR_SLOTS,
    ensures
        bytes@ == buffer@.subrange(64 * slot, 64 * slot + 64),
{
    let mut bytes: [u8; 64] = [0; 64];
    let mut i: usize = 0;
    while i < 64
        invariant
            i <= 64,
            slot < 12,
            forall|j: int| 0 <= j < i ==> #[trigger] bytes@[j] == buffer@[64 * slot + j],
        decreases 64 - i,
    {
        bytes[i] = buffer[64 * slot + i];
        i += 1;
    }
    assert(bytes@ =~= buffer@.subrange(64 * slot, 64 * slot + 64));
    bytes
}

/// The checksum of the one-wire bus over `bytes`, as `crc8` of the
/// `one_wire_bus` crate computes it. Data that is followed by its own checksum
/// has the checksum zero.
pub uninterp spec fn one_wire_crc8(bytes: Seq<u8>) -> u8;

/// `one_wire_bus::crc::crc8`: the checksum of the bytes given.
#[verifier::external_body]
fn crc8_of(bytes: &[u8]) -> (crc: u8)
    ensures
        crc == one_wire_crc8(bytes@),
{
    one_wire_bus::crc::crc8(bytes)
}

/// Checks what was read from the one-wire bus, the checksum at its end
/// included. A board calls this on the bytes that it read, and fails the read
/// where the check fails.
pub fn check_one_wire_crc(output: &[u8]) -> (r: Result<(), ()>)
    ensures
        r is Ok == (one_wire_crc8(output@) == 0),
{
    if crc8_of(output) != 0 {
        Err(())
    } else {
        Ok(())
    }
}

} // verus!
