//! Frames from the Modbus line: the bytes that the receive interrupt brings are
//! kept in a frame buffer until a frame with a good checksum stands in them.
//! One frame at a time waits for the main cycle.

use vstd::prelude::*;
use crate::board::{RRIVBoard, RXProcessor, SerialRxPeripheral};
use crate::drivers::types::ModbusResponse;

verus! {

/// Bytes that the frame buffer holds at most, and bytes of the longest frame.
pub const BUFFER_SIZE: usize = 64;

/// The function code of an answer with input registers.
pub const READ_INPUT_REGISTERS: u8 = 0x04;

/// The frame buffer of the `modbus_buffer` crate: a ring of bytes.
#[verifier::external_type_specification]
#[verifier::external_body]
pub struct ExModbusBuffer<const CAPACITY: usize>(modbus_buffer::ModbusBuffer<CAPACITY>);

/// The bytes that a frame buffer holds, oldest first.
pub uninterp spec fn buffered(buffer: modbus_buffer::ModbusBuffer<64>) -> Seq<u8>;

/// Where `ModbusBuffer::try_decode_frame` finds a frame in the bytes of a frame
/// buffer that asks for frames of three bytes at least: the index of the first
/// byte of the frame and the index behind its last, in front of the two bytes
/// of its checksum. It finds none where no run of the bytes ends in its own
/// checksum.
pub uninterp spec fn frame_window(bytes: Seq<u8>) -> Option<(int, int)>;

/// The bytes of a frame buffer after a byte was pushed: where the buffer was
/// full, its oldest byte made room.
pub open spec fn pushed(bytes: Seq<u8>, byte: u8) -> Seq<u8> {
    if bytes.len() >= 64 {
        bytes.drop_first().push(byte)
    } else {
        bytes.push(byte)
    }
}

/// `ModbusBuffer::new`: an empty frame buffer. It asks for frames of three
/// bytes at least and overwrites its oldest byte when full, as the crate sets
/// it up by default.
#[verifier::external_body]
fn new_frame_buffer() -> (buffer: modbus_buffer::ModbusBuffer<64>)
    ensures
        buffered(buffer) == Seq::<u8>::empty(),
{
    modbus_buffer::ModbusBuffer::<64>::new()
}

/// `ModbusBuffer::push`: puts a byte behind the bytes held; a full buffer
/// drops its oldest byte for it. The buffer never holds more than its
/// capacity.
#[verifier::external_body]
fn frame_buffer_push(buffer: &mut modbus_buffer::ModbusBuffer<64>, byte: u8)
    ensures
        buffered(*final(buffer)) == pushed(buffered(*old(buffer)), byte),
        buffered(*final(buffer)).len() <= 64,
{
    buffer.push(byte)
}

/// `ModbusBuffer::try_decode_frame`: looks for a frame in the bytes held. Where
/// it finds none, nothing changes. Where it finds one, it copies the frame,
/// without its checksum, to the front of `output`, returns its length, and
/// drops the bytes up to the end of the checksum from the buffer. A frame has
/// three bytes at least and lies, with its checksum, within the bytes held.
#[verifier::external_body]
fn frame_buffer_try_decode(
    buffer: &mut modbus_buffer::ModbusBuffer<64>,
    output: &mut [u8; 64],
) -> (length: Option<usize>)
    ensures
        match frame_window(buffered(*old(buffer))) {
            None => length is None && buffered(*final(buffer)) == buffered(*old(buffer))
                && *final(output) == *old(output),
            Some((head, tail)) => {
                &&& length == Some((tail - head) as usize)
                &&& 0 <= head
                &&& head + 3 <= tail
                &&& tail + 2 <= buffered(*old(buffer)).len() <= 64
                &&& buffered(*final(buffer)) == buffered(*old(buffer)).subrange(
                    tail + 2,
                    buffered(*old(buffer)).len() as int,
                )
                &&& final(output)@.subrange(0, tail - head) == buffered(*old(buffer)).subrange(
                    head,
                    tail,
                )
                &&& final(output)@.subrange(tail - head, 64) == old(output)@.subrange(
                    tail - head,
                    64,
                )
            },
        },
{
    buffer.try_decode_frame(output)
}

/// A frame buffer with the settings that the consumer of the line needs: it
/// holds sixty-four bytes, asks for frames of three bytes at least, and lets
/// its oldest byte go when it is full.
#[derive(Debug)]
pub struct FrameBuffer {
    inner: modbus_buffer::ModbusBuffer<64>,
}

impl View for FrameBuffer {
    type V = Seq<u8>;

    /// The bytes that the buffer holds, oldest first.
    closed spec fn view(&self) -> Seq<u8> {
        buffered(self.inner)
    }
}

impl FrameBuffer {
    /// An empty frame buffer.
    pub fn new() -> (buffer: Self)
        ensures
            buffer@ == Seq::<u8>::empty(),
    {
        FrameBuffer { inner: new_frame_buffer() }
    }

    /// Puts a byte behind the bytes held; a full buffer drops its oldest byte
    /// for it.
    pub fn push(&mut self, byte: u8)
        ensures
            final(self)@ == pushed(old(self)@, byte),
            final(self)@.len() <= 64,
    {
        frame_buffer_push(&mut self.inner, byte);
    }

    /// Looks for a frame in the bytes held. Where there is none, nothing
    /// changes. Where there is one, it is copied, without its checksum, to the
    /// front of `output`, its length is returned, and the bytes up to the end
    /// of its checksum leave the buffer.
    pub fn try_decode_frame(&mut self, output: &mut [u8; 64]) -> (length: Option<usize>)
        ensures
            match frame_window(old(self)@) {
                None => length is None && final(self)@ == old(self)@ && *final(output) == *old(output),
                Some((head, tail)) => {
                    &&& length == Some((tail - head) as usize)
                    &&& 0 <= head
                    &&& head + 3 <= tail
                    &&& tail + 2 <= old(self)@.len() <= 64
                    &&& final(self)@ == old(self)@.subrange(tail + 2, old(self)@.len() as int)
                    &&& final(output)@.subrange(0, tail - head) == old(self)@.subrange(head, tail)
                    &&& final(output)@.subrange(tail - head, 64) == old(output)@.subrange(
                        tail - head,
                        64,
                    )
                },
            },
    {
        frame_buffer_try_decode(&mut self.inner, output)
    }
}

/// The input registers that the data of an answer holds: each two bytes, the
/// high byte first.
pub open spec fn registers_of(data: Seq<u8>) -> Seq<u16> {
    Seq::new(data.len() / 2, |i: int| (data[2 * i] * 256 + data[2 * i + 1]) as u16)
}

/// Whether a frame is an answer with input registers that is complete: behind
/// the address of the device and the function code it names an even number of
/// data bytes, and holds them.
pub open spec fn holds_registers(frame: Seq<u8>) -> bool {
    frame.len() >= 3 && frame[1] == READ_INPUT_REGISTERS && frame[2] % 2 == 0 && 3 + frame[2]
        <= frame.len()
}

/// Whether a frame is the refusal of a request: its function code has the high
/// bit set.
pub open spec fn is_exception(frame: Seq<u8>) -> bool {
    frame.len() >= 2 && frame[1] >= 0x80
}

/// Reads a frame, without its checksum, as the answer of a device.
pub fn parse_response(frame: &[u8]) -> (response: ModbusResponse)
    ensures
        is_exception(frame@) ==> response is Exception,
        holds_registers(frame@) ==> (response matches ModbusResponse::ReadInputRegisters(registers)
            && registers@ == registers_of(frame@.subrange(3, 3 + frame@[2]))),
        !is_exception(frame@) && !holds_registers(frame@) ==> response is OtherFunction,
{
    let n: usize = frame.len();
    if n >= 2 && frame[1] >= 0x80 {
        return ModbusResponse::Exception;
    }
    if n >= 3 && frame[1] == READ_INPUT_REGISTERS && frame[2] % 2 == 0 && 3 + frame[2] as usize
        <= n {
        let count: usize = (frame[2] / 2) as usize;
        let ghost data = frame@.subrange(3, 3 + frame@[2]);
        let mut registers: Vec<u16> = Vec::new();
        let mut i: usize = 0;
        while i < count
            invariant
                i <= count,
                count == frame@[2] / 2,
                frame@[2] % 2 == 0,
                3 + frame@[2] <= frame@.len(),
                data == frame@.subrange(3, 3 + frame@[2]),
                registers@.len() == i,
                forall|j: int| 0 <= j < i ==> #[trigger] registers@[j] == registers_of(data)[j],
            decreases count - i,
        {
            let high: u16 = frame[3 + 2 * i] as u16;
            let low: u16 = frame[4 + 2 * i] as u16;
            registers.push(high * 256 + low);
            i += 1;
        }
        assert(registers@ =~= registers_of(data));
        return ModbusResponse::ReadInputRegisters(registers);
    }
    ModbusResponse::OtherFunction
}

/// Whether `after` is the consumer `before` once it took the byte `byte`. While
/// a frame waits, the byte is dropped. Else it is put in the frame buffer, and
/// a frame that now stands there is taken out of the buffer and waits.
pub open spec fn byte_taken(before: ModbusByteProcessor, byte: u8, after: ModbusByteProcessor) -> bool {
    if before.pending_message_size > 0 {
        after.pending_message_size == before.pending_message_size && after.message
            == before.message && after.modbus_buffer@ == before.modbus_buffer@
    } else {
        let bytes = pushed(before.modbus_buffer@, byte);
        match frame_window(bytes) {
            None => after.pending_message_size == 0 && after.message == before.message
                && after.modbus_buffer@ == bytes,
            Some((head, tail)) => {
                &&& after.pending_message_size == tail - head
                &&& tail - head <= 64
                &&& after.message@.subrange(0, tail - head) == bytes.subrange(head, tail)
                &&& after.message@.subrange(tail - head, 64) == before.message@.subrange(
                    tail - head,
                    64,
                )
                &&& after.modbus_buffer@ == bytes.subrange(tail + 2, bytes.len() as int)
            },
        }
    }
}

/// The consumer of the bytes of the Modbus line.
#[derive(Debug)]
pub struct ModbusByteProcessor {
    /// The bytes that came and are part of no frame yet.
    pub modbus_buffer: FrameBuffer,
    /// The frame that waits, at the front, without its checksum.
    pub message: [u8; 64],
    /// Length of the frame that waits; 0 where none does.
    pub pending_message_size: usize,
}

impl ModbusByteProcessor {
    /// What holds of the consumer between calls.
    pub open spec fn well_formed(&self) -> bool {
        self.pending_message_size <= 64
    }

    /// A consumer without bytes and without a frame.
    pub fn new() -> (processor: ModbusByteProcessor)
        ensures
            processor.well_formed(),
            processor.pending_message_size == 0,
            processor.modbus_buffer@ == Seq::<u8>::empty(),
            forall|i: int| 0 <= i < 64 ==> #[trigger] processor.message@[i] == 0xFF,
    {
        let line: [u8; 64] = [
            0xFF, 0xFF, 0xFF, 0xFF, 0xFF, 0xFF, 0xFF, 0xFF, 0xFF, 0xFF, 0xFF, 0xFF, 0xFF, 0xFF,
            0xFF, 0xFF, 0xFF, 0xFF, 0xFF, 0xFF, 0xFF, 0xFF, 0xFF, 0xFF, 0xFF, 0xFF, 0xFF, 0xFF,
            0xFF, 0xFF, 0xFF, 0xFF, 0xFF, 0xFF, 0xFF, 0xFF, 0xFF, 0xFF, 0xFF, 0xFF, 0xFF, 0xFF,
            0xFF, 0xFF, 0xFF, 0xFF, 0xFF, 0xFF, 0xFF, 0xFF, 0xFF, 0xFF, 0xFF, 0xFF, 0xFF, 0xFF,
            0xFF, 0xFF, 0xFF, 0xFF, 0xFF, 0xFF, 0xFF, 0xFF,
        ];
        ModbusByteProcessor {
            modbus_buffer: FrameBuffer::new(),
            message: line,
            pending_message_size: 0,
        }
    }

    /// Takes one byte from the line. While a frame waits, the byte is dropped.
    /// Else it is put in the frame buffer, and a frame that now stands there
    /// is taken out of the buffer and waits.
    pub fn take_byte(&mut self, byte: u8)
        requires
            old(self).well_formed(),
        ensures
            final(self).well_formed(),
            byte_taken(*old(self), byte, *final(self)),
            old(self).pending_message_size > 0 ==> final(self).pending_message_size == old(self).pending_message_size && final(self).message == old(self).message && final(self).modbus_buffer@ == old(self).modbus_buffer@,
            old(self).pending_message_size == 0 ==> {
                let bytes = pushed(old(self).modbus_buffer@, byte);
                match frame_window(bytes) {
                    None => final(self).pending_message_size == 0 && final(self).message == old(self).message && final(self).modbus_buffer@ == bytes,
                    Some((head, tail)) => {
                        &&& final(self).pending_message_size == tail - head
                        &&& final(self).message@.subrange(0, tail - head) == bytes.subrange(
                            head,
                            tail,
                        )
                        &&& final(self).modbus_buffer@ == bytes.subrange(
                            tail + 2,
                            bytes.len() as int,
                        )
                    },
                }
            },
    {
        if self.pending_message_size > 0 {
            return;
        }
        self.modbus_buffer.push(byte);
        let mut frame: [u8; 64] = self.message;
        match self.modbus_buffer.try_decode_frame(&mut frame) {
            Some(size) => {
                self.message = frame;
                self.pending_message_size = size;
            },
            None => {},
        }
    }

    /// Takes the frame that waits and reads it as the answer of a device, with
    /// the interrupts masked. Fails where no frame waits.
    pub fn take_message<B: RRIVBoard>(&mut self, board: &B) -> (r: Result<ModbusResponse, ()>)
        requires
            old(self).well_formed(),
        ensures
            final(self).well_formed(),
            final(self).pending_message_size == 0,
            final(self).message == old(self).message,
            final(self).modbus_buffer@ == old(self).modbus_buffer@,
            r is Ok == (old(self).pending_message_size > 0),
            r matches Ok(response) ==> {
                let frame = old(self).message@.subrange(0, old(self).pending_message_size as int);
                &&& is_exception(frame) ==> response is Exception
                &&& holds_registers(frame) ==> (response matches ModbusResponse::ReadInputRegisters(
                    registers,
                ) && registers@ == registers_of(frame.subrange(3, 3 + frame[2])))
                &&& !is_exception(frame) && !holds_registers(frame) ==> response is OtherFunction
            },
    {
        board.disable_interrupts();
        let r: Result<ModbusResponse, ()> = if self.pending_message_size > 0 {
            let frame: &[u8] = vstd::slice::slice_subrange(
                self.message.as_slice(),
                0,
                self.pending_message_size,
            );
            Ok(parse_response(frame))
        } else {
            Err(())
        };
        self.pending_message_size = 0;
        board.enable_interrupts();
        r
    }
}

impl RXProcessor for ModbusByteProcessor {
    /// Takes one byte from the line. A consumer that is not well formed takes
    /// nothing.
    fn process_byte(&mut self, byte: u8)
        ensures
            if old(self).well_formed() {
                byte_taken(*old(self), byte, *final(self)) && final(self).well_formed()
            } else {
                *final(self) == *old(self)
            },
    {
        if self.pending_message_size <= BUFFER_SIZE {
            self.take_byte(byte);
        }
    }
}

/// Installs a consumer without bytes on the second serial peripheral.
pub fn setup<B: RRIVBoard>(board: &mut B) {
    let processor: Box<dyn RXProcessor> = Box::new(ModbusByteProcessor::new());
    board.set_serial_rx_processor(SerialRxPeripheral::SerialPeripheral2, processor);
}

} // verus!
