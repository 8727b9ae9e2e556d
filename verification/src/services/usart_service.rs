//! Lines from the serial line: a ring of three line buffers that the receive
//! interrupt fills, one byte at a time, and the main cycle drains.
//!
//! One buffer of the ring is always kept free as the end marker, so that two
//! finished lines can wait while a third one would be dropped.

use vstd::prelude::*;
use crate::board::{RRIVBoard, RXProcessor};

verus! {

/// Number of line buffers, the end marker included.
pub const USART_BUFFER_NUM: usize = 3;

/// Bytes of a line buffer.
pub const USART_BUFFER_SIZE: usize = 50;

/// The ring of line buffers.
#[derive(Clone, Copy, Debug)]
pub struct MessageData {
    pub buffer: [[u8; 50]; 3],
    /// The buffer that is being filled.
    pub cur: usize,
    /// The buffer that marks the end of the ring: the one in front of the
    /// oldest line that waits.
    pub end: usize,
    /// Where the next byte goes in the buffer that is being filled.
    pub command_pos: usize,
}

/// Number of finished lines that wait: the buffers behind the end marker up to
/// the one that is being filled.
pub open spec fn waiting(cur: usize, end: usize) -> int {
    (cur + 3 - (end + 1) % 3) % 3
}

/// Whether byte `character` ends the line that byte `last` was the last of:
/// a line feed behind a carriage return.
pub open spec fn ends_line(character: u8, pos: usize, last: u8) -> bool {
    character == 0x0A && pos > 0 && last == 0x0D
}

impl MessageData {
    /// What holds of the ring between calls.
    pub open spec fn well_formed(&self) -> bool {
        self.cur < 3 && self.end < 3 && self.command_pos < 50
    }

    /// An empty ring.
    pub fn default() -> (data: Self)
        ensures
            data.well_formed(),
            data.cur == 0,
            data.end == 2,
            data.command_pos == 0,
            waiting(data.cur, data.end) == 0,
            forall|i: int, j: int|
                0 <= i < 3 && 0 <= j < 50 ==> (#[trigger] data.buffer@[i]@[j]) == 0,
    {
        let line: [u8; 50] = [
            0, 0, 0, 0, 0, 0, 0, 0, 0, 0, 0, 0, 0, 0, 0, 0, 0, 0, 0, 0, 0, 0, 0, 0, 0, 0, 0, 0, 0, 0,
            0, 0, 0, 0, 0, 0, 0, 0, 0, 0, 0, 0, 0, 0, 0, 0, 0, 0, 0, 0,
        ];
        MessageData { cur: 0, end: 2, command_pos: 0, buffer: [line, line, line] }
    }
}

/// Whether `after` is the ring `before` once it took the byte `character`.
///
/// While the ring is full the byte is dropped. A line feed behind a carriage
/// return finishes the line, and the carriage return is taken out of it. A
/// byte that would fill the last place of the buffer finishes the line too,
/// and is dropped. Any other byte is put behind the line. The line buffers
/// that are not being filled stay as they are, and so does the end marker.
pub open spec fn character_taken(before: MessageData, character: u8, after: MessageData) -> bool {
    if before.cur == before.end {
        after == before
    } else {
        let cur = before.cur as int;
        let pos = before.command_pos;
        let line = before.buffer@[cur]@;
        let finished = ends_line(character, pos, line[pos - 1]);
        &&& after.end == before.end
        &&& forall|i: int| 0 <= i < 3 && i != cur ==> #[trigger] after.buffer@[i] == before.buffer@[i]
        &&& if finished || pos >= 49 {
            &&& after.cur == (cur + 1) % 3
            &&& after.command_pos == 0
            &&& after.buffer@[cur]@ == if finished {
                line.update(pos - 1, 0u8)
            } else {
                line
            }
        } else {
            &&& after.cur == cur
            &&& after.command_pos == pos + 1
            &&& after.buffer@[cur]@ == line.update(pos as int, character)
        }
    }
}

/// Takes one byte from the serial line.
///
/// While the ring is full the byte is dropped. A line feed behind a carriage
/// return finishes the line, and the carriage return is taken out of it. A
/// byte that would fill the last place of the buffer finishes the line too,
/// and is dropped. Any other byte is put behind the line.
pub fn process_character(message_data: &mut MessageData, character: u8)
    requires
        old(message_data).well_formed(),
    ensures
        final(message_data).well_formed(),
        character_taken(*old(message_data), character, *final(message_data)),
        final(message_data).end == old(message_data).end,
        forall|i: int|
            0 <= i < 3 && i != old(message_data).cur ==> #[trigger] final(message_data).buffer@[i]
                == old(message_data).buffer@[i],
        old(message_data).cur == old(message_data).end ==> *final(message_data) == *old(message_data),
        old(message_data).cur != old(message_data).end ==> {
            let cur = old(message_data).cur as int;
            let pos = old(message_data).command_pos;
            let line = old(message_data).buffer@[cur]@;
            let finished = ends_line(character, pos, line[pos - 1]);
            if finished || pos >= 49 {
                &&& final(message_data).cur == (cur + 1) % 3
                &&& final(message_data).command_pos == 0
                &&& final(message_data).buffer@[cur]@ == if finished {
                    line.update(pos - 1, 0u8)
                } else {
                    line
                }
            } else {
                &&& final(message_data).cur == cur
                &&& final(message_data).command_pos == pos + 1
                &&& final(message_data).buffer@[cur]@ == line.update(pos as int, character)
            }
        },
{
    let cur: usize = message_data.cur;
    let pos: usize = message_data.command_pos;
    if cur == message_data.end {
        return;
    }
    let mut line: [u8; 50] = message_data.buffer[cur];
    let end_of_string: bool = character == 0x0A && pos > 0 && line[pos - 1] == 0x0D;
    let overflow: bool = pos >= USART_BUFFER_SIZE - 1;
    if end_of_string || overflow {
        if end_of_string {
            line[pos - 1] = 0;
            message_data.buffer[cur] = line;
        }
        message_data.command_pos = 0;
        message_data.cur = (cur + 1) % USART_BUFFER_NUM;
        return;
    }
    line[pos] = character;
    message_data.buffer[cur] = line;
    message_data.command_pos = pos + 1;
}

/// Number of finished lines that wait.
pub fn _pending_message_count(message_data: &MessageData) -> (count: usize)
    requires
        message_data.well_formed(),
    ensures
        count == waiting(message_data.cur, message_data.end),
        count <= 2,
{
    let first: usize = (message_data.end + 1) % USART_BUFFER_NUM;
    if message_data.cur >= first {
        message_data.cur - first
    } else {
        message_data.cur + USART_BUFFER_NUM - first
    }
}

/// Takes the oldest line out of the ring: its buffer is handed out and cleared,
/// and becomes the end marker.
pub fn _take_command(message_data: &mut MessageData) -> (command: [u8; 50])
    requires
        old(message_data).well_formed(),
    ensures
        final(message_data).well_formed(),
        command == old(message_data).buffer@[(old(message_data).end + 1) % 3],
        final(message_data).end == (old(message_data).end + 1) % 3,
        final(message_data).cur == old(message_data).cur,
        final(message_data).command_pos == old(message_data).command_pos,
        forall|j: int|
            0 <= j < 50 ==> (#[trigger] final(message_data).buffer@[final(message_data).end as int]@[j]) == 0,
        forall|i: int|
            0 <= i < 3 && i != final(message_data).end ==> #[trigger] final(message_data).buffer@[i] == old(message_data).buffer@[i],
{
    let buffer_index: usize = (message_data.end + 1) % USART_BUFFER_NUM;
    let command: [u8; 50] = message_data.buffer[buffer_index];
    message_data.buffer[buffer_index] = [
        0, 0, 0, 0, 0, 0, 0, 0, 0, 0, 0, 0, 0, 0, 0, 0, 0, 0, 0, 0, 0, 0, 0, 0, 0, 0, 0, 0, 0, 0, 0,
        0, 0, 0, 0, 0, 0, 0, 0, 0, 0, 0, 0, 0, 0, 0, 0, 0, 0, 0,
    ];
    message_data.end = buffer_index;
    command
}

/// A line that waits is still there after a byte was taken, and a line that was
/// finished waits until it is taken: taking a byte never loses a line, and
/// taking a line makes room for one.
pub proof fn lemma_waiting_lines(cur: usize, end: usize)
    requires
        cur < 3,
        end < 3,
    ensures
        0 <= waiting(cur, end) <= 2,
        cur == end <==> waiting(cur, end) == 2,
        cur != end ==> waiting(((cur + 1) % 3) as usize, end) == waiting(cur, end) + 1,
        waiting(cur, end) > 0 ==> waiting(cur, ((end + 1) % 3) as usize) == waiting(cur, end) - 1,
{
}

/// The consumer of the bytes of the serial line, with its ring.
#[derive(Clone, Copy, Debug)]
pub struct USARTCharacterProcessor {
    pub message_data: MessageData,
}

impl USARTCharacterProcessor {
    /// A consumer with an empty ring.
    pub fn new() -> (processor: USARTCharacterProcessor)
        ensures
            processor.message_data.well_formed(),
            waiting(processor.message_data.cur, processor.message_data.end) == 0,
    {
        USARTCharacterProcessor { message_data: MessageData::default() }
    }

    /// Number of finished lines that wait, read with the interrupts masked.
    pub fn pending_message_count<B: RRIVBoard>(&self, board: &B) -> (count: usize)
        requires
            self.message_data.well_formed(),
        ensures
            count == waiting(self.message_data.cur, self.message_data.end),
    {
        board.disable_interrupts();
        let count: usize = _pending_message_count(&self.message_data);
        board.enable_interrupts();
        count
    }

    /// Takes the oldest line, with the interrupts masked. Fails where no line
    /// waits.
    pub fn take_command<B: RRIVBoard>(&mut self, board: &B) -> (r: Result<[u8; 50], ()>)
        requires
            old(self).message_data.well_formed(),
        ensures
            final(self).message_data.well_formed(),
            r is Ok == (waiting(old(self).message_data.cur, old(self).message_data.end) > 0),
            r is Err ==> *final(self) == *old(self),
            r matches Ok(command) ==> command == old(self).message_data.buffer@[(old(self).message_data.end + 1) % 3] && waiting(
                final(self).message_data.cur,
                final(self).message_data.end,
            ) == waiting(old(self).message_data.cur, old(self).message_data.end) - 1,
    {
        board.disable_interrupts();
        let r: Result<[u8; 50], ()> = if _pending_message_count(&self.message_data) < 1 {
            Err(())
        } else {
            Ok(_take_command(&mut self.message_data))
        };
        board.enable_interrupts();
        r
    }
}

impl RXProcessor for USARTCharacterProcessor {
    /// Takes one byte from the serial line into the ring. A consumer whose ring
    /// is not well formed takes nothing.
    fn process_byte(&mut self, byte: u8)
        ensures
            if old(self).message_data.well_formed() {
                character_taken(old(self).message_data, byte, final(self).message_data)
                    && final(self).message_data.well_formed()
            } else {
                *final(self) == *old(self)
            },
    {
        if self.message_data.cur < 3 && self.message_data.end < 3 && self.message_data.command_pos
            < 50 {
            process_character(&mut self.message_data, byte);
        }
    }
}

/// Installs a consumer with an empty ring on the first serial peripheral.
pub fn setup<B: RRIVBoard>(board: &mut B) {
    let processor: Box<dyn RXProcessor> = Box::new(USARTCharacterProcessor::new());
    board.set_serial_rx_processor(crate::board::SerialRxPeripheral::SerialPeripheral1, processor);
}

} // verus!
