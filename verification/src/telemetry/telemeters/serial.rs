//! The serial telemeter: a line of text on the serial line.

use vstd::prelude::*;
use vstd::string::StringSliceAdditionalSpecFns;
use crate::board::RRIVBoard;
use crate::drivers::codec::put_bytes;
use crate::util::{push_decimal, signed_decimal};

verus! {

/// The line that reports the wall-clock second `timestamp`.
pub open spec fn timestamp_line(timestamp: i64) -> Seq<u8> {
    "timestamp:".spec_bytes() + signed_decimal(timestamp as int)
}

/// The line that reports the wall-clock second `timestamp`.
pub fn timestamp_message(timestamp: i64) -> (line: Vec<u8>)
    ensures
        line@ == timestamp_line(timestamp),
{
    let mut line: Vec<u8> = Vec::new();
    put_bytes(&mut line, "timestamp:".as_bytes());
    push_decimal(&mut line, timestamp);
    line
}

/// Reports the time that the board shows on the serial line.
pub fn run_loop_iteration<B: RRIVBoard>(board: &mut B) {
    let timestamp: i64 = board.timestamp();
    let line: Vec<u8> = timestamp_message(timestamp);
    board.usart_send(line.as_slice());
}

} // verus!
