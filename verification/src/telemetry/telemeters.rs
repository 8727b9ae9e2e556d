//! Telemeters: the ways in which the values of a cycle are sent on.

use vstd::prelude::*;
use crate::board::RRIVBoard;
use crate::drivers::resources::gpio::GpioRequest;

pub mod modbus;
pub mod serial;

verus! {

/// Number of values that a telemeter sends.
pub const MAX_DATA_VALUES: usize = 16;

/// The value that stands for one that is unavailable.
pub const UNAVAILABLE: i16 = i16::MAX;

/// A way in which the values of a cycle are sent on.
pub trait Telemeter {
    /// Housekeeping that the telemeter needs once per cycle.
    fn run_loop_iteration<B: RRIVBoard>(&mut self, board: &mut B);

    /// Sends the values of a cycle.
    fn transmit<B: RRIVBoard>(&mut self, board: &mut B, values: &[i16; 16]);

    /// Whether the telemeter can send now.
    fn ready_to_transmit<B: RRIVBoard>(&mut self, board: &mut B) -> bool;

    /// Takes what came in since the last cycle.
    fn process_events<B: RRIVBoard>(&mut self, board: &mut B);

    /// The resources that the telemeter needs.
    fn get_requested_gpios(&self) -> GpioRequest;
}

/// A measured value as a telemeter sends it: in tenths, rounded towards zero
/// and held to what sixteen bits can take below the value that stands for an
/// unavailable one.
pub open spec fn tenths(value: Option<i64>) -> i16 {
    match value {
        Some(micros) => {
            let whole = if micros >= 0 {
                micros / 100_000
            } else {
                -((-micros) / 100_000)
            };
            if whole >= i16::MAX {
                (i16::MAX - 1) as i16
            } else if whole < i16::MIN {
                i16::MIN
            } else {
                whole as i16
            }
        },
        None => UNAVAILABLE,
    }
}

/// The values of a cycle as a telemeter sends them: the first sixteen, each in
/// tenths, and the value that stands for an unavailable one in every place
/// that is left.
pub fn telemetry_values(values: &[Option<i64>]) -> (sent: [i16; 16])
    ensures
        forall|i: int|
            0 <= i < 16 ==> #[trigger] sent@[i] == if i < values@.len() {
                tenths(values@[i])
            } else {
                UNAVAILABLE
            },
{
    let mut sent: [i16; 16] = [
        UNAVAILABLE,
        UNAVAILABLE,
        UNAVAILABLE,
        UNAVAILABLE,
        UNAVAILABLE,
        UNAVAILABLE,
        UNAVAILABLE,
        UNAVAILABLE,
        UNAVAILABLE,
        UNAVAILABLE,
        UNAVAILABLE,
        UNAVAILABLE,
        UNAVAILABLE,
        UNAVAILABLE,
        UNAVAILABLE,
        UNAVAILABLE,
    ];
    let n: usize = values.len();
    let mut i: usize = 0;
    while i < 16 && i < n
        invariant
            i <= 16,
            i <= n,
            n == values@.len(),
            forall|j: int| 0 <= j < i ==> #[trigger] sent@[j] == tenths(values@[j]),
            forall|j: int| i <= j < 16 ==> #[trigger] sent@[j] == UNAVAILABLE,
        decreases 16 - i,
    {
        match values[i] {
            Some(micros) => {
                let whole: i64 = micros / 100_000;
                sent[i] = if whole >= i16::MAX as i64 {
                    i16::MAX - 1
                } else if whole < i16::MIN as i64 {
                    i16::MIN
                } else {
                    whole as i16
                };
            },
            None => {},
        }
        i += 1;
    }
    sent
}

} // verus!
