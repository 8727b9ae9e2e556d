//! The second serial line: the bytes that arrive on it are kept until a
//! message is asked for.

use vstd::prelude::*;

verus! {

/// Number of bytes that the line keeps.
pub const BUFFER_SIZE: usize = 500;

/// Number of bytes of a message that is handed out.
pub const MESSAGE_SIZE: usize = 100;

/// The byte that ends a message: a carriage return.
pub const DELIMITER: u8 = 0x0D;

/// The bytes of the line: `cur` is the place of the next byte that arrives, and
/// `end` the place that is never written.
#[derive(Clone, Copy, Debug)]
pub struct SerialB {
    pub cur: usize,
    pub end: usize,
    pub buffer: [u8; 500],
}

/// The place of the first delimiter among `bytes`, or their number where there
/// is none.
pub open spec fn first_delimiter(bytes: Seq<u8>) -> int
    decreases bytes.len(),
{
    if bytes.len() == 0 {
        0
    } else if bytes[0] == DELIMITER {
        0
    } else {
        1 + first_delimiter(bytes.subrange(1, bytes.len() as int))
    }
}

/// The first delimiter is where it is said to be: no byte in front of it is a
/// delimiter, and the byte at its place is one, where there is a delimiter at
/// all.
pub proof fn lemma_first_delimiter(bytes: Seq<u8>)
    ensures
        0 <= first_delimiter(bytes) <= bytes.len(),
        forall|j: int| 0 <= j < first_delimiter(bytes) ==> #[trigger] bytes[j] != DELIMITER,
        first_delimiter(bytes) < bytes.len() ==> bytes[first_delimiter(bytes)] == DELIMITER,
    decreases bytes.len(),
{
    if bytes.len() > 0 && bytes[0] != DELIMITER {
        let rest = bytes.subrange(1, bytes.len() as int);
        lemma_first_delimiter(rest);
        assert forall|j: int| 0 <= j < first_delimiter(bytes) implies #[trigger] bytes[j]
            != DELIMITER by {
            if j > 0 {
                assert(bytes[j] == rest[j - 1]);
            }
        }
        assert(first_delimiter(bytes) < bytes.len() ==> bytes[first_delimiter(bytes)]
            == rest[first_delimiter(rest)]);
    }
}

impl SerialB {
    /// Whether the places lie within the bytes that are kept.
    pub open spec fn well_formed(&self) -> bool {
        self.cur <= self.end < BUFFER_SIZE
    }

    /// The bytes in which a message is looked for: those from the place of the
    /// next byte up to the place that is never written.
    pub open spec fn window(&self) -> Seq<u8> {
        self.buffer@.subrange(self.cur as int, self.end as int)
    }

    /// Whether a message can be handed out: a delimiter lies in the window,
    /// and the message that it ends fits.
    pub open spec fn has_message(&self) -> bool {
        first_delimiter(self.window()) < self.window().len() && first_delimiter(self.window())
            < MESSAGE_SIZE
    }

    /// The message that is handed out: the bytes of the window up to its first
    /// delimiter, the delimiter included.
    pub open spec fn message(&self) -> Seq<u8> {
        self.window().subrange(0, first_delimiter(self.window()) + 1)
    }

    /// A line on which nothing has arrived.
    pub fn default() -> (line: Self)
        ensures
            line.well_formed(),
            line.cur == 0,
            line.end == BUFFER_SIZE - 1,
            forall|i: int| 0 <= i < 500 ==> #[trigger] line.buffer@[i] == 0,
    {
        SerialB { cur: 0, end: BUFFER_SIZE - 1, buffer: [0; 500] }
    }

    /// Keeps a byte that arrived. Once the bytes are full, what arrives is
    /// dropped.
    pub fn process_byte(&mut self, byte: u8)
        requires
            old(self).well_formed(),
        ensures
            final(self).well_formed(),
            final(self).end == old(self).end,
            if old(self).cur != old(self).end {
                final(self).cur == old(self).cur + 1 && final(self).buffer@ == old(
                    self,
                ).buffer@.update(old(self).cur as int, byte)
            } else {
                *final(self) == *old(self)
            },
    {
        if self.cur != self.end {
            self.buffer[self.cur] = byte;
            self.cur = self.cur + 1;
        }
    }

    /// Hands out a message, where there is one: the message takes the front of
    /// `buffer`, and what lies behind it in `buffer` stays. Where there is no
    /// message, `buffer` stays as it is. The line keeps its bytes either way.
    pub fn take_message(&mut self, buffer: &mut [u8; 100]) -> (found: bool)
        requires
            old(self).well_formed(),
        ensures
            *final(self) == *old(self),
            found == old(self).has_message(),
            final(buffer)@ == if found {
                old(self).message() + old(buffer)@.subrange(
                    old(self).message().len() as int,
                    100,
                )
            } else {
                old(buffer)@
            },
    {
        let n: usize = self.end - self.cur;
        let limit: usize = if n < MESSAGE_SIZE {
            n
        } else {
            MESSAGE_SIZE
        };
        let ghost window = self.window();
        proof {
            assert(window.subrange(0, n as int) =~= window);
        }
        let mut i: usize = 0;
        while i < limit && self.buffer[self.cur + i] != DELIMITER
            invariant
                i <= limit,
                limit <= n,
                limit <= MESSAGE_SIZE,
                limit == n || limit == MESSAGE_SIZE,
                *self == *old(self),
                self.well_formed(),
                n == self.end - self.cur,
                window == self.window(),
                window.len() == n,
                first_delimiter(window) == i + first_delimiter(window.subrange(i as int, n as int)),
            decreases limit - i,
        {
            proof {
                let rest = window.subrange(i as int, n as int);
                assert(rest[0] == self.buffer@[self.cur + i]);
                assert(rest.subrange(1, rest.len() as int) =~= window.subrange(i + 1, n as int));
            }
            i += 1;
        }
        proof {
            let rest = window.subrange(i as int, n as int);
            lemma_first_delimiter(rest);
            if i < limit {
                assert(rest[0] == self.buffer@[self.cur + i]);
            }
        }
        if i >= limit {
            return false;
        }
        let ghost before = buffer@;
        let mut k: usize = 0;
        while k <= i
            invariant
                k <= i + 1,
                i < limit,
                limit <= n,
                limit <= MESSAGE_SIZE,
                *self == *old(self),
                self.well_formed(),
                n == self.end - self.cur,
                window == self.window(),
                forall|j: int| 0 <= j < k ==> #[trigger] buffer@[j] == window[j],
                before.len() == 100,
                forall|j: int| k <= j < 100 ==> #[trigger] buffer@[j] == before[j],
            decreases i + 1 - k,
        {
            buffer[k] = self.buffer[self.cur + k];
            k += 1;
        }
        proof {
            assert(buffer@ =~= self.message() + before.subrange(self.message().len() as int, 100));
        }
        true
    }
}

} // verus!
