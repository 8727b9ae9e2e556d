//! The plain codec: the time of a cycle and its first values, as bytes with
//! the most significant byte first.

use vstd::prelude::*;
use crate::drivers::codec::{
    le_bytes,
    lemma_le_bytes_len,
    lemma_radix_values,
    put_unsigned,
    put_zeros,
    to_unsigned,
    zeros,
};

verus! {

/// Number of bytes of a packed cycle.
pub const ENCODED_SIZE: usize = 22;

/// Number of values that are packed.
pub const ENCODED_VALUES: usize = 3;

/// The `n` low bytes of `x`, most significant first.
pub open spec fn be_bytes(x: int, n: nat) -> Seq<u8> {
    Seq::new(n, |k: int| le_bytes(x, n)[n - 1 - k])
}

/// The four bytes that value `i` takes: the value in two's complement in
/// front, and nothing behind it. A value that is not there leaves its place
/// empty.
pub open spec fn value_place(values: Seq<i16>, i: int) -> Seq<u8> {
    if i < values.len() {
        be_bytes(to_unsigned(values[i] as int, 2), 2) + zeros(2)
    } else {
        zeros(4)
    }
}

/// A packed cycle: the time in eight bytes, in two's complement, then the
/// places of the first three values, then two bytes that are not used.
pub open spec fn encoded(timestamp: i64, values: Seq<i16>) -> Seq<u8> {
    be_bytes(to_unsigned(timestamp as int, 8), 8) + value_place(values, 0) + value_place(
        values,
        1,
    ) + value_place(values, 2) + zeros(2)
}

/// Puts the `n` low bytes of `x` behind `out`, most significant first.
pub fn put_unsigned_be(out: &mut Vec<u8>, x: u128, n: usize)
    requires
        n <= 16,
    ensures
        final(out)@ == old(out)@ + be_bytes(x as int, n as nat),
{
    let mut low_first: Vec<u8> = Vec::new();
    put_unsigned(&mut low_first, x, n);
    proof {
        lemma_le_bytes_len(x as int, n as nat);
        assert(low_first@ =~= le_bytes(x as int, n as nat));
    }
    let mut k: usize = 0;
    while k < n
        invariant
            k <= n,
            low_first@ == le_bytes(x as int, n as nat),
            low_first@.len() == n,
            out@ == old(out)@ + be_bytes(x as int, n as nat).subrange(0, k as int),
        decreases n - k,
    {
        out.push(low_first[n - 1 - k]);
        proof {
            assert(out@ =~= old(out)@ + be_bytes(x as int, n as nat).subrange(0, k + 1));
        }
        k += 1;
    }
    proof {
        assert(be_bytes(x as int, n as nat).subrange(0, n as int) =~= be_bytes(
            x as int,
            n as nat,
        ));
    }
}

/// Puts the place of value `i` behind `out`.
pub fn put_value_place(out: &mut Vec<u8>, values: &[i16], i: usize)
    ensures
        final(out)@ == old(out)@ + value_place(values@, i as int),
{
    if i < values.len() {
        let value: i16 = values[i];
        proof {
            lemma_radix_values();
        }
        let unsigned: u128 = if value >= 0 {
            value as u128
        } else {
            (value as i32 + 0x1_0000) as u128
        };
        put_unsigned_be(out, unsigned, 2);
        put_zeros(out, 2);
        proof {
            assert(out@ =~= old(out)@ + value_place(values@, i as int));
        }
    } else {
        put_zeros(out, 4);
    }
}

/// Packs the time of a cycle and its first three values. Values behind the
/// third are not packed.
pub fn encode(timestamp: i64, values: &[i16]) -> (bytes: [u8; 22])
    ensures
        bytes@ == encoded(timestamp, values@),
{
    proof {
        lemma_radix_values();
    }
    let stamp: u128 = if timestamp >= 0 {
        timestamp as u128
    } else {
        (timestamp as i128 + 0x1_0000_0000_0000_0000) as u128
    };
    let mut out: Vec<u8> = Vec::new();
    put_unsigned_be(&mut out, stamp, 8);
    put_value_place(&mut out, values, 0);
    put_value_place(&mut out, values, 1);
    put_value_place(&mut out, values, 2);
    put_zeros(&mut out, 2);
    proof {
        assert(out@ =~= encoded(timestamp, values@));
        assert(out@.len() == 22);
    }
    let mut bytes: [u8; 22] = [0, 0, 0, 0, 0, 0, 0, 0, 0, 0, 0, 0, 0, 0, 0, 0, 0, 0, 0, 0, 0, 0];
    let mut k: usize = 0;
    while k < 22
        invariant
            k <= 22,
            out@.len() == 22,
            forall|j: int| 0 <= j < k ==> #[trigger] bytes@[j] == out@[j],
        decreases 22 - k,
    {
        bytes[k] = out[k];
        k += 1;
    }
    proof {
        assert(bytes@ =~= out@);
    }
    bytes
}

} // verus!
