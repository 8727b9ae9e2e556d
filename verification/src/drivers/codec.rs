//! Field-by-field packing of configuration records: unsigned and signed
//! integers of one to sixteen bytes, least significant byte first.

use vstd::prelude::*;

verus! {

/// 256 to the power `n`: the number of values that `n` bytes can hold.
pub open spec fn radix(n: nat) -> int
    decreases n,
{
    if n == 0 {
        1
    } else {
        256 * radix((n - 1) as nat)
    }
}

/// The `n` low bytes of `x`, least significant first.
pub open spec fn le_bytes(x: int, n: nat) -> Seq<u8>
    decreases n,
{
    if n == 0 {
        Seq::empty()
    } else {
        seq![(x % 256) as u8] + le_bytes(x / 256, (n - 1) as nat)
    }
}

/// The number that a little-endian byte string stands for.
pub open spec fn le_value(bytes: Seq<u8>) -> int
    decreases bytes.len(),
{
    if bytes.len() == 0 {
        0
    } else {
        bytes[0] as int + 256 * le_value(bytes.subrange(1, bytes.len() as int))
    }
}

/// A signed number as the unsigned number with the same `n` bytes in two's
/// complement.
pub open spec fn to_unsigned(x: int, n: nat) -> int {
    if x >= 0 {
        x
    } else {
        x + radix(n)
    }
}

/// The signed number that `n` bytes of two's complement stand for.
pub open spec fn to_signed(u: int, n: nat) -> int {
    if 2 * u < radix(n) {
        u
    } else {
        u - radix(n)
    }
}

/// `n` zero bytes.
pub open spec fn zeros(n: nat) -> Seq<u8> {
    Seq::new(n, |i: int| 0u8)
}

pub proof fn lemma_radix_positive(n: nat)
    ensures
        radix(n) >= 1,
    decreases n,
{
    if n > 0 {
        lemma_radix_positive((n - 1) as nat);
    }
}

/// The powers of 256 that the integer types reach.
pub proof fn lemma_radix_values()
    ensures
        radix(0) == 1,
        radix(1) == 0x100,
        radix(2) == 0x1_0000,
        radix(4) == 0x1_0000_0000,
        radix(8) == 0x1_0000_0000_0000_0000,
        radix(16) == 0x1_0000_0000_0000_0000_0000_0000_0000_0000,
{
    reveal_with_fuel(radix, 17);
}

pub proof fn lemma_radix_monotonic(m: nat, n: nat)
    requires
        m <= n,
    ensures
        radix(m) <= radix(n),
    decreases n,
{
    if m < n {
        lemma_radix_monotonic(m, (n - 1) as nat);
        lemma_radix_positive((n - 1) as nat);
    }
}

pub proof fn lemma_le_bytes_len(x: int, n: nat)
    ensures
        le_bytes(x, n).len() == n,
    decreases n,
{
    if n > 0 {
        lemma_le_bytes_len(x / 256, (n - 1) as nat);
    }
}

/// A byte string stands for a number below the radix of its length.
pub proof fn lemma_le_value_bound(bytes: Seq<u8>)
    ensures
        0 <= le_value(bytes) < radix(bytes.len()),
    decreases bytes.len(),
{
    if bytes.len() > 0 {
        lemma_le_value_bound(bytes.subrange(1, bytes.len() as int));
    }
}

/// Packing a number that fits and reading it back gives the number.
pub proof fn lemma_le_round_trip(x: int, n: nat)
    requires
        0 <= x < radix(n),
    ensures
        le_bytes(x, n).len() == n,
        le_value(le_bytes(x, n)) == x,
    decreases n,
{
    lemma_le_bytes_len(x, n);
    if n > 0 {
        let rest = le_bytes(x / 256, (n - 1) as nat);
        lemma_le_round_trip(x / 256, (n - 1) as nat);
        assert(le_bytes(x, n).subrange(1, n as int) =~= rest);
    }
}

/// Reading a byte string and packing the number again gives the byte string.
pub proof fn lemma_le_bytes_of_value(bytes: Seq<u8>)
    ensures
        le_bytes(le_value(bytes), bytes.len()) == bytes,
    decreases bytes.len(),
{
    if bytes.len() > 0 {
        let rest = bytes.subrange(1, bytes.len() as int);
        lemma_le_bytes_of_value(rest);
        lemma_le_value_bound(rest);
        assert(le_value(bytes) / 256 == le_value(rest));
        assert(le_value(bytes) % 256 == bytes[0]);
        assert(le_bytes(le_value(bytes), bytes.len()) =~= bytes);
    } else {
        assert(le_bytes(le_value(bytes), bytes.len()) =~= bytes);
    }
}

/// Two's complement and back.
pub proof fn lemma_signed_round_trip(x: int, n: nat)
    requires
        -radix(n) <= 2 * x < radix(n),
    ensures
        0 <= to_unsigned(x, n) < radix(n),
        to_signed(to_unsigned(x, n), n) == x,
{
    lemma_radix_positive(n);
}

/// What a byte string stands for when a byte is put behind it.
pub proof fn lemma_le_value_push(bytes: Seq<u8>, byte: u8)
    ensures
        le_value(bytes.push(byte)) == le_value(bytes) + byte as int * radix(bytes.len()),
    decreases bytes.len(),
{
    let pushed = bytes.push(byte);
    if bytes.len() == 0 {
        assert(pushed.subrange(1, 1) =~= Seq::<u8>::empty());
        assert(le_value(pushed.subrange(1, 1)) == 0);
    } else {
        let rest = bytes.subrange(1, bytes.len() as int);
        lemma_le_value_push(rest, byte);
        assert(pushed.subrange(1, pushed.len() as int) =~= rest.push(byte));
        assert(256 * (byte as int * radix(rest.len())) == byte as int * radix(bytes.len()))
            by (nonlinear_arith)
            requires
                radix(bytes.len()) == 256 * radix(rest.len()),
        ;
    }
}

/// Appends the `n` low bytes of `x` to `out`.
pub fn put_unsigned(out: &mut Vec<u8>, x: u128, n: usize)
    requires
        n <= 16,
    ensures
        final(out)@ == old(out)@ + le_bytes(x as int, n as nat),
{
    let mut rest: u128 = x;
    let mut i: usize = 0;
    proof {
        assert(old(out)@ + le_bytes(x as int, n as nat) =~= out@ + le_bytes(
            rest as int,
            (n - i) as nat,
        ));
    }
    while i < n
        invariant
            i <= n,
            out@ + le_bytes(rest as int, (n - i) as nat) == old(out)@ + le_bytes(
                x as int,
                n as nat,
            ),
        decreases n - i,
    {
        let byte: u8 = (rest % 256) as u8;
        proof {
            let tail = le_bytes(rest as int / 256, (n - i - 1) as nat);
            assert(le_bytes(rest as int, (n - i) as nat) == seq![byte] + tail);
            assert(out@.push(byte) + tail =~= out@ + (seq![byte] + tail));
        }
        out.push(byte);
        rest = rest / 256;
        i += 1;
    }
    assert(out@ + le_bytes(rest as int, 0) =~= out@);
}

/// Appends `x` in two's complement of `n` bytes to `out`.
pub fn put_signed(out: &mut Vec<u8>, x: i64, n: usize)
    requires
        n == 2 || n == 4 || n == 8,
        -radix(n as nat) <= 2 * x < radix(n as nat),
    ensures
        final(out)@ == old(out)@ + le_bytes(to_unsigned(x as int, n as nat), n as nat),
{
    proof {
        lemma_radix_values();
    }
    let unsigned: u128 = if x >= 0 {
        x as u128
    } else if n == 2 {
        (x as i128 + 0x1_0000) as u128
    } else if n == 4 {
        (x as i128 + 0x1_0000_0000) as u128
    } else {
        (x as i128 + 0x1_0000_0000_0000_0000) as u128
    };
    put_unsigned(out, unsigned, n);
}

/// Appends `n` zero bytes to `out`.
pub fn put_zeros(out: &mut Vec<u8>, n: usize)
    ensures
        final(out)@ == old(out)@ + zeros(n as nat),
{
    let mut i: usize = 0;
    while i < n
        invariant
            i <= n,
            out@ == old(out)@ + zeros(i as nat),
        decreases n - i,
    {
        out.push(0);
        i += 1;
        assert(out@ =~= old(out)@ + zeros(i as nat));
    }
    assert(out@ =~= old(out)@ + zeros(n as nat)) by {
        assert(old(out)@ + zeros(0) =~= old(out)@);
    }
}

/// Appends the bytes of `bytes` to `out`.
pub fn put_bytes(out: &mut Vec<u8>, bytes: &[u8])
    ensures
        final(out)@ == old(out)@ + bytes@,
{
    let n: usize = bytes.len();
    let mut i: usize = 0;
    while i < n
        invariant
            i <= n,
            n == bytes@.len(),
            out@ == old(out)@ + bytes@.subrange(0, i as int),
        decreases n - i,
    {
        out.push(bytes[i]);
        i += 1;
        assert(out@ =~= old(out)@ + bytes@.subrange(0, i as int));
    }
    assert(bytes@.subrange(0, n as int) =~= bytes@);
}

/// Reads the unsigned number in the `n` bytes of `bytes` that start at `at`.
pub fn get_unsigned(bytes: &[u8], at: usize, n: usize) -> (x: u128)
    requires
        n <= 16,
        at + n <= bytes@.len(),
    ensures
        x == le_value(bytes@.subrange(at as int, at + n)),
        x < radix(n as nat),
{
    let ghost field = bytes@.subrange(at as int, at + n);
    let len: usize = bytes.len();
    let mut x: u128 = 0;
    let mut weight: u128 = 1;
    let mut i: usize = 0;
    proof {
        lemma_radix_values();
        assert(field.subrange(0, 0) =~= Seq::<u8>::empty());
    }
    while i < n
        invariant
            i <= n <= 16,
            len == bytes@.len(),
            at + n <= len,
            field == bytes@.subrange(at as int, at + n),
            x == le_value(field.subrange(0, i as int)),
            i < 16 ==> weight == radix(i as nat),
        decreases n - i,
    {
        let byte: u8 = bytes[at + i];
        proof {
            let head = field.subrange(0, i as int);
            lemma_le_value_push(head, byte);
            assert(head.push(byte) =~= field.subrange(0, i + 1));
            lemma_le_value_bound(head);
            lemma_radix_values();
            lemma_radix_monotonic(i as nat, 15);
            lemma_radix_positive(i as nat);
            assert(radix(16) == 256 * radix(15));
            assert(0 <= byte as int * radix(i as nat) <= 255 * radix(i as nat))
                by (nonlinear_arith)
                requires
                    0 <= byte <= 255,
                    radix(i as nat) >= 0,
            ;
        }
        x = x + (byte as u128) * weight;
        i += 1;
        if i < 16 {
            proof {
                lemma_radix_values();
                lemma_radix_monotonic(i as nat, 15);
                assert(radix(16) == 256 * radix(15));
            }
            weight = weight * 256;
        }
    }
    proof {
        assert(field.subrange(0, n as int) =~= field);
        lemma_le_value_bound(field);
    }
    x
}

/// Reads the number in two's complement in the `n` bytes of `bytes` that start
/// at `at`.
pub fn get_signed(bytes: &[u8], at: usize, n: usize) -> (x: i64)
    requires
        n == 2 || n == 4 || n == 8,
        at + n <= bytes@.len(),
    ensures
        x == to_signed(le_value(bytes@.subrange(at as int, at + n)), n as nat),
{
    proof {
        lemma_radix_values();
    }
    let unsigned: u128 = get_unsigned(bytes, at, n);
    if n == 2 {
        if unsigned < 0x8000 {
            unsigned as i64
        } else {
            (unsigned as i128 - 0x1_0000) as i64
        }
    } else if n == 4 {
        if unsigned < 0x8000_0000 {
            unsigned as i64
        } else {
            (unsigned as i128 - 0x1_0000_0000) as i64
        }
    } else {
        if unsigned < 0x8000_0000_0000_0000 {
            unsigned as i64
        } else {
            (unsigned as i128 - 0x1_0000_0000_0000_0000) as i64
        }
    }
}

} // verus!
