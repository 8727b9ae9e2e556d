//! Byte-buffer helpers shared by the drivers and the protocol layer.

use vstd::prelude::*;
use vstd::slice::slice_subrange;
use vstd::string::StringExecFns;
use vstd::string::StringSliceAdditionalSpecFns;
use vstd::utf8::valid_utf8;
use vstd::utf8::partial_valid_utf8;
use vstd::utf8::partial_valid_utf8_extend_ascii_block;

verus! {

/// The byte written in place of one that is not 7-bit ASCII: `*`.
pub const REPLACEMENT_BYTE: u8 = 42;

/// What `remove_invalid_utf8` leaves in place of `byte`.
pub open spec fn sanitized_byte(byte: u8) -> u8 {
    if byte > 0x7F {
        REPLACEMENT_BYTE
    } else {
        byte
    }
}

/// A buffer with every byte above `0x7F` replaced by `*`.
pub open spec fn sanitized(bytes: Seq<u8>) -> Seq<u8> {
    Seq::new(bytes.len(), |i: int| sanitized_byte(bytes[i]))
}

/// Index of the first NUL byte, or the length where there is none.
pub open spec fn nul_position(bytes: Seq<u8>) -> int
    decreases bytes.len(),
{
    if bytes.len() == 0 {
        0
    } else if bytes[0] == 0 {
        0
    } else {
        1 + nul_position(bytes.subrange(1, bytes.len() as int))
    }
}

/// The bytes in front of the first NUL.
pub open spec fn until_nul(bytes: Seq<u8>) -> Seq<u8> {
    bytes.subrange(0, nul_position(bytes))
}

/// `nul_position` is the least index that holds a NUL, and lies within the sequence.
pub proof fn lemma_nul_position(bytes: Seq<u8>)
    ensures
        0 <= nul_position(bytes) <= bytes.len(),
        forall|i: int| 0 <= i < nul_position(bytes) ==> bytes[i] != 0,
        nul_position(bytes) < bytes.len() ==> bytes[nul_position(bytes)] == 0,
    decreases bytes.len(),
{
    if bytes.len() > 0 && bytes[0] != 0 {
        let rest = bytes.subrange(1, bytes.len() as int);
        lemma_nul_position(rest);
        assert forall|i: int| 0 <= i < nul_position(bytes) implies bytes[i] != 0 by {
            if i > 0 {
                assert(rest[i - 1] == bytes[i]);
            }
        }
        if nul_position(bytes) < bytes.len() {
            assert(rest[nul_position(rest)] == bytes[nul_position(bytes)]);
        }
    }
}

/// Replaces every byte that is not 7-bit ASCII by `*`, in place.
pub fn remove_invalid_utf8(buffer: &mut [u8])
    ensures
        final(buffer)@ == sanitized(old(buffer)@),
{
    let n: usize = buffer.len();
    let mut i: usize = 0;
    while i < n
        invariant
            i <= n,
            buffer@.len() == n,
            buffer@.len() == old(buffer)@.len(),
            forall|j: int| 0 <= j < i ==> buffer@[j] == sanitized_byte(old(buffer)@[j]),
            forall|j: int| i <= j < n ==> buffer@[j] == old(buffer)@[j],
        decreases n - i,
    {
        if buffer[i] > 0x7F {
            buffer[i] = REPLACEMENT_BYTE;
        }
        i += 1;
    }
    assert(buffer@ =~= sanitized(old(buffer)@));
}

/// Finds the first NUL byte of `buffer`.
pub fn find_nul(buffer: &[u8]) -> (end: usize)
    ensures
        end == nul_position(buffer@),
        end <= buffer@.len(),
{
    let n: usize = buffer.len();
    let mut i: usize = 0;
    proof {
        lemma_nul_position(buffer@);
    }
    while i < n && buffer[i] != 0
        invariant
            i <= n,
            n == buffer@.len(),
            forall|j: int| 0 <= j < i ==> buffer@[j] != 0,
            0 <= nul_position(buffer@) <= n,
            forall|j: int| 0 <= j < nul_position(buffer@) ==> buffer@[j] != 0,
            nul_position(buffer@) < n ==> buffer@[nul_position(buffer@)] == 0,
        decreases n - i,
    {
        i += 1;
    }
    i
}


/// The error of a failed UTF-8 conversion, as the standard library reports it.
#[verifier::external_type_specification]
#[verifier::external_body]
pub struct ExUtf8Error(core::str::Utf8Error);

/// `core::str::from_utf8`: the standard library documents that it succeeds exactly
/// on well-formed UTF-8 and that the text it returns has the bytes it was given.
#[verifier::external_body]
fn text_of_bytes(bytes: &[u8]) -> (r: Result<&str, core::str::Utf8Error>)
    ensures
        r is Ok <==> valid_utf8(bytes@),
        r matches Ok(text) ==> text.spec_bytes() == bytes@,
{
    core::str::from_utf8(bytes)
}

/// A sequence of 7-bit bytes is well-formed UTF-8.
pub proof fn lemma_ascii_is_utf8(bytes: Seq<u8>)
    requires
        forall|i: int| 0 <= i < bytes.len() ==> bytes[i] <= 0x7F,
    ensures
        valid_utf8(bytes),
{
    assert(bytes.subrange(0, 0) =~= Seq::<u8>::empty());
    assert(valid_utf8(bytes.subrange(0, 0)));
    assert(partial_valid_utf8(bytes, 0));
    partial_valid_utf8_extend_ascii_block(bytes, 0, bytes.len() as int);
    assert(bytes.subrange(0, bytes.len() as int) =~= bytes);
}

/// Sanitizes `buffer` in place and reads the bytes in front of its first NUL as
/// text. Every byte left is 7-bit, so the conversion cannot fail.
pub fn str_from_utf8(buffer: &mut [u8]) -> (r: Result<&str, core::str::Utf8Error>)
    ensures
        final(buffer)@ == sanitized(old(buffer)@),
        r matches Ok(text) && text.spec_bytes() == until_nul(sanitized(old(buffer)@)),
{
    remove_invalid_utf8(buffer);
    let end: usize = find_nul(buffer);
    let head: &[u8] = slice_subrange(buffer, 0, end);
    proof {
        lemma_ascii_is_utf8(head@);
    }
    text_of_bytes(head)
}

/// Whether a byte is a letter or a digit of ASCII.
pub open spec fn is_alphanumeric_byte(byte: u8) -> bool {
    (0x30 <= byte <= 0x39) || (0x41 <= byte <= 0x5A) || (0x61 <= byte <= 0x7A)
}

/// Whether a byte is a letter or a digit of ASCII.
pub fn byte_is_alphanumeric(byte: u8) -> (r: bool)
    ensures
        r == is_alphanumeric_byte(byte),
{
    (0x30 <= byte && byte <= 0x39) || (0x41 <= byte && byte <= 0x5A) || (0x61 <= byte && byte
        <= 0x7A)
}

/// A byte that may stand in an identifier: a letter or a digit of ASCII, `_`,
/// `-`, or the NUL that pads a short identifier.
pub open spec fn is_identifier_byte(byte: u8) -> bool {
    is_alphanumeric_byte(byte) || byte == 0 || byte == 0x5F || byte == 0x2D
}

/// An identifier is accepted when it is not empty, does not start with the NUL
/// padding, and holds identifier bytes only.
pub open spec fn is_identifier(bytes: Seq<u8>) -> bool {
    &&& bytes.len() > 0
    &&& bytes[0] != 0
    &&& forall|i: int| 0 <= i < bytes.len() ==> is_identifier_byte(#[trigger] bytes[i])
}

/// Checks that `array` is an acceptable identifier.
pub fn check_alphanumeric(array: &[u8]) -> (r: bool)
    ensures
        r == is_identifier(array@),
{
    let n: usize = array.len();
    if n == 0 {
        return false;
    }
    let mut all: bool = true;
    let mut i: usize = 0;
    while i < n
        invariant
            i <= n,
            n == array@.len(),
            all == forall|j: int| 0 <= j < i ==> is_identifier_byte(#[trigger] array@[j]),
        decreases n - i,
    {
        let x: u8 = array[i];
        let check: bool = byte_is_alphanumeric(x) || x == 0 || x == 0x5F || x == 0x2D;
        if !check {
            all = false;
        }
        i += 1;
    }
    all && array[0] != 0
}

/// Whether two texts are the same.
pub fn same_text(a: &str, b: &str) -> (r: bool)
    ensures
        r == (a@ == b@),
{
    String::from_str(a) == String::from_str(b)
}

/// Whether two byte strings are equal.
pub fn bytes_equal(a: &[u8], b: &[u8]) -> (r: bool)
    ensures
        r == (a@ == b@),
{
    if a.len() != b.len() {
        return false;
    }
    let n: usize = a.len();
    let mut i: usize = 0;
    while i < n
        invariant
            i <= n,
            n == a@.len(),
            n == b@.len(),
            forall|j: int| 0 <= j < i ==> a@[j] == b@[j],
        decreases n - i,
    {
        if a[i] != b[i] {
            return false;
        }
        i += 1;
    }
    assert(a@ =~= b@);
    true
}

/// The lower-case form of an ASCII letter; any other byte is unchanged.
pub open spec fn ascii_lower(byte: u8) -> u8 {
    if 0x41 <= byte <= 0x5A {
        (byte + 0x20) as u8
    } else {
        byte
    }
}

/// A byte string with its ASCII letters in lower case.
pub open spec fn ascii_lowercase(bytes: Seq<u8>) -> Seq<u8> {
    Seq::new(bytes.len(), |i: int| ascii_lower(bytes[i]))
}

/// Whether `text`, with its ASCII letters lowered, reads as `word`.
pub fn lowercase_equals(text: &[u8], word: &[u8]) -> (r: bool)
    ensures
        r == (ascii_lowercase(text@) == word@),
{
    if text.len() != word.len() {
        return false;
    }
    let n: usize = text.len();
    let mut i: usize = 0;
    while i < n
        invariant
            i <= n,
            n == text@.len(),
            n == word@.len(),
            forall|j: int| 0 <= j < i ==> ascii_lower(text@[j]) == word@[j],
        decreases n - i,
    {
        let c: u8 = text[i];
        let lower: u8 = if 0x41 <= c && c <= 0x5A { c + 0x20 } else { c };
        if lower != word[i] {
            assert(ascii_lowercase(text@)[i as int] != word@[i as int]);
            return false;
        }
        i += 1;
    }
    assert(ascii_lowercase(text@) =~= word@);
    true
}


/// The decimal digits of `n` as ASCII, least significant first.
pub open spec fn decimal_digits_reversed(n: nat) -> Seq<u8>
    decreases n,
{
    if n < 10 {
        seq![(0x30 + n) as u8]
    } else {
        seq![(0x30 + n % 10) as u8] + decimal_digits_reversed(n / 10)
    }
}

/// The decimal digits of `n` as ASCII, most significant first.
pub open spec fn decimal_digits(n: nat) -> Seq<u8> {
    decimal_digits_reversed(n).reverse()
}

/// A count of thousandths written as a decimal number: the digits of `value`
/// with a point in front of the last three. A value of fewer than three digits
/// is written without a point.
pub open spec fn decimal_text(value: u32) -> Seq<u8> {
    let digits = decimal_digits(value as nat);
    let n = digits.len() as int;
    if n < 3 {
        digits
    } else {
        digits.subrange(0, n - 3) + seq![0x2Eu8] + digits.subrange(n - 3, n)
    }
}

/// An upper bound on what is left of a 32-bit number after `k` divisions by ten.
spec fn remainder_bound(k: int) -> int {
    if k <= 0 {
        0x1_0000_0000
    } else if k == 1 {
        429496730
    } else if k == 2 {
        42949673
    } else if k == 3 {
        4294968
    } else if k == 4 {
        429497
    } else if k == 5 {
        42950
    } else if k == 6 {
        4295
    } else if k == 7 {
        430
    } else if k == 8 {
        43
    } else {
        5
    }
}

/// Writes `value`, a count of thousandths, as decimal text into a buffer of
/// twenty bytes, and returns the buffer with the length of the text. The bytes
/// behind the text are zero.
pub fn format_decimal(value: u32) -> (r: Result<([u8; 20], usize), ()>)
    ensures
        r matches Ok((buffer, length)) && length == decimal_text(value).len() && length <= 11
            && buffer@.subrange(0, length as int) == decimal_text(value)
            && forall|i: int| length <= i < 20 ==> buffer@[i] == 0,
{
    let mut reversed: Vec<u8> = Vec::new();
    let mut rest: u32 = value;
    let mut k: usize = 0;
    while rest >= 10
        invariant
            k <= 9,
            rest < remainder_bound(k as int),
            reversed@.len() == k,
            decimal_digits_reversed(value as nat) == reversed@ + decimal_digits_reversed(
                rest as nat,
            ),
        decreases rest,
    {
        let digit: u8 = (rest % 10) as u8;
        proof {
            let tail = decimal_digits_reversed((rest / 10) as nat);
            assert(decimal_digits_reversed(rest as nat) == seq![(0x30 + digit) as u8] + tail);
            assert(reversed@.push((0x30 + digit) as u8) + tail =~= reversed@ + (seq![
                (0x30 + digit) as u8,
            ] + tail));
        }
        reversed.push(0x30 + digit);
        rest = rest / 10;
        k += 1;
    }
    proof {
        assert(reversed@.push((0x30 + rest) as u8) =~= reversed@ + decimal_digits_reversed(
            rest as nat,
        ));
    }
    reversed.push(0x30 + rest as u8);
    let n: usize = reversed.len();
    let ghost digits = decimal_digits(value as nat);
    assert(digits.len() == n);
    assert(forall|j: int| 0 <= j < n ==> digits[j] == reversed@[n - 1 - j]);
    let mut buffer: [u8; 20] = [0, 0, 0, 0, 0, 0, 0, 0, 0, 0, 0, 0, 0, 0, 0, 0, 0, 0, 0, 0];
    let mut i: usize = 0;
    let mut p: usize = 0;
    while i < n
        invariant
            1 <= n <= 10,
            i <= n,
            n == reversed@.len(),
            digits.len() == n,
            forall|j: int| 0 <= j < n ==> digits[j] == reversed@[n - 1 - j],
            p == (if n >= 3 && i > n - 3 { i + 1 } else { i as int }),
            forall|j: int| p <= j < 20 ==> buffer@[j] == 0,
            forall|j: int| 0 <= j < p && (n < 3 || j < n - 3) ==> buffer@[j] == digits[j],
            n >= 3 && p > n - 3 ==> buffer@[n - 3] == 0x2E,
            forall|j: int| n >= 3 && n - 3 < j < p ==> buffer@[j] == digits[j - 1],
        decreases n - i,
    {
        if n >= 3 && i == n - 3 {
            buffer[p] = 0x2E;
            p += 1;
        }
        buffer[p] = reversed[n - 1 - i];
        p += 1;
        i += 1;
    }
    assert(buffer@.subrange(0, p as int) =~= decimal_text(value));
    Ok((buffer, p))
}

/// The ASCII character of one hexadecimal digit, in upper case.
pub open spec fn hex_digit(d: int) -> u8 {
    if d < 10 {
        (0x30 + d) as u8
    } else {
        (0x41 + d - 10) as u8
    }
}

/// The hexadecimal digits of `n` in upper case, most significant first.
pub open spec fn hex_digits(n: nat) -> Seq<u8>
    decreases n,
{
    if n < 16 {
        seq![hex_digit(n as int)]
    } else {
        hex_digits(n / 16).push(hex_digit((n % 16) as int))
    }
}

/// The hexadecimal digits of `n`, with zeros in front up to `width` digits. A
/// number with more digits is written in full.
pub open spec fn hex_padded(n: nat, width: nat) -> Seq<u8> {
    let digits = hex_digits(n);
    if digits.len() >= width {
        digits
    } else {
        Seq::new((width - digits.len()) as nat, |i: int| 0x30u8) + digits
    }
}

/// The hexadecimal digits of `n` in upper case, most significant first.
pub fn hex_digits_of(n: u32) -> (digits: Vec<u8>)
    ensures
        digits@ == hex_digits(n as nat),
    decreases n,
{
    let d: u8 = (n % 16) as u8;
    let c: u8 = if d < 10 {
        0x30 + d
    } else {
        0x41 + (d - 10)
    };
    if n < 16 {
        let mut digits: Vec<u8> = Vec::new();
        digits.push(c);
        assert(digits@ =~= hex_digits(n as nat));
        digits
    } else {
        let mut digits: Vec<u8> = hex_digits_of(n / 16);
        digits.push(c);
        digits
    }
}

/// Appends `value` to `out` in hexadecimal, with zeros in front up to `width`
/// digits.
pub fn push_hex(out: &mut Vec<u8>, value: u32, width: usize)
    ensures
        final(out)@ == old(out)@ + hex_padded(value as nat, width as nat),
{
    let digits: Vec<u8> = hex_digits_of(value);
    let n: usize = digits.len();
    let ghost padding: int = if n >= width {
        0
    } else {
        width - n
    };
    let mut i: usize = n;
    while i < width
        invariant
            n <= i,
            n < width ==> i <= width,
            n >= width ==> i == n,
            out@ == old(out)@ + Seq::new((i - n) as nat, |j: int| 0x30u8),
        decreases width - i,
    {
        out.push(0x30);
        i += 1;
        assert(out@ =~= old(out)@ + Seq::new((i - n) as nat, |j: int| 0x30u8));
    }
    let ghost padded = out@;
    assert(i - n == padding);
    let mut k: usize = 0;
    while k < n
        invariant
            k <= n,
            n == digits@.len(),
            out@ == padded + digits@.subrange(0, k as int),
        decreases n - k,
    {
        out.push(digits[k]);
        k += 1;
        assert(out@ =~= padded + digits@.subrange(0, k as int));
    }
    assert(digits@.subrange(0, n as int) =~= digits@);
    assert(padded =~= old(out)@ + Seq::new(padding as nat, |j: int| 0x30u8));
    assert(hex_padded(value as nat, width as nat) =~= Seq::new(padding as nat, |j: int| 0x30u8)
        + digits@);
    assert(out@ =~= old(out)@ + hex_padded(value as nat, width as nat));
}

/// The value of one hexadecimal digit in either case, if the byte is one.
pub open spec fn hex_digit_value(byte: u8) -> Option<int> {
    if 0x30 <= byte <= 0x39 {
        Some(byte - 0x30)
    } else if 0x41 <= byte <= 0x46 {
        Some(byte - 0x41 + 10)
    } else if 0x61 <= byte <= 0x66 {
        Some(byte - 0x61 + 10)
    } else {
        None
    }
}

/// The number that a string of hexadecimal digits stands for, if every byte is
/// a digit. The empty string stands for zero.
pub open spec fn hex_value(bytes: Seq<u8>) -> Option<int>
    decreases bytes.len(),
{
    if bytes.len() == 0 {
        Some(0)
    } else {
        match (hex_value(bytes.drop_last()), hex_digit_value(bytes.last())) {
            (Some(high), Some(low)) => Some(16 * high + low),
            _ => None,
        }
    }
}

/// The number that `bytes[from..to]` stands for in hexadecimal; zero where the
/// range is empty, longer than four digits, reaches past the end, or holds a
/// byte that is no digit.
pub open spec fn hex_field(bytes: Seq<u8>, from: int, to: int) -> int {
    if 0 <= from < to <= bytes.len() && to - from <= 4 {
        match hex_value(bytes.subrange(from, to)) {
            Some(value) => value,
            None => 0,
        }
    } else {
        0
    }
}

/// A string of at most four hexadecimal digits stands for a number of 16 bits.
pub proof fn lemma_hex_value_bound(bytes: Seq<u8>)
    requires
        bytes.len() <= 4,
    ensures
        hex_value(bytes) matches Some(value) ==> 0 <= value < 0x1_0000,
{
    reveal_with_fuel(hex_value, 5);
    if bytes.len() >= 1 {
        assert(bytes.drop_last().len() == bytes.len() - 1);
    }
    if bytes.len() >= 2 {
        assert(bytes.drop_last().drop_last().len() == bytes.len() - 2);
    }
    if bytes.len() >= 3 {
        assert(bytes.drop_last().drop_last().drop_last().len() == bytes.len() - 3);
    }
    if bytes.len() >= 4 {
        assert(bytes.drop_last().drop_last().drop_last().drop_last().len() == 0);
    }
}

/// Reads `bytes[from..to]` as a hexadecimal number of at most four digits.
pub fn read_hex(bytes: &[u8], from: usize, to: usize) -> (value: u16)
    ensures
        value == hex_field(bytes@, from as int, to as int),
{
    if !(from < to && to <= bytes.len() && to - from <= 4) {
        return 0;
    }
    let ghost field = bytes@.subrange(from as int, to as int);
    let mut value: u32 = 0;
    let mut i: usize = from;
    proof {
        assert(field.subrange(0, 0) =~= Seq::<u8>::empty());
    }
    while i < to
        invariant
            from <= i <= to,
            to <= bytes@.len(),
            to - from <= 4,
            field == bytes@.subrange(from as int, to as int),
            hex_value(field.subrange(0, i - from)) == Some(value as int),
            value < 0x1_0000,
        decreases to - i,
    {
        let byte: u8 = bytes[i];
        let ghost head = field.subrange(0, i - from);
        let ghost next = field.subrange(0, i + 1 - from);
        proof {
            assert(next.drop_last() =~= head);
            assert(next.last() == byte);
            lemma_hex_value_bound(next);
            if hex_digit_value(byte) is None {
                lemma_hex_value_rejects(field, i + 1 - from);
            }
        }
        let digit: u32 = if 0x30 <= byte && byte <= 0x39 {
            (byte - 0x30) as u32
        } else if 0x41 <= byte && byte <= 0x46 {
            (byte - 0x41 + 10) as u32
        } else if 0x61 <= byte && byte <= 0x66 {
            (byte - 0x61 + 10) as u32
        } else {
            return 0;
        };
        value = 16 * value + digit;
        i += 1;
    }
    assert(field.subrange(0, to - from) =~= field);
    value as u16
}

/// A string with a prefix that is no hexadecimal number is none either.
pub proof fn lemma_hex_value_rejects(bytes: Seq<u8>, k: int)
    requires
        0 <= k <= bytes.len(),
        hex_value(bytes.subrange(0, k)) is None,
    ensures
        hex_value(bytes) is None,
    decreases bytes.len() - k,
{
    if k < bytes.len() {
        assert(bytes.subrange(0, k + 1).drop_last() =~= bytes.subrange(0, k));
        lemma_hex_value_rejects(bytes, k + 1);
    } else {
        assert(bytes.subrange(0, k) =~= bytes);
    }
}

/// The sum of the bytes of a string.
pub open spec fn byte_sum(bytes: Seq<u8>) -> int
    decreases bytes.len(),
{
    if bytes.len() == 0 {
        0
    } else {
        byte_sum(bytes.drop_last()) + bytes.last()
    }
}

/// The longitudinal redundancy check of a string: the byte that brings the
/// sum of all bytes to a multiple of 256.
pub open spec fn checksum(bytes: Seq<u8>) -> int {
    (256 - byte_sum(bytes) % 256) % 256
}

/// The longitudinal redundancy check of `bytes`.
pub fn checksum_of(bytes: &[u8]) -> (check: u32)
    ensures
        check == checksum(bytes@),
        check < 256,
{
    let n: usize = bytes.len();
    let mut sum: u32 = 0;
    let mut i: usize = 0;
    proof {
        assert(bytes@.subrange(0, 0) =~= Seq::<u8>::empty());
    }
    while i < n
        invariant
            i <= n,
            n == bytes@.len(),
            sum < 256,
            sum == byte_sum(bytes@.subrange(0, i as int)) % 256,
        decreases n - i,
    {
        proof {
            let next = bytes@.subrange(0, i + 1);
            assert(next.drop_last() =~= bytes@.subrange(0, i as int));
            assert(next.last() == bytes@[i as int]);
        }
        sum = (sum + bytes[i] as u32) % 256;
        i += 1;
    }
    assert(bytes@.subrange(0, n as int) =~= bytes@);
    (256 - sum) % 256
}

/// The bytes of a text of 7-bit characters without capital letters are its
/// characters, one byte each, and lowering them changes nothing.
pub proof fn lemma_lowercase_text(chars: Seq<char>)
    requires
        vstd::utf8::is_ascii_chars(chars),
        forall|i: int| 0 <= i < chars.len() ==> !('A' <= #[trigger] chars[i] <= 'Z'),
    ensures
        vstd::utf8::encode_utf8(chars).len() == chars.len(),
        forall|i: int|
            0 <= i < chars.len() ==> (#[trigger] vstd::utf8::encode_utf8(chars)[i]) == chars[i] as u8,
        ascii_lowercase(vstd::utf8::encode_utf8(chars)) == vstd::utf8::encode_utf8(chars),
{
    vstd::utf8::is_ascii_chars_encode_utf8(chars);
    let bytes = vstd::utf8::encode_utf8(chars);
    assert forall|i: int| 0 <= i < bytes.len() implies ascii_lower(#[trigger] bytes[i])
        == bytes[i] by {
        let c = chars[i];
        assert(c <= '\u{7f}' && !('A' <= c <= 'Z'));
        assert(bytes[i] == c as u8);
        assert(c as u32 <= 0x7F);
        assert(!(0x41 <= c as u32 <= 0x5A));
        assert(c as u8 == c as u32);
    }
    assert(ascii_lowercase(bytes) =~= bytes);
}

/// A whole number in decimal, with a minus sign where it is negative.
pub open spec fn signed_decimal(value: int) -> Seq<u8> {
    if value < 0 {
        seq![0x2Du8] + decimal_digits((-value) as nat)
    } else {
        decimal_digits(value as nat)
    }
}

/// The decimal digits of `n` as ASCII, least significant first.
pub fn decimal_digits_reversed_of(n: u64) -> (digits: Vec<u8>)
    ensures
        digits@ == decimal_digits_reversed(n as nat),
{
    let mut digits: Vec<u8> = Vec::new();
    let mut rest: u64 = n;
    while rest >= 10
        invariant
            decimal_digits_reversed(n as nat) == digits@ + decimal_digits_reversed(rest as nat),
        decreases rest,
    {
        let digit: u8 = (rest % 10) as u8;
        proof {
            let tail = decimal_digits_reversed((rest / 10) as nat);
            assert(decimal_digits_reversed(rest as nat) == seq![(0x30 + digit) as u8] + tail);
            assert(digits@.push((0x30 + digit) as u8) + tail =~= digits@ + (seq![
                (0x30 + digit) as u8,
            ] + tail));
        }
        digits.push(0x30 + digit);
        rest = rest / 10;
    }
    proof {
        assert(digits@.push((0x30 + rest) as u8) =~= digits@ + decimal_digits_reversed(
            rest as nat,
        ));
    }
    digits.push(0x30 + rest as u8);
    digits
}

/// Appends `value` to `out` in decimal.
pub fn push_decimal(out: &mut Vec<u8>, value: i64)
    ensures
        final(out)@ == old(out)@ + signed_decimal(value as int),
{
    let magnitude: u64 = if value < 0 {
        (-(value as i128)) as u64
    } else {
        value as u64
    };
    let reversed: Vec<u8> = decimal_digits_reversed_of(magnitude);
    if value < 0 {
        out.push(0x2D);
    }
    let ghost head = out@;
    let n: usize = reversed.len();
    let mut i: usize = 0;
    while i < n
        invariant
            i <= n,
            n == reversed@.len(),
            out@ == head + reversed@.reverse().subrange(0, i as int),
        decreases n - i,
    {
        out.push(reversed[n - 1 - i]);
        i += 1;
        assert(out@ =~= head + reversed@.reverse().subrange(0, i as int));
    }
    assert(reversed@.reverse().subrange(0, n as int) =~= reversed@.reverse());
    assert(out@ =~= old(out)@ + signed_decimal(value as int));
}

} // verus!
