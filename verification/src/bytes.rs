//! Big-endian field decoding, nibble splitting and hexadecimal rendering.
use vstd::prelude::*;
use vstd::string::StringExecFns;
use crate::text::push_char;

verus! {

/// Value of two bytes read in network (big-endian) order.
pub open spec fn be16(hi: u8, lo: u8) -> int {
    hi as int * 256 + lo as int
}

/// Value of four bytes read in network (big-endian) order.
pub open spec fn be32(b0: u8, b1: u8, b2: u8, b3: u8) -> int {
    ((b0 as int * 256 + b1 as int) * 256 + b2 as int) * 256 + b3 as int
}

/// Law: a big-endian pair is the high byte shifted up by eight bits over
/// the low byte, as `u16::from_be_bytes` assembles it.
pub proof fn lemma_be16_bits(hi: u8, lo: u8)
    ensures
        be16(hi, lo) == ((hi as u16) << 8u16) | (lo as u16),
        0 <= be16(hi, lo) <= u16::MAX,
{
    let v: u16 = ((hi as u16) << 8u16) | (lo as u16);
    assert(v as int == (hi as int) * 256 + (lo as int)) by (bit_vector)
        requires
            v == ((hi as u16) << 8u16) | (lo as u16),
    ;
}

/// Law: a big-endian quadruple is its bytes shifted into place from the
/// most significant down, as `u32::from_be_bytes` assembles it.
pub proof fn lemma_be32_bits(b0: u8, b1: u8, b2: u8, b3: u8)
    ensures
        be32(b0, b1, b2, b3) == ((b0 as u32) << 24u32) | ((b1 as u32) << 16u32) | ((b2 as u32)
            << 8u32) | (b3 as u32),
        be32(b0, b1, b2, b3) == b0 as int * 0x1000000 + b1 as int * 0x10000 + b2 as int * 0x100
            + b3 as int,
{
    let v: u32 = ((b0 as u32) << 24u32) | ((b1 as u32) << 16u32) | ((b2 as u32) << 8u32) | (
    b3 as u32);
    assert(v as int == (b0 as int) * 0x1000000 + (b1 as int) * 0x10000 + (b2 as int) * 0x100 + (
    b3 as int)) by (bit_vector)
        requires
            v == ((b0 as u32) << 24u32) | ((b1 as u32) << 16u32) | ((b2 as u32) << 8u32) | (
            b3 as u32),
    ;
}

/// Reads the big-endian `u16` stored at `raw[at]`, `raw[at + 1]`.
pub fn read_be16(raw: &[u8], at: usize) -> (v: u16)
    requires
        at + 2 <= raw@.len(),
    ensures
        v as int == be16(raw@[at as int], raw@[at + 1]),
{
    let hi = raw[at] as u16;
    let lo = raw[at + 1] as u16;
    hi * 256 + lo
}

/// Reads the big-endian `u32` stored at `raw[at..at + 4]`.
pub fn read_be32(raw: &[u8], at: usize) -> (v: u32)
    requires
        at + 4 <= raw@.len(),
    ensures
        v as int == be32(raw@[at as int], raw@[at + 1], raw@[at + 2], raw@[at + 3]),
{
    let b0 = raw[at] as u32;
    let b1 = raw[at + 1] as u32;
    let b2 = raw[at + 2] as u32;
    let b3 = raw[at + 3] as u32;
    ((b0 * 256 + b1) * 256 + b2) * 256 + b3
}

/// Splits a byte into its high and low four-bit halves.
pub fn byte_to_2x4bits(byte: u8) -> (r: [u8; 2])
    ensures
        r[0] == byte / 16,
        r[1] == byte % 16,
{
    let hi = (byte >> 4) & 0b1111;
    let lo = byte & 0b1111;
    assert(hi == byte / 16 && lo == byte % 16) by (bit_vector)
        requires
            hi == (byte >> 4) & 0b1111,
            lo == byte & 0b1111,
    ;
    [hi, lo]
}

/// Law: the two halves produced by `byte_to_2x4bits` put back together give
/// the byte again, and each half is below sixteen.
pub proof fn lemma_nibbles_recompose(byte: u8)
    ensures
        (byte / 16) * 16 + byte % 16 == byte,
        byte / 16 < 16,
        byte % 16 < 16,
{
}


/// The upper-case hexadecimal digit of a value below sixteen.
pub open spec fn hex_digit(n: int) -> char {
    if n < 10 {
        (48 + n) as char
    } else {
        (55 + n) as char
    }
}

/// A byte written as two upper-case hexadecimal digits.
pub open spec fn hex_pair(b: u8) -> Seq<char> {
    seq![hex_digit(b as int / 16), hex_digit(b as int % 16)]
}

/// The bytes written as hexadecimal pairs, with `sep` between neighbours.
pub open spec fn hex_join(bs: Seq<u8>, sep: Seq<char>) -> Seq<char>
    decreases bs.len(),
{
    if bs.len() == 0 {
        Seq::empty()
    } else if bs.len() == 1 {
        hex_pair(bs[0])
    } else {
        hex_join(bs.drop_last(), sep) + sep + hex_pair(bs.last())
    }
}

/// Law: rendering takes exactly two digits per byte and one separator
/// between neighbours.
pub proof fn lemma_hex_join_len(bs: Seq<u8>, sep: Seq<char>)
    requires
        bs.len() > 0,
    ensures
        hex_join(bs, sep).len() == 2 * bs.len() + (bs.len() - 1) * sep.len(),
    decreases bs.len(),
{
    let n = bs.len() as int;
    let m = sep.len() as int;
    assert(hex_pair(bs.last()).len() == 2);
    if n > 1 {
        lemma_hex_join_len(bs.drop_last(), sep);
        assert(hex_join(bs.drop_last(), sep).len() == 2 * (n - 1) + (n - 2) * m);
        assert((n - 2) * m + m == (n - 1) * m) by (nonlinear_arith);
    } else {
        assert(hex_pair(bs[0]).len() == 2);
        assert((n - 1) * m == 0) by (nonlinear_arith)
            requires
                n == 1,
        ;
    }
}

/// The upper-case hexadecimal alphabet, digit `n` at index `n`.
pub open spec fn hex_alphabet() -> Seq<char> {
    seq!['0', '1', '2', '3', '4', '5', '6', '7', '8', '9', 'A', 'B', 'C', 'D', 'E', 'F']
}

/// Law: every value below sixteen is written with the digit at its index
/// in `0123456789ABCDEF`.
pub proof fn lemma_hex_digit_alphabet(n: int)
    requires
        0 <= n < 16,
    ensures
        hex_digit(n) == hex_alphabet()[n],
{
    assert(hex_alphabet()[0] == '0' && hex_alphabet()[1] == '1' && hex_alphabet()[2] == '2'
        && hex_alphabet()[3] == '3' && hex_alphabet()[4] == '4' && hex_alphabet()[5] == '5'
        && hex_alphabet()[6] == '6' && hex_alphabet()[7] == '7' && hex_alphabet()[8] == '8'
        && hex_alphabet()[9] == '9' && hex_alphabet()[10] == 'A' && hex_alphabet()[11] == 'B'
        && hex_alphabet()[12] == 'C' && hex_alphabet()[13] == 'D' && hex_alphabet()[14] == 'E'
        && hex_alphabet()[15] == 'F');
}

/// Law: in the rendering of `bs`, byte `i` is the two alphabet digits of
/// its high and low halves, at `i * (2 + |sep|)`, and the separator stands
/// between neighbouring pairs.
pub proof fn lemma_hex_join_layout(bs: Seq<u8>, sep: Seq<char>, i: int)
    requires
        0 <= i < bs.len(),
    ensures
        hex_join(bs, sep)[i * (2 + sep.len())] == hex_alphabet()[bs[i] as int / 16],
        hex_join(bs, sep)[i * (2 + sep.len()) + 1] == hex_alphabet()[bs[i] as int % 16],
        i + 1 < bs.len() ==> hex_join(bs, sep).subrange(
            i * (2 + sep.len()) + 2,
            i * (2 + sep.len()) + 2 + sep.len(),
        ) == sep,
    decreases bs.len(),
{
    let n = bs.len() as int;
    let m = sep.len() as int;
    lemma_hex_digit_alphabet(bs[i] as int / 16);
    lemma_hex_digit_alphabet(bs[i] as int % 16);
    if n == 1 {
        assert(i == 0);
    } else {
        let front = bs.drop_last();
        lemma_hex_join_len(front, sep);
        let fl = hex_join(front, sep).len() as int;
        assert(fl == 2 * (n - 1) + (n - 2) * m);
        let whole = hex_join(bs, sep);
        assert(whole == hex_join(front, sep) + sep + hex_pair(bs.last()));
        if i < n - 1 {
            lemma_hex_join_layout(front, sep, i);
            assert(front[i] == bs[i]);
            assert(i * (2 + m) + 2 <= fl) by (nonlinear_arith)
                requires
                    0 <= i < n - 1,
                    m >= 0,
                    fl == 2 * (n - 1) + (n - 2) * m,
            ;
            if i + 1 < n - 1 {
                assert(i * (2 + m) + 2 + m <= fl) by (nonlinear_arith)
                    requires
                        0 <= i,
                        i + 1 < n - 1,
                        m >= 0,
                        fl == 2 * (n - 1) + (n - 2) * m,
                ;
                assert(whole.subrange(i * (2 + m) + 2, i * (2 + m) + 2 + m) =~= hex_join(
                    front,
                    sep,
                ).subrange(i * (2 + m) + 2, i * (2 + m) + 2 + m));
            } else {
                assert(i * (2 + m) + 2 == fl) by (nonlinear_arith)
                    requires
                        i == n - 2,
                        fl == 2 * (n - 1) + (n - 2) * m,
                ;
                assert(whole.subrange(i * (2 + m) + 2, i * (2 + m) + 2 + m) =~= sep);
            }
        } else {
            assert(i * (2 + m) == fl + m) by (nonlinear_arith)
                requires
                    i == n - 1,
                    fl == 2 * (n - 1) + (n - 2) * m,
            ;
        }
    }
}

fn hex_digit_char(n: u8) -> (c: char)
    requires
        n < 16,
    ensures
        c == hex_digit(n as int),
{
    if n < 10 {
        (48 + n) as char
    } else {
        (55 + n) as char
    }
}

/// Writes `bytes` as upper-case hexadecimal pairs joined by `join_char`
/// (a MAC address with `":"` gives `AA:BB:CC:DD:EE:FF`).
pub fn bytes_to_hex(bytes: &[u8], join_char: &str) -> (s: String)
    ensures
        s@ == hex_join(bytes@, join_char@),
{
    let mut out = String::new();
    let mut i: usize = 0;
    while i < bytes.len()
        invariant
            i <= bytes@.len(),
            out@ == hex_join(bytes@.take(i as int), join_char@),
        decreases bytes@.len() - i,
    {
        let b = bytes[i];
        if i > 0 {
            out.append(join_char);
        }
        push_char(&mut out, hex_digit_char(b / 16));
        push_char(&mut out, hex_digit_char(b % 16));
        proof {
            let t = bytes@.take(i + 1);
            assert(t.drop_last() =~= bytes@.take(i as int));
            assert(t.last() == b);
            if i == 0 {
                assert(out@ =~= hex_pair(b));
            } else {
                assert(out@ =~= hex_join(bytes@.take(i as int), join_char@) + join_char@
                    + hex_pair(b));
            }
        }
        i += 1;
    }
    assert(bytes@.take(i as int) =~= bytes@);
    out
}

} // verus!
