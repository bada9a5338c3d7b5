//! The base-32 bit-interleaving codec.
//!
//! Twelve payload bytes form a 96-bit stream, most-significant bit first.
//! Each of the twenty output characters carries a five-bit window of that
//! stream; the four window positions past the 96th bit always read as zero.
//! The alphabet is `0123456789abcdefghijklmnopqrstuv`: symbol index equals
//! window value.

use vstd::prelude::*;

verus! {

/// Bit `j` of byte `x`, counting the most significant bit as bit zero.
pub open spec fn byte_bit(x: u8, j: int) -> u8
    recommends
        0 <= j < 8,
{
    (x >> ((7 - j) as u8)) & 1
}

/// Bit `k` of the bit stream formed by the block's bytes, most-significant
/// bit first; positions past the last byte read as zero.
pub open spec fn stream_bit(block: Seq<u8>, k: int) -> u8
    recommends
        0 <= k,
{
    if k < 8 * block.len() {
        byte_bit(block[k / 8], k % 8)
    } else {
        0
    }
}

/// Five single-bit values packed into one value below 32, `x0` on top.
pub open spec fn pack5(x0: u8, x1: u8, x2: u8, x3: u8, x4: u8) -> u8
    recommends
        x0 <= 1 && x1 <= 1 && x2 <= 1 && x3 <= 1 && x4 <= 1,
{
    (x0 << 4) | (x1 << 3) | (x2 << 2) | (x3 << 1) | x4
}

/// Eight single-bit values packed into one byte, `x0` on top.
pub open spec fn pack8(x0: u8, x1: u8, x2: u8, x3: u8, x4: u8, x5: u8, x6: u8, x7: u8) -> u8
    recommends
        x0 <= 1 && x1 <= 1 && x2 <= 1 && x3 <= 1 && x4 <= 1 && x5 <= 1 && x6 <= 1 && x7 <= 1,
{
    (x0 << 7) | (x1 << 6) | (x2 << 5) | (x3 << 4) | (x4 << 3) | (x5 << 2) | (x6 << 1) | x7
}

/// The five-bit window that output character `i` carries: stream bits
/// `5*i` through `5*i + 4`.
pub open spec fn window_value(block: Seq<u8>, i: int) -> u8
    recommends
        block.len() == 12,
        0 <= i < 20,
{
    pack5(
        stream_bit(block, 5 * i),
        stream_bit(block, 5 * i + 1),
        stream_bit(block, 5 * i + 2),
        stream_bit(block, 5 * i + 3),
        stream_bit(block, 5 * i + 4),
    )
}

/// The ASCII byte of the symbol for a five-bit value: digits, then `a-v`.
pub open spec fn symbol_byte(v: u8) -> u8
    recommends
        v < 32,
{
    if v < 10 {
        (48 + v) as u8
    } else {
        (87 + v) as u8
    }
}

/// The symbol for a five-bit value, as a character.
pub open spec fn symbol_char(v: u8) -> char
    recommends
        v < 32,
{
    symbol_byte(v) as char
}

/// Whether `c` is one of the thirty-two symbols `0-9a-v`.
pub open spec fn is_symbol(c: char) -> bool {
    (48 <= c as u32 && c as u32 <= 57) || (97 <= c as u32 && c as u32 <= 118)
}

/// Whether every character of `chars` is a symbol.
pub open spec fn all_symbols(chars: Seq<char>) -> bool {
    forall|i: int| 0 <= i < chars.len() ==> is_symbol(#[trigger] chars[i])
}

/// The five-bit value a symbol stands for.
pub open spec fn symbol_value(c: char) -> u8
    recommends
        is_symbol(c),
{
    if 48 <= c as u32 && c as u32 <= 57 {
        ((c as u32) - 48) as u8
    } else {
        ((c as u32) - 87) as u8
    }
}

/// The twenty characters that encode a twelve-byte block.
pub open spec fn encoded_chars(block: Seq<u8>) -> Seq<char>
    recommends
        block.len() == 12,
{
    Seq::new(20, |i: int| symbol_char(window_value(block, i)))
}

/// Bit `j` of a five-bit window value, counting its top bit as bit zero.
pub open spec fn window_bit(v: u8, j: int) -> u8
    recommends
        v < 32,
        0 <= j < 5,
{
    (v >> ((4 - j) as u8)) & 1
}

/// Stream bit `k` as the decoder rebuilds it from the characters' windows:
/// bit `k % 5` of the window carried by character `k / 5`.
pub open spec fn rebuilt_bit(chars: Seq<char>, k: int) -> u8
    recommends
        chars.len() == 20,
        0 <= k < 96,
{
    window_bit(symbol_value(chars[k / 5]), k % 5)
}

/// Byte `j` that the decoder rebuilds: stream bits `8*j` through `8*j + 7`.
pub open spec fn decoded_byte(chars: Seq<char>, j: int) -> u8
    recommends
        chars.len() == 20,
        0 <= j < 12,
{
    pack8(
        rebuilt_bit(chars, 8 * j),
        rebuilt_bit(chars, 8 * j + 1),
        rebuilt_bit(chars, 8 * j + 2),
        rebuilt_bit(chars, 8 * j + 3),
        rebuilt_bit(chars, 8 * j + 4),
        rebuilt_bit(chars, 8 * j + 5),
        rebuilt_bit(chars, 8 * j + 6),
        rebuilt_bit(chars, 8 * j + 7),
    )
}

/// The twelve bytes the decoder rebuilds from twenty symbol characters.
/// The lowest four bits of the last character's window fall away.
pub open spec fn decoded_block(chars: Seq<char>) -> Seq<u8>
    recommends
        chars.len() == 20,
{
    Seq::new(12, |j: int| decoded_byte(chars, j))
}

/// `i` points at the first character of `chars` that is not a symbol.
pub open spec fn first_non_symbol_at(chars: Seq<char>, i: int) -> bool {
    &&& 0 <= i < chars.len()
    &&& !is_symbol(chars[i])
    &&& forall|j: int| 0 <= j < i ==> is_symbol(#[trigger] chars[j])
}

/// A byte is the packing of its own eight bits.
pub proof fn lemma_pack8_of_bits(x: u8)
    ensures
        byte_bit(x, 0) <= 1,
        byte_bit(x, 1) <= 1,
        byte_bit(x, 2) <= 1,
        byte_bit(x, 3) <= 1,
        byte_bit(x, 4) <= 1,
        byte_bit(x, 5) <= 1,
        byte_bit(x, 6) <= 1,
        byte_bit(x, 7) <= 1,
        pack8(
            byte_bit(x, 0),
            byte_bit(x, 1),
            byte_bit(x, 2),
            byte_bit(x, 3),
            byte_bit(x, 4),
            byte_bit(x, 5),
            byte_bit(x, 6),
            byte_bit(x, 7),
        ) == x,
{
    assert(((x >> 7) & 1) <= 1 && ((x >> 6) & 1) <= 1 && ((x >> 5) & 1) <= 1 && ((x >> 4) & 1)
        <= 1 && ((x >> 3) & 1) <= 1 && ((x >> 2) & 1) <= 1 && ((x >> 1) & 1) <= 1 && ((x >> 0) & 1)
        <= 1 && ((((x >> 7) & 1) << 7) | (((x >> 6) & 1) << 6) | (((x >> 5) & 1) << 5) | (((x >> 4)
        & 1) << 4) | (((x >> 3) & 1) << 3) | (((x >> 2) & 1) << 2) | (((x >> 1) & 1) << 1) | ((x
        >> 0) & 1)) == x) by (bit_vector);
}

/// A packed five-bit window gives each of its bits back.
pub proof fn lemma_pack5_window_bits(x0: u8, x1: u8, x2: u8, x3: u8, x4: u8)
    requires
        x0 <= 1 && x1 <= 1 && x2 <= 1 && x3 <= 1 && x4 <= 1,
    ensures
        pack5(x0, x1, x2, x3, x4) < 32,
        window_bit(pack5(x0, x1, x2, x3, x4), 0) == x0,
        window_bit(pack5(x0, x1, x2, x3, x4), 1) == x1,
        window_bit(pack5(x0, x1, x2, x3, x4), 2) == x2,
        window_bit(pack5(x0, x1, x2, x3, x4), 3) == x3,
        window_bit(pack5(x0, x1, x2, x3, x4), 4) == x4,
{
    assert(x0 <= 1 && x1 <= 1 && x2 <= 1 && x3 <= 1 && x4 <= 1 ==> ((x0 << 4) | (x1 << 3) | (x2
        << 2) | (x3 << 1) | x4) < 32 && ((((x0 << 4) | (x1 << 3) | (x2 << 2) | (x3 << 1) | x4)
        >> 4) & 1) == x0 && ((((x0 << 4) | (x1 << 3) | (x2 << 2) | (x3 << 1) | x4) >> 3) & 1) == x1
        && ((((x0 << 4) | (x1 << 3) | (x2 << 2) | (x3 << 1) | x4) >> 2) & 1) == x2 && ((((x0 << 4)
        | (x1 << 3) | (x2 << 2) | (x3 << 1) | x4) >> 1) & 1) == x3 && ((((x0 << 4) | (x1 << 3) | (
    x2 << 2) | (x3 << 1) | x4) >> 0) & 1) == x4) by (bit_vector);
}

/// A symbol carries its window value back out of the alphabet.
pub proof fn lemma_symbol_round_trip(v: u8)
    requires
        v < 32,
    ensures
        symbol_byte(v) < 128,
        symbol_byte(v) != 95,
        is_symbol(symbol_char(v)),
        symbol_value(symbol_char(v)) == v,
{
}

/// Each output character's window, written over the shift-and-mask
/// expressions the encoder computes.
#[verifier::rlimit(100)]
pub proof fn lemma_encode_schedule(block: Seq<u8>)
    requires
        block.len() == 12,
    ensures
        window_value(block, 0) == (block[0] >> 3),
        window_value(block, 1) == (((block[1] >> 6) | (block[0] << 2)) & 31),
        window_value(block, 2) == ((block[1] >> 1) & 31),
        window_value(block, 3) == (((block[2] >> 4) | (block[1] << 4)) & 31),
        window_value(block, 4) == (((block[3] >> 7) | (block[2] << 1)) & 31),
        window_value(block, 5) == ((block[3] >> 2) & 31),
        window_value(block, 6) == (((block[4] >> 5) | (block[3] << 3)) & 31),
        window_value(block, 7) == (block[4] & 31),
        window_value(block, 8) == (block[5] >> 3),
        window_value(block, 9) == (((block[6] >> 6) | (block[5] << 2)) & 31),
        window_value(block, 10) == ((block[6] >> 1) & 31),
        window_value(block, 11) == (((block[7] >> 4) | (block[6] << 4)) & 31),
        window_value(block, 12) == (((block[8] >> 7) | (block[7] << 1)) & 31),
        window_value(block, 13) == ((block[8] >> 2) & 31),
        window_value(block, 14) == (((block[9] >> 5) | (block[8] << 3)) & 31),
        window_value(block, 15) == (block[9] & 31),
        window_value(block, 16) == (block[10] >> 3),
        window_value(block, 17) == (((block[11] >> 6) | (block[10] << 2)) & 31),
        window_value(block, 18) == ((block[11] >> 1) & 31),
        window_value(block, 19) == ((block[11] << 4) & 31),
        window_value(block, 0) < 32,
        window_value(block, 1) < 32,
        window_value(block, 2) < 32,
        window_value(block, 3) < 32,
        window_value(block, 4) < 32,
        window_value(block, 5) < 32,
        window_value(block, 6) < 32,
        window_value(block, 7) < 32,
        window_value(block, 8) < 32,
        window_value(block, 9) < 32,
        window_value(block, 10) < 32,
        window_value(block, 11) < 32,
        window_value(block, 12) < 32,
        window_value(block, 13) < 32,
        window_value(block, 14) < 32,
        window_value(block, 15) < 32,
        window_value(block, 16) < 32,
        window_value(block, 17) < 32,
        window_value(block, 18) < 32,
        window_value(block, 19) < 32,
{
    let b0 = block[0];
    let b1 = block[1];
    let b2 = block[2];
    let b3 = block[3];
    let b4 = block[4];
    let b5 = block[5];
    let b6 = block[6];
    let b7 = block[7];
    let b8 = block[8];
    let b9 = block[9];
    let b10 = block[10];
    let b11 = block[11];
    assert((((((b0 >> 7) & 1) << 4) | (((b0 >> 6) & 1) << 3) | (((b0 >> 5) & 1) << 2) | (((b0 >> 4) & 1) << 1) | ((b0 >> 3) & 1)) == (b0 >> 3)) && (b0 >> 3) < 32) by (bit_vector);
    assert((((((b0 >> 2) & 1) << 4) | (((b0 >> 1) & 1) << 3) | (((b0 >> 0) & 1) << 2) | (((b1 >> 7) & 1) << 1) | ((b1 >> 6) & 1)) == (((b1 >> 6) | (b0 << 2)) & 31)) && (((b1 >> 6) | (b0 << 2)) & 31) < 32) by (bit_vector);
    assert((((((b1 >> 5) & 1) << 4) | (((b1 >> 4) & 1) << 3) | (((b1 >> 3) & 1) << 2) | (((b1 >> 2) & 1) << 1) | ((b1 >> 1) & 1)) == ((b1 >> 1) & 31)) && ((b1 >> 1) & 31) < 32) by (bit_vector);
    assert((((((b1 >> 0) & 1) << 4) | (((b2 >> 7) & 1) << 3) | (((b2 >> 6) & 1) << 2) | (((b2 >> 5) & 1) << 1) | ((b2 >> 4) & 1)) == (((b2 >> 4) | (b1 << 4)) & 31)) && (((b2 >> 4) | (b1 << 4)) & 31) < 32) by (bit_vector);
    assert((((((b2 >> 3) & 1) << 4) | (((b2 >> 2) & 1) << 3) | (((b2 >> 1) & 1) << 2) | (((b2 >> 0) & 1) << 1) | ((b3 >> 7) & 1)) == (((b3 >> 7) | (b2 << 1)) & 31)) && (((b3 >> 7) | (b2 << 1)) & 31) < 32) by (bit_vector);
    assert((((((b3 >> 6) & 1) << 4) | (((b3 >> 5) & 1) << 3) | (((b3 >> 4) & 1) << 2) | (((b3 >> 3) & 1) << 1) | ((b3 >> 2) & 1)) == ((b3 >> 2) & 31)) && ((b3 >> 2) & 31) < 32) by (bit_vector);
    assert((((((b3 >> 1) & 1) << 4) | (((b3 >> 0) & 1) << 3) | (((b4 >> 7) & 1) << 2) | (((b4 >> 6) & 1) << 1) | ((b4 >> 5) & 1)) == (((b4 >> 5) | (b3 << 3)) & 31)) && (((b4 >> 5) | (b3 << 3)) & 31) < 32) by (bit_vector);
    assert((((((b4 >> 4) & 1) << 4) | (((b4 >> 3) & 1) << 3) | (((b4 >> 2) & 1) << 2) | (((b4 >> 1) & 1) << 1) | ((b4 >> 0) & 1)) == (b4 & 31)) && (b4 & 31) < 32) by (bit_vector);
    assert((((((b5 >> 7) & 1) << 4) | (((b5 >> 6) & 1) << 3) | (((b5 >> 5) & 1) << 2) | (((b5 >> 4) & 1) << 1) | ((b5 >> 3) & 1)) == (b5 >> 3)) && (b5 >> 3) < 32) by (bit_vector);
    assert((((((b5 >> 2) & 1) << 4) | (((b5 >> 1) & 1) << 3) | (((b5 >> 0) & 1) << 2) | (((b6 >> 7) & 1) << 1) | ((b6 >> 6) & 1)) == (((b6 >> 6) | (b5 << 2)) & 31)) && (((b6 >> 6) | (b5 << 2)) & 31) < 32) by (bit_vector);
    assert((((((b6 >> 5) & 1) << 4) | (((b6 >> 4) & 1) << 3) | (((b6 >> 3) & 1) << 2) | (((b6 >> 2) & 1) << 1) | ((b6 >> 1) & 1)) == ((b6 >> 1) & 31)) && ((b6 >> 1) & 31) < 32) by (bit_vector);
    assert((((((b6 >> 0) & 1) << 4) | (((b7 >> 7) & 1) << 3) | (((b7 >> 6) & 1) << 2) | (((b7 >> 5) & 1) << 1) | ((b7 >> 4) & 1)) == (((b7 >> 4) | (b6 << 4)) & 31)) && (((b7 >> 4) | (b6 << 4)) & 31) < 32) by (bit_vector);
    assert((((((b7 >> 3) & 1) << 4) | (((b7 >> 2) & 1) << 3) | (((b7 >> 1) & 1) << 2) | (((b7 >> 0) & 1) << 1) | ((b8 >> 7) & 1)) == (((b8 >> 7) | (b7 << 1)) & 31)) && (((b8 >> 7) | (b7 << 1)) & 31) < 32) by (bit_vector);
    assert((((((b8 >> 6) & 1) << 4) | (((b8 >> 5) & 1) << 3) | (((b8 >> 4) & 1) << 2) | (((b8 >> 3) & 1) << 1) | ((b8 >> 2) & 1)) == ((b8 >> 2) & 31)) && ((b8 >> 2) & 31) < 32) by (bit_vector);
    assert((((((b8 >> 1) & 1) << 4) | (((b8 >> 0) & 1) << 3) | (((b9 >> 7) & 1) << 2) | (((b9 >> 6) & 1) << 1) | ((b9 >> 5) & 1)) == (((b9 >> 5) | (b8 << 3)) & 31)) && (((b9 >> 5) | (b8 << 3)) & 31) < 32) by (bit_vector);
    assert((((((b9 >> 4) & 1) << 4) | (((b9 >> 3) & 1) << 3) | (((b9 >> 2) & 1) << 2) | (((b9 >> 1) & 1) << 1) | ((b9 >> 0) & 1)) == (b9 & 31)) && (b9 & 31) < 32) by (bit_vector);
    assert((((((b10 >> 7) & 1) << 4) | (((b10 >> 6) & 1) << 3) | (((b10 >> 5) & 1) << 2) | (((b10 >> 4) & 1) << 1) | ((b10 >> 3) & 1)) == (b10 >> 3)) && (b10 >> 3) < 32) by (bit_vector);
    assert((((((b10 >> 2) & 1) << 4) | (((b10 >> 1) & 1) << 3) | (((b10 >> 0) & 1) << 2) | (((b11 >> 7) & 1) << 1) | ((b11 >> 6) & 1)) == (((b11 >> 6) | (b10 << 2)) & 31)) && (((b11 >> 6) | (b10 << 2)) & 31) < 32) by (bit_vector);
    assert((((((b11 >> 5) & 1) << 4) | (((b11 >> 4) & 1) << 3) | (((b11 >> 3) & 1) << 2) | (((b11 >> 2) & 1) << 1) | ((b11 >> 1) & 1)) == ((b11 >> 1) & 31)) && ((b11 >> 1) & 31) < 32) by (bit_vector);
    assert((((((b11 >> 0) & 1) << 4) | (0u8 << 3) | (0u8 << 2) | (0u8 << 1) | 0u8) == ((b11 << 4)
        & 31)) && ((b11 << 4) & 31) < 32) by (bit_vector);
}

/// The first six decoded bytes, over the decoder's shift-and-or forms.
#[verifier::rlimit(100)]
#[verifier::spinoff_prover]
proof fn lemma_decode_schedule_low(chars: Seq<char>, vals: Seq<u8>)
    requires
        chars.len() == 20,
        vals.len() == 20,
        forall|i: int| 0 <= i < 20 ==> #[trigger] vals[i] < 32 && vals[i] == symbol_value(
            chars[i],
        ),
    ensures
        decoded_byte(chars, 0) == (((vals[0] << 3) | (vals[1] >> 2))),
        decoded_byte(chars, 1) == (((vals[1] << 6) | (vals[2] << 1) | (vals[3] >> 4))),
        decoded_byte(chars, 2) == (((vals[3] << 4) | (vals[4] >> 1))),
        decoded_byte(chars, 3) == (((vals[4] << 7) | (vals[5] << 2) | (vals[6] >> 3))),
        decoded_byte(chars, 4) == (((vals[6] << 5) | vals[7])),
        decoded_byte(chars, 5) == (((vals[8] << 3) | (vals[9] >> 2))),
{
    let v0 = vals[0];
    let v1 = vals[1];
    let v2 = vals[2];
    let v3 = vals[3];
    let v4 = vals[4];
    let v5 = vals[5];
    let v6 = vals[6];
    let v7 = vals[7];
    let v8 = vals[8];
    let v9 = vals[9];
    let v10 = vals[10];
    let v11 = vals[11];
    let v12 = vals[12];
    let v13 = vals[13];
    let v14 = vals[14];
    let v15 = vals[15];
    let v16 = vals[16];
    let v17 = vals[17];
    let v18 = vals[18];
    let v19 = vals[19];
    assert((v0 < 32 && v1 < 32) ==> (((v0 << 3) | (v1 >> 2)) == ((((v0 >> 4) & 1) << 7) | (((v0 >> 3) & 1) << 6) | (((v0 >> 2) & 1) << 5) | (((v0 >> 1) & 1) << 4) | (((v0 >> 0) & 1) << 3) | (((v1 >> 4) & 1) << 2) | (((v1 >> 3) & 1) << 1) | ((v1 >> 2) & 1)))) by (bit_vector);
    assert((v1 < 32 && v2 < 32 && v3 < 32) ==> (((v1 << 6) | (v2 << 1) | (v3 >> 4)) == ((((v1 >> 1) & 1) << 7) | (((v1 >> 0) & 1) << 6) | (((v2 >> 4) & 1) << 5) | (((v2 >> 3) & 1) << 4) | (((v2 >> 2) & 1) << 3) | (((v2 >> 1) & 1) << 2) | (((v2 >> 0) & 1) << 1) | ((v3 >> 4) & 1)))) by (bit_vector);
    assert((v3 < 32 && v4 < 32) ==> (((v3 << 4) | (v4 >> 1)) == ((((v3 >> 3) & 1) << 7) | (((v3 >> 2) & 1) << 6) | (((v3 >> 1) & 1) << 5) | (((v3 >> 0) & 1) << 4) | (((v4 >> 4) & 1) << 3) | (((v4 >> 3) & 1) << 2) | (((v4 >> 2) & 1) << 1) | ((v4 >> 1) & 1)))) by (bit_vector);
    assert((v4 < 32 && v5 < 32 && v6 < 32) ==> (((v4 << 7) | (v5 << 2) | (v6 >> 3)) == ((((v4 >> 0) & 1) << 7) | (((v5 >> 4) & 1) << 6) | (((v5 >> 3) & 1) << 5) | (((v5 >> 2) & 1) << 4) | (((v5 >> 1) & 1) << 3) | (((v5 >> 0) & 1) << 2) | (((v6 >> 4) & 1) << 1) | ((v6 >> 3) & 1)))) by (bit_vector);
    assert((v6 < 32 && v7 < 32) ==> (((v6 << 5) | v7) == ((((v6 >> 2) & 1) << 7) | (((v6 >> 1) & 1) << 6) | (((v6 >> 0) & 1) << 5) | (((v7 >> 4) & 1) << 4) | (((v7 >> 3) & 1) << 3) | (((v7 >> 2) & 1) << 2) | (((v7 >> 1) & 1) << 1) | ((v7 >> 0) & 1)))) by (bit_vector);
    assert((v8 < 32 && v9 < 32) ==> (((v8 << 3) | (v9 >> 2)) == ((((v8 >> 4) & 1) << 7) | (((v8 >> 3) & 1) << 6) | (((v8 >> 2) & 1) << 5) | (((v8 >> 1) & 1) << 4) | (((v8 >> 0) & 1) << 3) | (((v9 >> 4) & 1) << 2) | (((v9 >> 3) & 1) << 1) | ((v9 >> 2) & 1)))) by (bit_vector);
}

/// The last six decoded bytes, over the decoder's shift-and-or forms.
#[verifier::rlimit(100)]
#[verifier::spinoff_prover]
proof fn lemma_decode_schedule_high(chars: Seq<char>, vals: Seq<u8>)
    requires
        chars.len() == 20,
        vals.len() == 20,
        forall|i: int| 0 <= i < 20 ==> #[trigger] vals[i] < 32 && vals[i] == symbol_value(
            chars[i],
        ),
    ensures
        decoded_byte(chars, 6) == (((vals[9] << 6) | (vals[10] << 1) | (vals[11] >> 4))),
        decoded_byte(chars, 7) == (((vals[11] << 4) | (vals[12] >> 1))),
        decoded_byte(chars, 8) == (((vals[12] << 7) | (vals[13] << 2) | (vals[14] >> 3))),
        decoded_byte(chars, 9) == (((vals[14] << 5) | vals[15])),
        decoded_byte(chars, 10) == (((vals[16] << 3) | (vals[17] >> 2))),
        decoded_byte(chars, 11) == (((vals[17] << 6) | (vals[18] << 1) | (vals[19] >> 4))),
{
    let v0 = vals[0];
    let v1 = vals[1];
    let v2 = vals[2];
    let v3 = vals[3];
    let v4 = vals[4];
    let v5 = vals[5];
    let v6 = vals[6];
    let v7 = vals[7];
    let v8 = vals[8];
    let v9 = vals[9];
    let v10 = vals[10];
    let v11 = vals[11];
    let v12 = vals[12];
    let v13 = vals[13];
    let v14 = vals[14];
    let v15 = vals[15];
    let v16 = vals[16];
    let v17 = vals[17];
    let v18 = vals[18];
    let v19 = vals[19];
    assert((v9 < 32 && v10 < 32 && v11 < 32) ==> (((v9 << 6) | (v10 << 1) | (v11 >> 4)) == ((((v9 >> 1) & 1) << 7) | (((v9 >> 0) & 1) << 6) | (((v10 >> 4) & 1) << 5) | (((v10 >> 3) & 1) << 4) | (((v10 >> 2) & 1) << 3) | (((v10 >> 1) & 1) << 2) | (((v10 >> 0) & 1) << 1) | ((v11 >> 4) & 1)))) by (bit_vector);
    assert((v11 < 32 && v12 < 32) ==> (((v11 << 4) | (v12 >> 1)) == ((((v11 >> 3) & 1) << 7) | (((v11 >> 2) & 1) << 6) | (((v11 >> 1) & 1) << 5) | (((v11 >> 0) & 1) << 4) | (((v12 >> 4) & 1) << 3) | (((v12 >> 3) & 1) << 2) | (((v12 >> 2) & 1) << 1) | ((v12 >> 1) & 1)))) by (bit_vector);
    assert((v12 < 32 && v13 < 32 && v14 < 32) ==> (((v12 << 7) | (v13 << 2) | (v14 >> 3)) == ((((v12 >> 0) & 1) << 7) | (((v13 >> 4) & 1) << 6) | (((v13 >> 3) & 1) << 5) | (((v13 >> 2) & 1) << 4) | (((v13 >> 1) & 1) << 3) | (((v13 >> 0) & 1) << 2) | (((v14 >> 4) & 1) << 1) | ((v14 >> 3) & 1)))) by (bit_vector);
    assert((v14 < 32 && v15 < 32) ==> (((v14 << 5) | v15) == ((((v14 >> 2) & 1) << 7) | (((v14 >> 1) & 1) << 6) | (((v14 >> 0) & 1) << 5) | (((v15 >> 4) & 1) << 4) | (((v15 >> 3) & 1) << 3) | (((v15 >> 2) & 1) << 2) | (((v15 >> 1) & 1) << 1) | ((v15 >> 0) & 1)))) by (bit_vector);
    assert((v16 < 32 && v17 < 32) ==> (((v16 << 3) | (v17 >> 2)) == ((((v16 >> 4) & 1) << 7) | (((v16 >> 3) & 1) << 6) | (((v16 >> 2) & 1) << 5) | (((v16 >> 1) & 1) << 4) | (((v16 >> 0) & 1) << 3) | (((v17 >> 4) & 1) << 2) | (((v17 >> 3) & 1) << 1) | ((v17 >> 2) & 1)))) by (bit_vector);
    assert((v17 < 32 && v18 < 32 && v19 < 32) ==> (((v17 << 6) | (v18 << 1) | (v19 >> 4)) == ((((v17 >> 1) & 1) << 7) | (((v17 >> 0) & 1) << 6) | (((v18 >> 4) & 1) << 5) | (((v18 >> 3) & 1) << 4) | (((v18 >> 2) & 1) << 3) | (((v18 >> 1) & 1) << 2) | (((v18 >> 0) & 1) << 1) | ((v19 >> 4) & 1)))) by (bit_vector);
}

/// Each decoded byte, written over the shift-and-or expressions the decoder
/// computes from the characters' window values.
#[verifier::rlimit(100)]
#[verifier::spinoff_prover]
pub proof fn lemma_decode_schedule(chars: Seq<char>, vals: Seq<u8>)
    requires
        chars.len() == 20,
        vals.len() == 20,
        forall|i: int| 0 <= i < 20 ==> #[trigger] vals[i] < 32 && vals[i] == symbol_value(
            chars[i],
        ),
    ensures
        decoded_byte(chars, 0) == (((vals[0] << 3) | (vals[1] >> 2))),
        decoded_byte(chars, 1) == (((vals[1] << 6) | (vals[2] << 1) | (vals[3] >> 4))),
        decoded_byte(chars, 2) == (((vals[3] << 4) | (vals[4] >> 1))),
        decoded_byte(chars, 3) == (((vals[4] << 7) | (vals[5] << 2) | (vals[6] >> 3))),
        decoded_byte(chars, 4) == (((vals[6] << 5) | vals[7])),
        decoded_byte(chars, 5) == (((vals[8] << 3) | (vals[9] >> 2))),
        decoded_byte(chars, 6) == (((vals[9] << 6) | (vals[10] << 1) | (vals[11] >> 4))),
        decoded_byte(chars, 7) == (((vals[11] << 4) | (vals[12] >> 1))),
        decoded_byte(chars, 8) == (((vals[12] << 7) | (vals[13] << 2) | (vals[14] >> 3))),
        decoded_byte(chars, 9) == (((vals[14] << 5) | vals[15])),
        decoded_byte(chars, 10) == (((vals[16] << 3) | (vals[17] >> 2))),
        decoded_byte(chars, 11) == (((vals[17] << 6) | (vals[18] << 1) | (vals[19] >> 4))),
{
    lemma_decode_schedule_low(chars, vals);
    lemma_decode_schedule_high(chars, vals);
}

/// Any single bit of a byte is zero or one.
pub proof fn lemma_byte_bit_bound(x: u8, j: int)
    requires
        0 <= j < 8,
    ensures
        byte_bit(x, j) <= 1,
{
    assert(((x >> 7) & 1) <= 1 && ((x >> 6) & 1) <= 1 && ((x >> 5) & 1) <= 1 && ((x >> 4) & 1) <= 1
        && ((x >> 3) & 1) <= 1 && ((x >> 2) & 1) <= 1 && ((x >> 1) & 1) <= 1 && ((x >> 0) & 1)
        <= 1) by (bit_vector);
    if j == 0 {
        assert(byte_bit(x, j) == ((x >> 7) & 1));
    } else if j == 1 {
        assert(byte_bit(x, j) == ((x >> 6) & 1));
    } else if j == 2 {
        assert(byte_bit(x, j) == ((x >> 5) & 1));
    } else if j == 3 {
        assert(byte_bit(x, j) == ((x >> 4) & 1));
    } else if j == 4 {
        assert(byte_bit(x, j) == ((x >> 3) & 1));
    } else if j == 5 {
        assert(byte_bit(x, j) == ((x >> 2) & 1));
    } else if j == 6 {
        assert(byte_bit(x, j) == ((x >> 1) & 1));
    } else {
        assert(byte_bit(x, j) == ((x >> 0) & 1));
    }
}

/// Any stream bit is zero or one.
pub proof fn lemma_stream_bit_bound(block: Seq<u8>, k: int)
    requires
        0 <= k,
    ensures
        stream_bit(block, k) <= 1,
{
    if k < 8 * block.len() {
        lemma_byte_bit_bound(block[k / 8], k % 8);
    }
}

/// A window value lies below 32 and gives each stream bit it carries back.
pub proof fn lemma_window_round_trip(block: Seq<u8>, i: int, j: int)
    requires
        block.len() == 12,
        0 <= i < 20,
        0 <= j < 5,
    ensures
        window_value(block, i) < 32,
        window_bit(window_value(block, i), j) == stream_bit(block, 5 * i + j),
{
    lemma_stream_bit_bound(block, 5 * i);
    lemma_stream_bit_bound(block, 5 * i + 1);
    lemma_stream_bit_bound(block, 5 * i + 2);
    lemma_stream_bit_bound(block, 5 * i + 3);
    lemma_stream_bit_bound(block, 5 * i + 4);
    lemma_pack5_window_bits(
        stream_bit(block, 5 * i),
        stream_bit(block, 5 * i + 1),
        stream_bit(block, 5 * i + 2),
        stream_bit(block, 5 * i + 3),
        stream_bit(block, 5 * i + 4),
    );
    if j == 0 {
        assert(window_bit(window_value(block, i), 0) == stream_bit(block, 5 * i));
    } else if j == 1 {
        assert(window_bit(window_value(block, i), 1) == stream_bit(block, 5 * i + 1));
    } else if j == 2 {
        assert(window_bit(window_value(block, i), 2) == stream_bit(block, 5 * i + 2));
    } else if j == 3 {
        assert(window_bit(window_value(block, i), 3) == stream_bit(block, 5 * i + 3));
    } else {
        assert(window_bit(window_value(block, i), 4) == stream_bit(block, 5 * i + 4));
    }
}

/// One decoded byte of an encoded block is the original byte.
#[verifier::rlimit(100)]
#[verifier::spinoff_prover]
proof fn lemma_decoded_byte_round(block: Seq<u8>, j: int)
    requires
        block.len() == 12,
        0 <= j < 12,
    ensures
        decoded_byte(encoded_chars(block), j) == block[j],
{
    let enc = encoded_chars(block);
    lemma_pack8_of_bits(block[j]);
    let k0 = 8 * j;
    lemma_window_round_trip(block, k0 / 5, k0 % 5);
    lemma_symbol_round_trip(window_value(block, k0 / 5));
    let k1 = 8 * j + 1;
    lemma_window_round_trip(block, k1 / 5, k1 % 5);
    lemma_symbol_round_trip(window_value(block, k1 / 5));
    let k2 = 8 * j + 2;
    lemma_window_round_trip(block, k2 / 5, k2 % 5);
    lemma_symbol_round_trip(window_value(block, k2 / 5));
    let k3 = 8 * j + 3;
    lemma_window_round_trip(block, k3 / 5, k3 % 5);
    lemma_symbol_round_trip(window_value(block, k3 / 5));
    let k4 = 8 * j + 4;
    lemma_window_round_trip(block, k4 / 5, k4 % 5);
    lemma_symbol_round_trip(window_value(block, k4 / 5));
    let k5 = 8 * j + 5;
    lemma_window_round_trip(block, k5 / 5, k5 % 5);
    lemma_symbol_round_trip(window_value(block, k5 / 5));
    let k6 = 8 * j + 6;
    lemma_window_round_trip(block, k6 / 5, k6 % 5);
    lemma_symbol_round_trip(window_value(block, k6 / 5));
    let k7 = 8 * j + 7;
    lemma_window_round_trip(block, k7 / 5, k7 % 5);
    lemma_symbol_round_trip(window_value(block, k7 / 5));
    assert(rebuilt_bit(enc, k0) == stream_bit(block, k0));
    assert(rebuilt_bit(enc, k1) == stream_bit(block, k1));
    assert(rebuilt_bit(enc, k2) == stream_bit(block, k2));
    assert(rebuilt_bit(enc, k3) == stream_bit(block, k3));
    assert(rebuilt_bit(enc, k4) == stream_bit(block, k4));
    assert(rebuilt_bit(enc, k5) == stream_bit(block, k5));
    assert(rebuilt_bit(enc, k6) == stream_bit(block, k6));
    assert(rebuilt_bit(enc, k7) == stream_bit(block, k7));
    assert(stream_bit(block, k0) == byte_bit(block[j], 0));
    assert(stream_bit(block, k1) == byte_bit(block[j], 1));
    assert(stream_bit(block, k2) == byte_bit(block[j], 2));
    assert(stream_bit(block, k3) == byte_bit(block[j], 3));
    assert(stream_bit(block, k4) == byte_bit(block[j], 4));
    assert(stream_bit(block, k5) == byte_bit(block[j], 5));
    assert(stream_bit(block, k6) == byte_bit(block[j], 6));
    assert(stream_bit(block, k7) == byte_bit(block[j], 7));
}

/// The codec round trip: the characters that encode a block are all
/// symbols, each carrying its window value, and decoding them rebuilds
/// exactly the original twelve bytes.
pub proof fn lemma_decode_of_encode(block: Seq<u8>)
    requires
        block.len() == 12,
    ensures
        all_symbols(encoded_chars(block)),
        forall|i: int|
            0 <= i < 20 ==> symbol_value(#[trigger] encoded_chars(block)[i]) == window_value(
                block,
                i,
            ) && encoded_chars(block)[i] != '_' && '\0' <= encoded_chars(block)[i] <= '\u{7f}',
        decoded_block(encoded_chars(block)) == block,
{
    let enc = encoded_chars(block);
    assert forall|i: int| 0 <= i < 20 implies is_symbol(#[trigger] enc[i]) && symbol_value(enc[i])
        == window_value(block, i) && enc[i] != '_' && '\0' <= enc[i] <= '\u{7f}' by {
        lemma_window_round_trip(block, i, 0);
        lemma_symbol_round_trip(window_value(block, i));
        assert(symbol_byte(window_value(block, i)) < 128);
        assert(enc[i] == symbol_char(window_value(block, i)));
    }
    assert forall|j: int| 0 <= j < 12 implies #[trigger] decoded_block(enc)[j] == block[j] by {
        lemma_decoded_byte_round(block, j);
    }
    assert(decoded_block(enc) =~= block);
}

} // verus!
