//! Library-wide laws, stated over the same spec functions the executable
//! functions' contracts use.

use vstd::prelude::*;
use vstd::utf8::{
    decode_utf8, encode_utf8, encode_utf8_decode_utf8, encode_utf8_valid_utf8, is_ascii_chars,
    is_ascii_chars_encode_utf8, valid_utf8,
};

use crate::codec::{all_symbols, decoded_block, encoded_chars, lemma_decode_of_encode};
use crate::id::{format_chars, packed_bytes, pad4, parse_accepts, parsed_bytes, sep_at, sep_pos};

verus! {

/// An ASCII byte and the character it reads as carry the same value.
proof fn lemma_ascii_byte_char(b: u8)
    requires
        b < 128,
    ensures
        '\0' <= (b as char) <= '\u{7f}',
        ((b as char) as u8) == b,
        ((b as char) == '_') <==> (b == 95),
{
}

/// Four ASCII bytes are valid UTF-8 and decode to their own characters.
proof fn lemma_ascii4(pfx: Seq<u8>)
    requires
        pfx.len() == 4,
        forall|i: int| 0 <= i < 4 ==> #[trigger] pfx[i] < 128,
    ensures
        valid_utf8(pfx),
        decode_utf8(pfx).len() == 4,
        forall|i: int| 0 <= i < 4 ==> #[trigger] decode_utf8(pfx)[i] == pfx[i] as char,
        is_ascii_chars(decode_utf8(pfx)),
        encode_utf8(decode_utf8(pfx)) == pfx,
{
    let pchars = Seq::new(4, |i: int| pfx[i] as char);
    assert forall|i: int| 0 <= i < 4 implies '\0' <= #[trigger] pchars[i] <= '\u{7f}'
        && pchars[i] as u8 == pfx[i] by {
        lemma_ascii_byte_char(pfx[i]);
    }
    assert(is_ascii_chars(pchars));
    is_ascii_chars_encode_utf8(pchars);
    assert(encode_utf8(pchars) =~= pfx);
    encode_utf8_valid_utf8(pchars);
    encode_utf8_decode_utf8(pchars);
    assert(decode_utf8(pfx) == pchars);
}

/// A four-character prefix, the separator and twenty symbol characters form
/// exactly the strings the parser accepts, splitting where they were joined.
proof fn lemma_parse_of_split(pchars: Seq<char>, enc: Seq<char>)
    requires
        pchars.len() == 4,
        enc.len() == 20,
        is_ascii_chars(pchars),
        is_ascii_chars(enc),
        forall|j: int| 0 <= j < 4 ==> #[trigger] pchars[j] != '_',
        forall|j: int| 0 <= j < 20 ==> #[trigger] enc[j] != '_',
        all_symbols(enc),
    ensures
        ({
            let fs = pchars + seq!['_'] + enc;
            &&& fs.len() == 25
            &&& sep_at(fs, 4)
            &&& sep_pos(fs) == 4
            &&& encode_utf8(fs).len() == 25
            &&& parse_accepts(fs)
            &&& parsed_bytes(fs) == pad4(encode_utf8(pchars)) + decoded_block(enc)
        }),
{
    let fs = pchars + seq!['_'] + enc;
    assert(fs.len() == 25);
    assert forall|j: int| 0 <= j < 25 implies '\0' <= #[trigger] fs[j] <= '\u{7f}' by {
        if j < 4 {
            assert(fs[j] == pchars[j]);
        } else if j == 4 {
            assert(fs[j] == '_');
        } else {
            assert(fs[j] == enc[j - 5]);
        }
    }
    assert(is_ascii_chars(fs));
    is_ascii_chars_encode_utf8(fs);
    assert(encode_utf8(fs).len() == 25);
    assert forall|j: int| 0 <= j < 25 && j != 4 implies #[trigger] fs[j] != '_' by {
        if j < 4 {
            assert(fs[j] == pchars[j]);
        } else {
            assert(fs[j] == enc[j - 5]);
        }
    }
    assert(sep_at(fs, 4));
    assert(sep_at(fs, sep_pos(fs)));
    assert(sep_pos(fs) == 4);
    assert(fs.subrange(0, 4) =~= pchars);
    assert(fs.subrange(5, 25) =~= enc);
    is_ascii_chars_encode_utf8(pchars);
    is_ascii_chars_encode_utf8(enc);
    assert(parse_accepts(fs));
}

/// Assembly is faithful: every field of an identifier assembled from given
/// parts reads back as the part that went in, through the same byte ranges
/// and big-endian formulas the accessors state.
pub proof fn lemma_packed_field_values(
    prefix: Seq<u8>,
    time: u32,
    machine: Seq<u8>,
    pid: u16,
    counter: u32,
)
    requires
        prefix.len() <= 4,
        machine.len() == 3,
        counter < 0x1000000,
    ensures
        ({
            let b = packed_bytes(prefix, time, machine, pid, counter);
            &&& b.len() == 16
            &&& b.subrange(0, 4) == pad4(prefix)
            &&& b[4] * 0x1000000 + b[5] * 0x10000 + b[6] * 0x100 + b[7] == time
            &&& b.subrange(8, 11) == machine
            &&& b[11] * 0x100 + b[12] == pid
            &&& b[13] * 0x10000 + b[14] * 0x100 + b[15] == counter
        }),
{
    let b = packed_bytes(prefix, time, machine, pid, counter);
    assert(((time >> 24) & 0xff) < 256 && ((time >> 16) & 0xff) < 256 && ((time >> 8) & 0xff) < 256
        && (time & 0xff) < 256 && ((time >> 24) & 0xff) * 0x1000000 + ((time >> 16) & 0xff)
        * 0x10000 + ((time >> 8) & 0xff) * 0x100 + (time & 0xff) == time) by (bit_vector);
    assert(((pid >> 8) & 0xff) < 256 && (pid & 0xff) < 256 && ((pid >> 8) & 0xff) * 0x100 + (pid
        & 0xff) == pid) by (bit_vector);
    assert(counter < 0x1000000 ==> ((counter >> 16) & 0xff) < 256 && ((counter >> 8) & 0xff) < 256
        && (counter & 0xff) < 256 && ((counter >> 16) & 0xff) * 0x10000 + ((counter >> 8) & 0xff)
        * 0x100 + (counter & 0xff) == counter) by (bit_vector);
    assert(b.subrange(0, 4) =~= pad4(prefix));
    assert(b.subrange(8, 11) =~= machine);
}

/// Round trip: an identifier assembled from any fields, rendered as text,
/// parses back to exactly the bytes that were assembled, for any non-empty
/// prefix of at most four ASCII bytes containing no underscore.
#[verifier::rlimit(100)]
#[verifier::spinoff_prover]
pub proof fn lemma_format_parse_round_trip(
    prefix: Seq<u8>,
    time: u32,
    machine: Seq<u8>,
    pid: u16,
    counter: u32,
)
    requires
        1 <= prefix.len() <= 4,
        forall|i: int| 0 <= i < prefix.len() ==> #[trigger] prefix[i] < 128,
        forall|i: int| 0 <= i < prefix.len() ==> #[trigger] prefix[i] != 95,
        machine.len() == 3,
        counter < 0x1000000,
    ensures
        ({
            let b = packed_bytes(prefix, time, machine, pid, counter);
            &&& valid_utf8(b.subrange(0, 4))
            &&& parse_accepts(format_chars(b))
            &&& parsed_bytes(format_chars(b)) == b
        }),
{
    let b = packed_bytes(prefix, time, machine, pid, counter);
    let pfx = b.subrange(0, 4);
    let block = b.subrange(4, 16);
    assert(b.len() == 16);
    assert(pfx =~= pad4(prefix));
    assert forall|i: int| 0 <= i < 4 implies #[trigger] pfx[i] < 128 && pfx[i] != 95 by {
        if i < prefix.len() {
            assert(pfx[i] == prefix[i]);
        } else {
            assert(pfx[i] == 0);
        }
    }
    lemma_ascii4(pfx);
    let pchars = decode_utf8(pfx);
    assert forall|i: int| 0 <= i < 4 implies #[trigger] pchars[i] != '_' by {
        lemma_ascii_byte_char(pfx[i]);
        assert(pchars[i] == pfx[i] as char);
    }
    let enc = encoded_chars(block);
    lemma_decode_of_encode(block);
    assert(is_ascii_chars(enc));
    lemma_parse_of_split(pchars, enc);
    let fs = format_chars(b);
    assert(fs == pchars + seq!['_'] + enc);
    assert(parse_accepts(fs));
    assert(encode_utf8(pchars) == pfx);
    assert(pad4(pfx) =~= pfx);
    assert(decoded_block(enc) == block);
    assert(parsed_bytes(fs) =~= b);
    assert(valid_utf8(b.subrange(0, 4)));
}

} // verus!
