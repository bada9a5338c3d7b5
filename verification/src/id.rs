//! The prefixed identifier value type: a fixed sixteen-byte structure.
//!
//! Layout, with all multi-byte fields big-endian:
//! bytes 0-3 hold the prefix (right-padded with zero bytes), bytes 4-7 the
//! timestamp in seconds, bytes 8-10 the machine id, bytes 11-12 the process
//! id, and bytes 13-15 the generation counter.

use vstd::prelude::*;
use vstd::string::StringSliceAdditionalSpecFns;
use vstd::utf8::{decode_utf8, valid_utf8};

use crate::error::{DecodeError, Error};
use crate::host_id::MachineIdBytes;

verus! {

/// The raw bytes of an identifier.
pub type Bytes = [u8; 16];

/// A prefixed identifier: four prefix bytes followed by the twelve-byte
/// payload block that the codec renders as text.
#[derive(Clone, Copy, Debug, PartialEq, Eq, Hash)]
pub struct Pxid(pub Bytes);

impl View for Pxid {
    type V = Seq<u8>;

    open spec fn view(&self) -> Seq<u8> {
        self.0@
    }
}

/// The caller-supplied prefix bytes, right-padded with zeros to four bytes.
pub open spec fn pad4(prefix: Seq<u8>) -> Seq<u8>
    recommends
        prefix.len() <= 4,
{
    Seq::new(4, |i: int| if i < prefix.len() { prefix[i] } else { 0u8 })
}

/// The sixteen bytes assembled from the identifier's fields.
pub open spec fn packed_bytes(
    prefix: Seq<u8>,
    time: u32,
    machine: Seq<u8>,
    pid: u16,
    counter: u32,
) -> Seq<u8>
    recommends
        prefix.len() <= 4,
        machine.len() == 3,
        counter < 0x1000000,
{
    pad4(prefix) + seq![
        (((time >> 24) & 0xff) as u8),
        (((time >> 16) & 0xff) as u8),
        (((time >> 8) & 0xff) as u8),
        ((time & 0xff) as u8),
    ] + machine + seq![(((pid >> 8) & 0xff) as u8), ((pid & 0xff) as u8)] + seq![
        (((counter >> 16) & 0xff) as u8),
        (((counter >> 8) & 0xff) as u8),
        ((counter & 0xff) as u8),
    ]
}

impl Pxid {
    /// The prefix bytes: the first four bytes of the identifier.
    pub fn prefix_bytes(&self) -> (r: [u8; 4])
        ensures
            r@ == self@.subrange(0, 4),
    {
        let r: [u8; 4] = [self.0[0], self.0[1], self.0[2], self.0[3]];
        proof {
            assert(r@ =~= self@.subrange(0, 4));
        }
        r
    }

    /// The timestamp: seconds since the Unix epoch, read big-endian from
    /// bytes 4-7.
    pub fn timestamp(&self) -> (r: u32)
        ensures
            r == self@[4] * 0x1000000 + self@[5] * 0x10000 + self@[6] * 0x100 + self@[7],
    {
        (self.0[4] as u32) * 0x1000000 + (self.0[5] as u32) * 0x10000 + (self.0[6] as u32) * 0x100
            + (self.0[7] as u32)
    }

    /// The machine id: bytes 8-10.
    pub fn machine_id(&self) -> (r: [u8; 3])
        ensures
            r@ == self@.subrange(8, 11),
    {
        let r: [u8; 3] = [self.0[8], self.0[9], self.0[10]];
        proof {
            assert(r@ =~= self@.subrange(8, 11));
        }
        r
    }

    /// The process id bytes: bytes 11-12.
    pub fn process_id_bytes(&self) -> (r: [u8; 2])
        ensures
            r@ == self@.subrange(11, 13),
    {
        let r: [u8; 2] = [self.0[11], self.0[12]];
        proof {
            assert(r@ =~= self@.subrange(11, 13));
        }
        r
    }

    /// The process id, read big-endian from bytes 11-12.
    pub fn process_id(&self) -> (r: u16)
        ensures
            r == self@[11] * 0x100 + self@[12],
    {
        (self.0[11] as u16) * 0x100 + (self.0[12] as u16)
    }

    /// The counter bytes: bytes 13-15.
    pub fn counter_bytes(&self) -> (r: [u8; 3])
        ensures
            r@ == self@.subrange(13, 16),
    {
        let r: [u8; 3] = [self.0[13], self.0[14], self.0[15]];
        proof {
            assert(r@ =~= self@.subrange(13, 16));
        }
        r
    }

    /// The counter value, read big-endian from bytes 13-15; always below
    /// two to the twenty-fourth.
    pub fn counter(&self) -> (r: u32)
        ensures
            r == self@[13] * 0x10000 + self@[14] * 0x100 + self@[15],
            r < 0x1000000,
    {
        (self.0[13] as u32) * 0x10000 + (self.0[14] as u32) * 0x100 + (self.0[15] as u32)
    }

    /// The twelve-byte payload block: bytes 4-15, the part the codec encodes.
    pub fn xid_bytes(&self) -> (r: [u8; 12])
        ensures
            r@ == self@.subrange(4, 16),
    {
        let b = &self.0;
        let r: [u8; 12] = [
            b[4],
            b[5],
            b[6],
            b[7],
            b[8],
            b[9],
            b[10],
            b[11],
            b[12],
            b[13],
            b[14],
            b[15],
        ];
        proof {
            assert(r@ =~= self@.subrange(4, 16));
        }
        r
    }

    /// Assembles an identifier from its fields: rejects a prefix longer than
    /// four bytes, then an empty prefix, then packs the fields big-endian.
    pub fn from_parts(
        prefix: &str,
        time: u32,
        machine_id: MachineIdBytes,
        process_id: u16,
        counter: u32,
    ) -> (r: Result<Pxid, Error>)
        requires
            counter < 0x1000000,
        ensures
            match r {
                Ok(id) => {
                    &&& 1 <= prefix.spec_bytes().len() <= 4
                    &&& id@ == packed_bytes(
                        prefix.spec_bytes(),
                        time,
                        machine_id@,
                        process_id,
                        counter,
                    )
                },
                Err(e) => match e {
                    Error::PrefixExceedsMaxLength(p) => prefix.spec_bytes().len() > 4 && p@
                        == prefix@,
                    Error::Decode(DecodeError::MissingPrefix(p)) => prefix.spec_bytes().len() == 0
                        && p@ == prefix@,
                    _ => false,
                },
            },
    {
        let pb = prefix.as_bytes();
        let n = pb.len();
        if n > 4 {
            return Err(Error::PrefixExceedsMaxLength(prefix.to_owned()));
        }
        if n == 0 {
            return Err(Error::Decode(DecodeError::MissingPrefix(prefix.to_owned())));
        }
        let p0 = pb[0];
        let p1 = if n > 1 {
            pb[1]
        } else {
            0
        };
        let p2 = if n > 2 {
            pb[2]
        } else {
            0
        };
        let p3 = if n > 3 {
            pb[3]
        } else {
            0
        };
        let t0 = #[verifier::truncate] (((time >> 24) & 0xff) as u8);
        let t1 = #[verifier::truncate] (((time >> 16) & 0xff) as u8);
        let t2 = #[verifier::truncate] (((time >> 8) & 0xff) as u8);
        let t3 = #[verifier::truncate] ((time & 0xff) as u8);
        let pi0 = #[verifier::truncate] (((process_id >> 8) & 0xff) as u8);
        let pi1 = #[verifier::truncate] ((process_id & 0xff) as u8);
        let c0 = #[verifier::truncate] (((counter >> 16) & 0xff) as u8);
        let c1 = #[verifier::truncate] (((counter >> 8) & 0xff) as u8);
        let c2 = #[verifier::truncate] ((counter & 0xff) as u8);
        let arr: Bytes = [
            p0,
            p1,
            p2,
            p3,
            t0,
            t1,
            t2,
            t3,
            machine_id[0],
            machine_id[1],
            machine_id[2],
            pi0,
            pi1,
            c0,
            c1,
            c2,
        ];
        let id = Pxid(arr);
        proof {
            assert(id@ =~= packed_bytes(
                prefix.spec_bytes(),
                time,
                machine_id@,
                process_id,
                counter,
            ));
        }
        Ok(id)
    }

    /// Encodes a twelve-byte payload block as its twenty-character text
    /// form. Never fails; the fallible signature mirrors the decoding side.
    #[verifier::rlimit(100)]
    pub fn encode_xid(xid_bytes: &[u8; 12]) -> (r: Result<String, Error>)
        ensures
            r matches Ok(s) && s@ == crate::codec::encoded_chars(xid_bytes@),
    {
        let b = xid_bytes;
        proof {
            crate::codec::lemma_encode_schedule(b@);
        }
        let v0 = b[0] >> 3;
        let v1 = ((b[1] >> 6) | (b[0] << 2)) & 31;
        let v2 = (b[1] >> 1) & 31;
        let v3 = ((b[2] >> 4) | (b[1] << 4)) & 31;
        let v4 = ((b[3] >> 7) | (b[2] << 1)) & 31;
        let v5 = (b[3] >> 2) & 31;
        let v6 = ((b[4] >> 5) | (b[3] << 3)) & 31;
        let v7 = b[4] & 31;
        let v8 = b[5] >> 3;
        let v9 = ((b[6] >> 6) | (b[5] << 2)) & 31;
        let v10 = (b[6] >> 1) & 31;
        let v11 = ((b[7] >> 4) | (b[6] << 4)) & 31;
        let v12 = ((b[8] >> 7) | (b[7] << 1)) & 31;
        let v13 = (b[8] >> 2) & 31;
        let v14 = ((b[9] >> 5) | (b[8] << 3)) & 31;
        let v15 = b[9] & 31;
        let v16 = b[10] >> 3;
        let v17 = ((b[11] >> 6) | (b[10] << 2)) & 31;
        let v18 = (b[11] >> 1) & 31;
        let v19 = (b[11] << 4) & 31;
        let enc: [u8; 20] = [
            symbol_of(v0),
            symbol_of(v1),
            symbol_of(v2),
            symbol_of(v3),
            symbol_of(v4),
            symbol_of(v5),
            symbol_of(v6),
            symbol_of(v7),
            symbol_of(v8),
            symbol_of(v9),
            symbol_of(v10),
            symbol_of(v11),
            symbol_of(v12),
            symbol_of(v13),
            symbol_of(v14),
            symbol_of(v15),
            symbol_of(v16),
            symbol_of(v17),
            symbol_of(v18),
            symbol_of(v19),
        ];
        let s = ascii_string_from_bytes(&enc);
        proof {
            assert(s@ =~= crate::codec::encoded_chars(b@));
        }
        Ok(s)
    }

    /// Decodes a twenty-character payload string back into its twelve bytes.
    /// Rejects a wrong byte length, then the first character outside
    /// `0-9a-v`; validation always precedes the bit work.
    #[verifier::rlimit(100)]
    pub fn decode_xid(s: &str) -> (r: Result<[u8; 12], Error>)
        ensures
            match r {
                Ok(block) => {
                    &&& s.spec_bytes().len() == 20
                    &&& s@.len() == 20
                    &&& crate::codec::all_symbols(s@)
                    &&& block@ == crate::codec::decoded_block(s@)
                },
                Err(e) => match e {
                    Error::Decode(DecodeError::InvalidXidLength(m, ln)) => {
                        &&& s.spec_bytes().len() != 20
                        &&& m@ == s@
                        &&& ln == s.spec_bytes().len()
                    },
                    Error::Decode(DecodeError::InvalidChar(m, c)) => {
                        &&& s.spec_bytes().len() == 20
                        &&& m@ == s@
                        &&& exists|i: int| crate::codec::first_non_symbol_at(s@, i) && c == s@[i]
                    },
                    _ => false,
                },
            },
    {
        let nb = s.as_bytes().len();
        proof {
            broadcast use vstd::slice::axiom_spec_len;

            assert(nb == s.spec_bytes().len());
        }
        if nb != 20 {
            return Err(Error::Decode(DecodeError::InvalidXidLength(s.to_owned(), nb)));
        }
        let n = s.unicode_len();
        let mut vals: Vec<u8> = Vec::new();
        let mut i: usize = 0;
        while i < n
            invariant
                i <= n,
                n == s@.len(),
                s.spec_bytes().len() == 20,
                vals@.len() == i as int,
                forall|j: int|
                    0 <= j < i ==> crate::codec::is_symbol(#[trigger] s@[j]) && '\0' <= s@[j]
                        <= '\u{7f}',
                forall|j: int|
                    0 <= j < i ==> #[trigger] vals@[j] < 32 && vals@[j]
                        == crate::codec::symbol_value(s@[j]),
            decreases n - i,
        {
            let c = s.get_char(i);
            let cu = c as u32;
            if 48 <= cu && cu <= 57 {
                proof {
                    assert('\0' <= c <= '\u{7f}');
                }
                vals.push((cu - 48) as u8);
            } else if 97 <= cu && cu <= 118 {
                proof {
                    assert('\0' <= c <= '\u{7f}');
                }
                vals.push((cu - 87) as u8);
            } else {
                proof {
                    assert(crate::codec::first_non_symbol_at(s@, i as int) && c == s@[i as int]);
                    assert(exists|j: int|
                        crate::codec::first_non_symbol_at(s@, j) && c == s@[j]);
                }
                return Err(Error::Decode(DecodeError::InvalidChar(s.to_owned(), c)));
            }
            i += 1;
        }
        proof {
            assert(i == n);
            assert(vstd::utf8::is_ascii_chars(s@));
            vstd::utf8::is_ascii_chars_encode_utf8(s@);
            assert(s@.len() == 20);
        }
        proof {
            crate::codec::lemma_decode_schedule(s@, vals@);
        }
        let b0 = (vals[0] << 3) | (vals[1] >> 2);
        let b1 = (vals[1] << 6) | (vals[2] << 1) | (vals[3] >> 4);
        let b2 = (vals[3] << 4) | (vals[4] >> 1);
        let b3 = (vals[4] << 7) | (vals[5] << 2) | (vals[6] >> 3);
        let b4 = (vals[6] << 5) | vals[7];
        let b5 = (vals[8] << 3) | (vals[9] >> 2);
        let b6 = (vals[9] << 6) | (vals[10] << 1) | (vals[11] >> 4);
        let b7 = (vals[11] << 4) | (vals[12] >> 1);
        let b8 = (vals[12] << 7) | (vals[13] << 2) | (vals[14] >> 3);
        let b9 = (vals[14] << 5) | vals[15];
        let b10 = (vals[16] << 3) | (vals[17] >> 2);
        let b11 = (vals[17] << 6) | (vals[18] << 1) | (vals[19] >> 4);
        let block: [u8; 12] = [b0, b1, b2, b3, b4, b5, b6, b7, b8, b9, b10, b11];
        proof {
            assert(block@ =~= crate::codec::decoded_block(s@));
        }
        Ok(block)
    }

    /// The prefix read as UTF-8 text, padding zeros included; fails when the
    /// stored prefix bytes are not valid UTF-8.
    pub fn prefix(&self) -> (r: Result<String, Error>)
        ensures
            match r {
                Ok(t) => valid_utf8(self@.subrange(0, 4)) && t@ == decode_utf8(
                    self@.subrange(0, 4),
                ),
                Err(e) => e == Error::Decode(DecodeError::InvalidUtf8) && !valid_utf8(
                    self@.subrange(0, 4),
                ),
            },
    {
        let pb = self.prefix_bytes();
        match utf8_string_from_bytes(&pb) {
            Some(t) => Ok(t),
            None => Err(Error::Decode(DecodeError::InvalidUtf8)),
        }
    }

    /// The identifier's text form `prefix_payload`; fails when the stored
    /// prefix bytes are not valid UTF-8.
    pub fn format(&self) -> (r: Result<String, Error>)
        ensures
            match r {
                Ok(t) => valid_utf8(self@.subrange(0, 4)) && t@ == format_chars(self@),
                Err(e) => e == Error::Decode(DecodeError::InvalidUtf8) && !valid_utf8(
                    self@.subrange(0, 4),
                ),
            },
    {
        let p = match self.prefix() {
            Ok(t) => t,
            Err(e) => {
                return Err(e);
            },
        };
        let xid = self.xid_bytes();
        let enc = match Pxid::encode_xid(&xid) {
            Ok(t) => t,
            Err(e) => {
                return Err(e);
            },
        };
        let mut out = p;
        out.append("_");
        out.append(enc.as_str());
        proof {
            reveal_strlit("_");
            assert(("_")@ =~= seq!['_']);
            assert(out@ =~= format_chars(self@));
        }
        Ok(out)
    }

    /// The identifier's text form, for an identifier whose prefix bytes are
    /// valid UTF-8: a convenience over the fallible `format`.
    pub fn to_string(&self) -> (r: String)
        requires
            valid_utf8(self@.subrange(0, 4)),
        ensures
            r@ == format_chars(self@),
    {
        match self.format() {
            Ok(t) => t,
            Err(_) => String::new(),
        }
    }

    /// Parses the text form back into an identifier. Validation order:
    /// whole-string byte length, separator, prefix byte length, payload byte
    /// length, payload characters; the first violation is returned.
    #[verifier::rlimit(100)]
    pub fn from_str(s: &str) -> (r: Result<Pxid, Error>)
        ensures
            match r {
                Ok(id) => parse_accepts(s@) && id@ == parsed_bytes(s@),
                Err(e) => match e {
                    Error::Decode(DecodeError::InvalidLength(m, ln)) => {
                        &&& (s.spec_bytes().len() > 25 || s.spec_bytes().len() < 21)
                        &&& m@ == s@
                        &&& ln == s.spec_bytes().len()
                    },
                    Error::Decode(DecodeError::MissingPrefix(m)) => {
                        &&& 21 <= s.spec_bytes().len() <= 25
                        &&& !(exists|k: int| sep_at(s@, k))
                        &&& m@ == s@
                    },
                    Error::Decode(DecodeError::InvalidPrefixLength(m, ln)) => {
                        &&& 21 <= s.spec_bytes().len() <= 25
                        &&& exists|k: int|
                            {
                                &&& sep_at(s@, k)
                                &&& m@ == s@.subrange(0, k)
                                &&& ln == vstd::utf8::encode_utf8(s@.subrange(0, k)).len()
                            }
                        &&& ln > 4
                    },
                    Error::Decode(DecodeError::InvalidXidLength(m, ln)) => {
                        &&& 21 <= s.spec_bytes().len() <= 25
                        &&& exists|k: int|
                            {
                                &&& sep_at(s@, k)
                                &&& vstd::utf8::encode_utf8(s@.subrange(0, k)).len() <= 4
                                &&& m@ == s@.subrange(k + 1, s@.len() as int)
                                &&& ln == vstd::utf8::encode_utf8(
                                    s@.subrange(k + 1, s@.len() as int),
                                ).len()
                            }
                        &&& ln != 20
                    },
                    Error::Decode(DecodeError::InvalidChar(m, c)) => {
                        &&& 21 <= s.spec_bytes().len() <= 25
                        &&& exists|k: int|
                            {
                                &&& sep_at(s@, k)
                                &&& vstd::utf8::encode_utf8(s@.subrange(0, k)).len() <= 4
                                &&& vstd::utf8::encode_utf8(
                                    s@.subrange(k + 1, s@.len() as int),
                                ).len() == 20
                                &&& m@ == s@.subrange(k + 1, s@.len() as int)
                                &&& exists|i: int|
                                    {
                                        &&& #[trigger] crate::codec::first_non_symbol_at(
                                            s@.subrange(k + 1, s@.len() as int),
                                            i,
                                        )
                                        &&& c == s@.subrange(k + 1, s@.len() as int)[i]
                                    }
                            }
                    },
                    _ => false,
                },
            },
    {
        let nb = s.as_bytes().len();
        proof {
            broadcast use vstd::slice::axiom_spec_len;

            assert(nb == s.spec_bytes().len());
        }
        if nb > 25 {
            return Err(Error::Decode(DecodeError::InvalidLength(s.to_owned(), nb)));
        }
        if nb < 21 {
            return Err(Error::Decode(DecodeError::InvalidLength(s.to_owned(), nb)));
        }
        let n = s.unicode_len();
        let mut i: usize = 0;
        let mut found: Option<usize> = None;
        let mut dup = false;
        while i < n
            invariant
                i <= n,
                n == s@.len(),
                match found {
                    Option::None => !dup && forall|j: int| 0 <= j < i ==> s@[j] != '_',
                    Option::Some(k) => {
                        &&& k < i
                        &&& s@[k as int] == '_'
                        &&& forall|j: int| 0 <= j < k ==> s@[j] != '_'
                        &&& (!dup ==> forall|j: int| k < j < i ==> s@[j] != '_')
                        &&& (dup ==> exists|j2: int| k < j2 < i && s@[j2] == '_')
                    },
                },
            decreases n - i,
        {
            let c = s.get_char(i);
            if c == '_' {
                if found.is_none() {
                    found = Some(i);
                } else {
                    dup = true;
                }
            }
            i += 1;
        }
        let k = match found {
            None => {
                proof {
                    assert(!(exists|kk: int| sep_at(s@, kk)));
                }
                return Err(Error::Decode(DecodeError::MissingPrefix(s.to_owned())));
            },
            Some(k) => k,
        };
        if dup {
            proof {
                let j2 = choose|j2: int| k < j2 < i && s@[j2] == '_';
                assert forall|kk: int| !sep_at(s@, kk) by {
                    if sep_at(s@, kk) {
                        assert(s@[k as int] == '_');
                        assert(s@[j2] == '_');
                    }
                }
                assert(!(exists|kk: int| sep_at(s@, kk)));
            }
            return Err(Error::Decode(DecodeError::MissingPrefix(s.to_owned())));
        }
        proof {
            assert(sep_at(s@, k as int));
            assert(sep_at(s@, sep_pos(s@)));
            assert(sep_pos(s@) == k as int);
        }
        let prefix_part = s.substring_char(0, k);
        let payload_part = s.substring_char(k + 1, n);
        let pn = prefix_part.as_bytes().len();
        let xn = payload_part.as_bytes().len();
        proof {
            broadcast use vstd::slice::axiom_spec_len;

            assert(pn == vstd::utf8::encode_utf8(s@.subrange(0, k as int)).len());
            assert(xn == vstd::utf8::encode_utf8(s@.subrange(k + 1, s@.len() as int)).len());
        }
        if pn > 4 {
            return Err(Error::Decode(DecodeError::InvalidPrefixLength(prefix_part.to_owned(), pn)),
            );
        }
        if xn != 20 {
            return Err(Error::Decode(DecodeError::InvalidXidLength(payload_part.to_owned(), xn)));
        }
        let block = match Pxid::decode_xid(payload_part) {
            Ok(b) => b,
            Err(e) => {
                return Err(e);
            },
        };
        let pb = prefix_part.as_bytes();
        let p0 = if pn > 0 {
            pb[0]
        } else {
            0
        };
        let p1 = if pn > 1 {
            pb[1]
        } else {
            0
        };
        let p2 = if pn > 2 {
            pb[2]
        } else {
            0
        };
        let p3 = if pn > 3 {
            pb[3]
        } else {
            0
        };
        let arr: Bytes = [
            p0,
            p1,
            p2,
            p3,
            block[0],
            block[1],
            block[2],
            block[3],
            block[4],
            block[5],
            block[6],
            block[7],
            block[8],
            block[9],
            block[10],
            block[11],
        ];
        proof {
            assert(parse_accepts(s@));
            assert(arr@ =~= parsed_bytes(s@));
        }
        Ok(Pxid(arr))
    }
}

impl From<Bytes> for Pxid {
    /// Wraps raw bytes as an identifier, unchecked.
    fn from(value: Bytes) -> (r: Self) {
        Pxid(value)
    }
}

impl vstd::std_specs::convert::FromSpecImpl<Bytes> for Pxid {
    open spec fn obeys_from_spec() -> bool {
        true
    }

    open spec fn from_spec(value: Bytes) -> Pxid {
        Pxid(value)
    }
}

impl Default for Pxid {
    /// The all-zero identifier.
    fn default() -> (r: Self)
        ensures
            r@ =~= Seq::new(16, |i: int| 0u8),
    {
        Pxid([0u8; 16])
    }
}

/// Relies on String::from_utf8: succeeds exactly on valid UTF-8 and yields
/// the bytes' decoded characters.
#[verifier::external_body]
fn utf8_string_from_bytes(bytes: &[u8; 4]) -> (r: Option<String>)
    ensures
        r is Some <==> valid_utf8(bytes@),
        r matches Some(t) ==> t@ == decode_utf8(bytes@),
{
    String::from_utf8(bytes.to_vec()).ok()
}

/// Relies on String::from_utf8: ASCII bytes make a string of exactly those
/// characters.
#[verifier::external_body]
fn ascii_string_from_bytes(bytes: &[u8; 20]) -> (r: String)
    requires
        forall|i: int| 0 <= i < 20 ==> bytes@[i] < 128,
    ensures
        r@.len() == 20,
        forall|i: int| 0 <= i < 20 ==> r@[i] == bytes@[i] as char,
{
    String::from_utf8(bytes.to_vec()).unwrap()
}

/// The symbol byte for a five-bit value: digits, then `a-v`.
fn symbol_of(v: u8) -> (r: u8)
    requires
        v < 32,
    ensures
        r == crate::codec::symbol_byte(v),
        r < 128,
        r != 95,
{
    if v < 10 {
        48 + v
    } else {
        87 + v
    }
}

/// The text form of an identifier: its four prefix bytes read as UTF-8,
/// the separator, then the encoded payload block.
pub open spec fn format_chars(bytes: Seq<u8>) -> Seq<char>
    recommends
        bytes.len() == 16,
        valid_utf8(bytes.subrange(0, 4)),
{
    decode_utf8(bytes.subrange(0, 4)) + seq!['_'] + crate::codec::encoded_chars(
        bytes.subrange(4, 16),
    )
}

/// `k` is the position of the only `_` character in `chars`.
pub open spec fn sep_at(chars: Seq<char>, k: int) -> bool {
    &&& 0 <= k < chars.len()
    &&& chars[k] == '_'
    &&& forall|j: int| 0 <= j < chars.len() && j != k ==> chars[j] != '_'
}

/// The position of the only `_` character in `chars`.
pub open spec fn sep_pos(chars: Seq<char>) -> int {
    choose|k: int| sep_at(chars, k)
}

/// Whether a string parses into an identifier: its byte length lies within
/// the valid bounds, exactly one `_` splits it, the prefix segment holds at
/// most four bytes, and the payload segment is twenty symbol characters.
pub open spec fn parse_accepts(chars: Seq<char>) -> bool {
    let nb = vstd::utf8::encode_utf8(chars).len();
    let k = sep_pos(chars);
    &&& 21 <= nb <= 25
    &&& exists|j: int| sep_at(chars, j)
    &&& vstd::utf8::encode_utf8(chars.subrange(0, k)).len() <= 4
    &&& vstd::utf8::encode_utf8(chars.subrange(k + 1, chars.len() as int)).len() == 20
    &&& crate::codec::all_symbols(chars.subrange(k + 1, chars.len() as int))
}

/// The sixteen bytes a parsed string yields: the prefix segment's bytes,
/// zero-padded, followed by the decoded payload block.
pub open spec fn parsed_bytes(chars: Seq<char>) -> Seq<u8>
    recommends
        parse_accepts(chars),
{
    let k = sep_pos(chars);
    pad4(vstd::utf8::encode_utf8(chars.subrange(0, k))) + crate::codec::decoded_block(
        chars.subrange(k + 1, chars.len() as int),
    )
}

} // verus!
