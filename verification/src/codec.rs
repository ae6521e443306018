//! The wire format of a signature record.
//!
//! A record is written as its two fields in order, the signature and then
//! the signer's key. Each field is its length in the compact form below,
//! followed by its bytes.
//!
//! The compact form of a length `n` (below 2^32) is chosen by its size, and
//! the two lowest bits of the first byte tell which was chosen:
//!
//! | `n`                 | bytes                                       |
//! |---------------------|---------------------------------------------|
//! | below 2^6           | one byte, `4n`                              |
//! | below 2^14          | two bytes, `4n + 1`, little endian          |
//! | below 2^30          | four bytes, `4n + 2`, little endian         |
//! | otherwise           | the byte `3`, then `n` in four bytes, little endian |
//!
//! A length is read back only from the shortest form that can hold it, so
//! each record has exactly one encoding.

use vstd::prelude::*;
use vstd::slice::slice_subrange;
use vstd::slice::slice_to_vec;
use crate::record::EdSignature;
use crate::record::EdSignatureView;

verus! {

/// Why a byte buffer is not the encoding of a record.
#[derive(Clone, Copy, Debug, PartialEq, Eq, Structural)]
pub enum DecodeError {
    /// The buffer ends inside a length prefix or before the end of a field.
    Truncated,
    /// A length prefix is not in the shortest form for its value, or claims
    /// more than 32 bits.
    Malformed,
}

/// The largest length that the compact form can hold.
pub const MAX_FIELD_LEN: usize = 0xffff_ffff;

/// The four bytes of `v`, lowest first.
pub open spec fn le_bytes4(v: nat) -> Seq<u8> {
    seq![
        (v % 256) as u8,
        (v / 0x100 % 256) as u8,
        (v / 0x1_0000 % 256) as u8,
        (v / 0x100_0000 % 256) as u8,
    ]
}

/// The number that the two bytes of `b` from `at` on spell, lowest first.
pub open spec fn le_value2(b: Seq<u8>, at: int) -> nat {
    (b[at] + 0x100 * b[at + 1]) as nat
}

/// The number that the four bytes of `b` from `at` on spell, lowest first.
pub open spec fn le_value4(b: Seq<u8>, at: int) -> nat {
    (b[at] + 0x100 * b[at + 1] + 0x1_0000 * b[at + 2] + 0x100_0000 * b[at + 3]) as nat
}

/// The compact form of the length `n`.
pub open spec fn compact_len(n: nat) -> Seq<u8>
    recommends
        n <= MAX_FIELD_LEN,
{
    if n < 0x40 {
        seq![(4 * n) as u8]
    } else if n < 0x4000 {
        seq![((4 * n + 1) % 256) as u8, ((4 * n + 1) / 0x100) as u8]
    } else if n < 0x4000_0000 {
        le_bytes4(4 * n + 2)
    } else {
        seq![3u8] + le_bytes4(n)
    }
}

/// The length that is written in `b` from `at` on, and the place behind it.
pub open spec fn parse_len(b: Seq<u8>, at: int) -> Result<(nat, int), DecodeError> {
    if at >= b.len() {
        Err(DecodeError::Truncated)
    } else if b[at] % 4 == 0 {
        Ok(((b[at] / 4) as nat, at + 1))
    } else if b[at] % 4 == 1 {
        if at + 2 > b.len() {
            Err(DecodeError::Truncated)
        } else if le_value2(b, at) / 4 < 0x40 {
            Err(DecodeError::Malformed)
        } else {
            Ok((le_value2(b, at) / 4, at + 2))
        }
    } else if b[at] % 4 == 2 {
        if at + 4 > b.len() {
            Err(DecodeError::Truncated)
        } else if le_value4(b, at) / 4 < 0x4000 {
            Err(DecodeError::Malformed)
        } else {
            Ok((le_value4(b, at) / 4, at + 4))
        }
    } else {
        if b[at] / 4 != 0 {
            Err(DecodeError::Malformed)
        } else if at + 5 > b.len() {
            Err(DecodeError::Truncated)
        } else if le_value4(b, at + 1) < 0x4000_0000 {
            Err(DecodeError::Malformed)
        } else {
            Ok((le_value4(b, at + 1), at + 5))
        }
    }
}

/// The field that is written in `b` from `at` on, and the place behind it.
pub open spec fn parse_field(b: Seq<u8>, at: int) -> Result<(Seq<u8>, int), DecodeError> {
    match parse_len(b, at) {
        Err(e) => Err(e),
        Ok((n, start)) => if b.len() - start < n {
            Err(DecodeError::Truncated)
        } else {
            Ok((b.subrange(start, start + n), start + n))
        },
    }
}

/// What a field looks like on the wire: its length, then its bytes.
pub open spec fn spec_encode_field(field: Seq<u8>) -> Seq<u8> {
    compact_len(field.len()) + field
}

impl EdSignatureView {
    /// Both fields are short enough for their length to be written.
    pub open spec fn encodable(self) -> bool {
        self.signature_data.len() <= MAX_FIELD_LEN && self.signer.len() <= MAX_FIELD_LEN
    }

    /// The bytes of the record on the wire.
    pub open spec fn spec_encode(self) -> Seq<u8> {
        spec_encode_field(self.signature_data) + spec_encode_field(self.signer)
    }
}

/// The record that `b` starts with. Bytes behind the record are not looked at.
pub open spec fn spec_decode(b: Seq<u8>) -> Result<EdSignatureView, DecodeError> {
    match parse_field(b, 0) {
        Err(e) => Err(e),
        Ok((signature_data, next)) => match parse_field(b, next) {
            Err(e) => Err(e),
            Ok((signer, _)) => Ok(EdSignatureView { signature_data, signer }),
        },
    }
}

/// Reads the length written in `bytes` from `at` on.
fn read_len(bytes: &[u8], at: usize) -> (r: Result<(usize, usize), DecodeError>)
    requires
        at <= bytes@.len(),
    ensures
        match parse_len(bytes@, at as int) {
            Ok((n, next)) => r == Ok::<(usize, usize), DecodeError>((n as usize, next as usize))
                && n <= MAX_FIELD_LEN && at < next <= bytes@.len(),
            Err(e) => r == Err::<(usize, usize), DecodeError>(e),
        },
{
    let len: usize = bytes.len();
    if at >= len {
        return Err(DecodeError::Truncated);
    }
    let first: u8 = bytes[at];
    let mode: u8 = first % 4;
    if mode == 0 {
        Ok(((first / 4) as usize, at + 1))
    } else if mode == 1 {
        if len - at < 2 {
            return Err(DecodeError::Truncated);
        }
        let v: u64 = (first as u64 + 0x100 * (bytes[at + 1] as u64)) / 4;
        if v < 0x40 {
            Err(DecodeError::Malformed)
        } else {
            Ok((v as usize, at + 2))
        }
    } else if mode == 2 {
        if len - at < 4 {
            return Err(DecodeError::Truncated);
        }
        let v: u64 = (first as u64 + 0x100 * (bytes[at + 1] as u64) + 0x1_0000 * (bytes[at
            + 2] as u64) + 0x100_0000 * (bytes[at + 3] as u64)) / 4;
        if v < 0x4000 {
            Err(DecodeError::Malformed)
        } else {
            Ok((v as usize, at + 4))
        }
    } else {
        if first / 4 != 0 {
            return Err(DecodeError::Malformed);
        }
        if len - at < 5 {
            return Err(DecodeError::Truncated);
        }
        let v: u64 = bytes[at + 1] as u64 + 0x100 * (bytes[at + 2] as u64) + 0x1_0000 * (bytes[at
            + 3] as u64) + 0x100_0000 * (bytes[at + 4] as u64);
        if v < 0x4000_0000 {
            Err(DecodeError::Malformed)
        } else {
            Ok((v as usize, at + 5))
        }
    }
}

/// Reads the field written in `bytes` from `at` on.
fn read_field(bytes: &[u8], at: usize) -> (r: Result<(Vec<u8>, usize), DecodeError>)
    requires
        at <= bytes@.len(),
    ensures
        match parse_field(bytes@, at as int) {
            Ok((field, next)) => r is Ok && r->Ok_0.0@ == field && r->Ok_0.1 == next && at < next
                <= bytes@.len(),
            Err(e) => r == Err::<(Vec<u8>, usize), DecodeError>(e),
        },
{
    match read_len(bytes, at) {
        Err(e) => Err(e),
        Ok((n, start)) => {
            if bytes.len() - start < n {
                Err(DecodeError::Truncated)
            } else {
                let field: Vec<u8> = slice_to_vec(slice_subrange(bytes, start, start + n));
                Ok((field, start + n))
            }
        },
    }
}

/// Appends the compact form of `n` to `out`.
fn write_len(out: &mut Vec<u8>, n: usize)
    requires
        n <= MAX_FIELD_LEN,
    ensures
        final(out)@ == old(out)@ + compact_len(n as nat),
{
    let v: u64 = n as u64;
    if v < 0x40 {
        out.push((4 * v) as u8);
    } else if v < 0x4000 {
        let w: u64 = 4 * v + 1;
        out.push((w % 256) as u8);
        out.push((w / 0x100) as u8);
    } else if v < 0x4000_0000 {
        let w: u64 = 4 * v + 2;
        out.push((w % 256) as u8);
        out.push((w / 0x100 % 256) as u8);
        out.push((w / 0x1_0000 % 256) as u8);
        out.push((w / 0x100_0000 % 256) as u8);
    } else {
        out.push(3u8);
        out.push((v % 256) as u8);
        out.push((v / 0x100 % 256) as u8);
        out.push((v / 0x1_0000 % 256) as u8);
        out.push((v / 0x100_0000 % 256) as u8);
    }
    assert(out@ =~= old(out)@ + compact_len(n as nat));
}

/// Appends a field to `out`: its length, then its bytes.
fn write_field(out: &mut Vec<u8>, field: &[u8])
    requires
        field@.len() <= MAX_FIELD_LEN,
    ensures
        final(out)@ == old(out)@ + spec_encode_field(field@),
{
    write_len(out, field.len());
    out.extend_from_slice(field);
    assert(out@ =~= old(out)@ + spec_encode_field(field@));
}

impl EdSignature {
    /// The bytes of the record on the wire.
    ///
    /// The compact form holds lengths below 2^32 only, so longer fields
    /// cannot be written.
    pub fn encode(&self) -> (out: Vec<u8>)
        requires
            self@.encodable(),
        ensures
            out@ == self@.spec_encode(),
    {
        let mut out: Vec<u8> = Vec::new();
        write_field(&mut out, self.signature_data.as_slice());
        write_field(&mut out, self.signer.as_slice());
        assert(out@ =~= self@.spec_encode());
        out
    }

    /// The bytes of the record on the wire, or `None` where a field is too
    /// long for its length to be written.
    pub fn try_encode(&self) -> (r: Option<Vec<u8>>)
        ensures
            r is Some <==> self@.encodable(),
            r is Some ==> r->Some_0@ == self@.spec_encode(),
    {
        if self.signature_data.len() <= MAX_FIELD_LEN && self.signer.len() <= MAX_FIELD_LEN {
            Some(self.encode())
        } else {
            None
        }
    }

    /// Reads the record that `bytes` starts with.
    ///
    /// Fields of any length are taken. What follows the record in `bytes` is
    /// not looked at.
    pub fn decode(bytes: &[u8]) -> (r: Result<EdSignature, DecodeError>)
        ensures
            match spec_decode(bytes@) {
                Ok(record) => r is Ok && r->Ok_0@ == record,
                Err(e) => r == Err::<EdSignature, DecodeError>(e),
            },
    {
        match read_field(bytes, 0) {
            Err(e) => Err(e),
            Ok((signature_data, next)) => match read_field(bytes, next) {
                Err(e) => Err(e),
                Ok((signer, _)) => Ok(EdSignature { signature_data, signer }),
            },
        }
    }
}

/// Four bytes, read lowest first, spell the number they were cut from.
proof fn lemma_split4(v: int)
    requires
        0 <= v < 0x1_0000_0000,
    ensures
        v % 256 + 0x100 * (v / 0x100 % 256) + 0x1_0000 * (v / 0x1_0000 % 256) + 0x100_0000 * (v
            / 0x100_0000 % 256) == v,
        (v % 256) % 4 == v % 4,
{
    let q1: int = v / 0x100;
    let q2: int = q1 / 0x100;
    let q3: int = q2 / 0x100;
    assert(v / 0x1_0000 == q2);
    assert(v / 0x100_0000 == q3);
    assert(q3 < 256);
}

/// The number that four bytes spell, lowest first, is cut into those bytes.
proof fn lemma_join4(b0: int, b1: int, b2: int, b3: int)
    requires
        0 <= b0 < 256,
        0 <= b1 < 256,
        0 <= b2 < 256,
        0 <= b3 < 256,
    ensures
        ({
            let v: int = b0 + 0x100 * b1 + 0x1_0000 * b2 + 0x100_0000 * b3;
            &&& 0 <= v < 0x1_0000_0000
            &&& v % 256 == b0
            &&& v / 0x100 % 256 == b1
            &&& v / 0x1_0000 % 256 == b2
            &&& v / 0x100_0000 % 256 == b3
            &&& v % 4 == b0 % 4
        }),
{
    let v: int = b0 + 0x100 * b1 + 0x1_0000 * b2 + 0x100_0000 * b3;
    let q1: int = b1 + 0x100 * b2 + 0x1_0000 * b3;
    let q2: int = b2 + 0x100 * b3;
    assert(v == 0x100 * q1 + b0);
    assert(v / 0x100 == q1);
    assert(q1 == 0x100 * q2 + b1);
    assert(q1 / 0x100 == q2);
    assert(v / 0x1_0000 == q2);
    assert(q2 / 0x100 == b3);
    assert(v / 0x100_0000 == b3);
}

/// A length that was written is read back, and reading stops right behind it.
pub proof fn lemma_parse_len_of_compact(b: Seq<u8>, at: int, n: nat)
    requires
        n <= MAX_FIELD_LEN,
        0 <= at,
        at + compact_len(n).len() <= b.len(),
        b.subrange(at, at + compact_len(n).len()) == compact_len(n),
    ensures
        parse_len(b, at) == Ok::<(nat, int), DecodeError>((n, at + compact_len(n).len())),
{
    let c: Seq<u8> = compact_len(n);
    let part: Seq<u8> = b.subrange(at, at + c.len());
    assert forall|i: int| 0 <= i < c.len() implies b[at + i] == c[i] by {
        assert(part[i] == b[at + i]);
    }
    assert(b[at] == c[0]);
    if n < 0x40 {
    } else if n < 0x4000 {
        assert(b[at + 1] == c[1]);
        let w: int = (4 * n + 1) as int;
        assert(b[at] == w % 256);
        assert(b[at + 1] == w / 0x100);
        assert(le_value2(b, at) == w);
    } else if n < 0x4000_0000 {
        assert(b[at + 1] == c[1]);
        assert(b[at + 2] == c[2]);
        assert(b[at + 3] == c[3]);
        lemma_split4((4 * n + 2) as int);
        assert(le_value4(b, at) == 4 * n + 2);
    } else {
        assert(b[at + 1] == c[1]);
        assert(b[at + 2] == c[2]);
        assert(b[at + 3] == c[3]);
        assert(b[at + 4] == c[4]);
        lemma_split4(n as int);
        assert(le_value4(b, at + 1) == n);
    }
}

/// A length that is read was written in the compact form, and in no other.
pub proof fn lemma_compact_of_parse_len(b: Seq<u8>, at: int)
    requires
        0 <= at,
        parse_len(b, at) is Ok,
    ensures
        parse_len(b, at)->Ok_0.0 <= MAX_FIELD_LEN,
        at < parse_len(b, at)->Ok_0.1 <= b.len(),
        b.subrange(at, parse_len(b, at)->Ok_0.1) == compact_len(parse_len(b, at)->Ok_0.0),
{
    let n: nat = parse_len(b, at)->Ok_0.0;
    let next: int = parse_len(b, at)->Ok_0.1;
    let c: Seq<u8> = compact_len(n);
    let part: Seq<u8> = b.subrange(at, next);
    let b0: int = b[at] as int;
    if b0 % 4 == 0 {
        assert(4 * n == b0);
        assert(part =~= c);
    } else if b0 % 4 == 1 {
        let v: int = le_value2(b, at) as int;
        assert(v == 4 * n + 1);
        assert(part =~= c);
    } else if b0 % 4 == 2 {
        let v: int = le_value4(b, at) as int;
        lemma_join4(b0, b[at + 1] as int, b[at + 2] as int, b[at + 3] as int);
        assert(v == 4 * n + 2);
        assert(part =~= c);
    } else {
        lemma_join4(b[at + 1] as int, b[at + 2] as int, b[at + 3] as int, b[at + 4] as int);
        assert(b0 == 3);
        assert(part =~= c);
    }
}

/// A field that was written between any two runs of bytes is read back from
/// where it starts, and reading stops where it ends.
pub proof fn lemma_parse_field_of_encoding(head: Seq<u8>, field: Seq<u8>, tail: Seq<u8>)
    requires
        field.len() <= MAX_FIELD_LEN,
    ensures
        parse_field(head + spec_encode_field(field) + tail, head.len() as int) == Ok::<
            (Seq<u8>, int),
            DecodeError,
        >((field, (head.len() + spec_encode_field(field).len()) as int)),
{
    let c: Seq<u8> = compact_len(field.len());
    let b: Seq<u8> = head + spec_encode_field(field) + tail;
    let at: int = head.len() as int;
    assert(b.subrange(at, at + c.len()) =~= c);
    lemma_parse_len_of_compact(b, at, field.len());
    assert(b.subrange(at + c.len(), at + c.len() + field.len()) =~= field);
}

/// A field that is read stands in the buffer in its one written form.
pub proof fn lemma_encoding_of_parse_field(b: Seq<u8>, at: int)
    requires
        0 <= at,
        parse_field(b, at) is Ok,
    ensures
        parse_field(b, at)->Ok_0.0.len() <= MAX_FIELD_LEN,
        at < parse_field(b, at)->Ok_0.1 <= b.len(),
        b.subrange(at, parse_field(b, at)->Ok_0.1) == spec_encode_field(
            parse_field(b, at)->Ok_0.0,
        ),
{
    lemma_compact_of_parse_len(b, at);
    let start: int = parse_len(b, at)->Ok_0.1;
    let next: int = parse_field(b, at)->Ok_0.1;
    assert(b.subrange(at, next) =~= b.subrange(at, start) + b.subrange(start, next));
}

/// Decoding undoes encoding: the bytes of a record, with anything behind
/// them, decode to that record.
pub proof fn lemma_decode_encode_with_tail(r: EdSignatureView, tail: Seq<u8>)
    requires
        r.encodable(),
    ensures
        spec_decode(r.spec_encode() + tail) == Ok::<EdSignatureView, DecodeError>(r),
{
    let first: Seq<u8> = spec_encode_field(r.signature_data);
    let second: Seq<u8> = spec_encode_field(r.signer);
    let b: Seq<u8> = r.spec_encode() + tail;
    let empty: Seq<u8> = Seq::empty();
    assert(b =~= empty + first + (second + tail));
    lemma_parse_field_of_encoding(empty, r.signature_data, second + tail);
    assert(b =~= first + second + tail);
    lemma_parse_field_of_encoding(first, r.signer, tail);
}

/// Round trip: the bytes of a record decode to that record.
pub proof fn lemma_decode_encode(r: EdSignatureView)
    requires
        r.encodable(),
    ensures
        spec_decode(r.spec_encode()) == Ok::<EdSignatureView, DecodeError>(r),
{
    let empty: Seq<u8> = Seq::empty();
    assert(r.spec_encode() + empty =~= r.spec_encode());
    lemma_decode_encode_with_tail(r, empty);
}

/// Encoding undoes decoding: a buffer that decodes to a record starts with
/// the bytes of that record.
pub proof fn lemma_encode_decode(b: Seq<u8>)
    requires
        spec_decode(b) is Ok,
    ensures
        spec_decode(b)->Ok_0.encodable(),
        spec_decode(b)->Ok_0.spec_encode().len() <= b.len(),
        b.subrange(0, spec_decode(b)->Ok_0.spec_encode().len() as int) == spec_decode(
            b,
        )->Ok_0.spec_encode(),
{
    lemma_encoding_of_parse_field(b, 0);
    let mid: int = parse_field(b, 0)->Ok_0.1;
    lemma_encoding_of_parse_field(b, mid);
    let end: int = parse_field(b, mid)->Ok_0.1;
    assert(b.subrange(0, end) =~= b.subrange(0, mid) + b.subrange(mid, end));
}

/// No two records share an encoding.
pub proof fn lemma_encode_injective(r1: EdSignatureView, r2: EdSignatureView)
    requires
        r1.encodable(),
        r2.encodable(),
        r1.spec_encode() == r2.spec_encode(),
    ensures
        r1 == r2,
{
    lemma_decode_encode(r1);
    lemma_decode_encode(r2);
}

} // verus!
