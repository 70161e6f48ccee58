//! Binary codec for bytecode modules.
//!
//! Wire layout, big-endian throughout:
//!
//! ```text
//! magic:        4 bytes, literal "ARTB"
//! version:      1 byte, value 1
//! const_count:  u32
//! constants:    const_count value records
//! instr_count:  u32
//! instructions: instr_count raw bytes
//! ```
//!
//! A value record is a one-byte tag followed by a tag-specific
//! payload: null has tag 0 and no payload; a string has tag 1, a u32
//! byte length, then UTF-8 bytes; an integer has tag 2 and 8 bytes of
//! big-endian two's-complement; a boolean has tag 3 and one byte.

use vstd::prelude::*;
use vstd::string::StringExecFns;
use vstd::utf8::{decode_utf8, encode_utf8, valid_utf8};

use crate::bytecode::{BytecodeModule, ModuleView, Value, ValueView};

verus! {

/// Errors reported by [`deserialize`].
#[derive(Debug, Clone, Copy, PartialEq, Eq, Structural)]
pub enum CodecError {
    /// The buffer does not start with the magic bytes.
    InvalidFormat,
    /// The version byte is not a recognised version.
    UnsupportedVersion,
    /// A read ran past the end of the available bytes.
    Truncated,
    /// A value tag byte is unrecognised, or a string payload is not
    /// valid UTF-8.
    InvalidEncoding,
}

/// The text of each decode failure.
pub open spec fn spec_codec_error_message(e: CodecError) -> Seq<char> {
    match e {
        CodecError::InvalidFormat => "invalid bytecode file: bad magic bytes"@,
        CodecError::UnsupportedVersion => "unsupported bytecode version"@,
        CodecError::Truncated => "truncated bytecode file"@,
        CodecError::InvalidEncoding => "malformed bytecode file"@,
    }
}

impl CodecError {
    /// A short description of the decode failure.
    pub fn message(&self) -> (r: String)
        ensures
            r@ == spec_codec_error_message(*self),
    {
        match self {
            CodecError::InvalidFormat => String::from_str(
                "invalid bytecode file: bad magic bytes",
            ),
            CodecError::UnsupportedVersion => String::from_str("unsupported bytecode version"),
            CodecError::Truncated => String::from_str("truncated bytecode file"),
            CodecError::InvalidEncoding => String::from_str("malformed bytecode file"),
        }
    }
}

/// The magic bytes `"ARTB"`.
pub open spec fn spec_magic() -> Seq<u8> {
    seq![0x41u8, 0x52u8, 0x54u8, 0x42u8]
}

/// The big-endian encoding of a u32.
pub open spec fn spec_u32_be(x: u32) -> Seq<u8> {
    seq![
        (x / 0x1000000 % 256) as u8,
        (x / 0x10000 % 256) as u8,
        (x / 0x100 % 256) as u8,
        (x % 256) as u8,
    ]
}

/// The u32 denoted by four big-endian bytes.
pub open spec fn spec_u32_from_be(b: Seq<u8>) -> int
    recommends
        b.len() == 4,
{
    b[0] * 0x1000000 + b[1] * 0x10000 + b[2] * 0x100 + b[3]
}

/// The big-endian encoding of a u64: the high u32 half, then the low.
pub open spec fn spec_u64_be(x: u64) -> Seq<u8> {
    spec_u32_be((x / 0x100000000) as u32) + spec_u32_be((x % 0x100000000) as u32)
}

/// The u64 denoted by eight big-endian bytes.
pub open spec fn spec_u64_from_be(b: Seq<u8>) -> int
    recommends
        b.len() == 8,
{
    spec_u32_from_be(b.subrange(0, 4)) * 0x100000000 + spec_u32_from_be(b.subrange(4, 8))
}

/// The two's-complement u64 image of an i64.
pub open spec fn u64_of_i64(x: i64) -> u64 {
    if x >= 0 {
        x as u64
    } else {
        (x + 0x10000000000000000) as u64
    }
}

/// The i64 denoted by a two's-complement u64 image.
pub open spec fn i64_of_u64(u: u64) -> i64 {
    if u < 0x8000000000000000 {
        u as i64
    } else {
        (u - 0x10000000000000000) as i64
    }
}

/// The two's-complement image is a bijection between i64 and u64.
pub proof fn lemma_i64_u64_round_trip(x: i64, u: u64)
    ensures
        i64_of_u64(u64_of_i64(x)) == x,
        u64_of_i64(i64_of_u64(u)) == u,
{
}

/// Reading four big-endian bytes gives back the encoded u32, and
/// re-encoding four bytes gives the bytes back.
pub proof fn lemma_u32_be_round_trip(x: u32, b: Seq<u8>)
    requires
        b.len() == 4,
    ensures
        spec_u32_from_be(spec_u32_be(x)) == x,
        0 <= spec_u32_from_be(b) < 0x100000000,
        spec_u32_be(spec_u32_from_be(b) as u32) =~= b,
{
    assert(spec_u32_from_be(spec_u32_be(x)) == x) by {
        assert((x / 0x1000000 % 256) * 0x1000000 + (x / 0x10000 % 256) * 0x10000 + (x / 0x100
            % 256) * 0x100 + x % 256 == x) by (nonlinear_arith);
    }
    let v = spec_u32_from_be(b);
    assert(0 <= v < 0x100000000) by (nonlinear_arith)
        requires
            v == b[0] * 0x1000000 + b[1] * 0x10000 + b[2] * 0x100 + b[3],
            b[0] < 256 && b[1] < 256 && b[2] < 256 && b[3] < 256,
            b[0] >= 0 && b[1] >= 0 && b[2] >= 0 && b[3] >= 0,
    ;
    let y = v as u32;
    assert(y / 0x1000000 % 256 == b[0] && y / 0x10000 % 256 == b[1] && y / 0x100 % 256 == b[2] && y
        % 256 == b[3]) by (nonlinear_arith)
        requires
            y == b[0] * 0x1000000 + b[1] * 0x10000 + b[2] * 0x100 + b[3],
            b[0] < 256 && b[1] < 256 && b[2] < 256 && b[3] < 256,
            b[0] >= 0 && b[1] >= 0 && b[2] >= 0 && b[3] >= 0,
    ;
}

/// Reading eight big-endian bytes gives back the encoded u64, and
/// re-encoding eight bytes gives the bytes back.
pub proof fn lemma_u64_be_round_trip(x: u64, b: Seq<u8>)
    requires
        b.len() == 8,
    ensures
        spec_u64_from_be(spec_u64_be(x)) == x,
        0 <= spec_u64_from_be(b) < 0x10000000000000000,
        spec_u64_be(spec_u64_from_be(b) as u64) =~= b,
{
    let hi = (x / 0x100000000) as u32;
    let lo = (x % 0x100000000) as u32;
    lemma_u32_be_round_trip(hi, spec_u32_be(hi));
    lemma_u32_be_round_trip(lo, spec_u32_be(lo));
    assert(spec_u64_be(x).subrange(0, 4) =~= spec_u32_be(hi));
    assert(spec_u64_be(x).subrange(4, 8) =~= spec_u32_be(lo));
    assert(spec_u64_from_be(spec_u64_be(x)) == hi * 0x100000000 + lo);
    assert(hi * 0x100000000 + lo == x) by (nonlinear_arith)
        requires
            hi == x / 0x100000000,
            lo == x % 0x100000000,
    ;

    let bh = spec_u32_from_be(b.subrange(0, 4));
    let bl = spec_u32_from_be(b.subrange(4, 8));
    lemma_u32_be_round_trip(0, b.subrange(0, 4));
    lemma_u32_be_round_trip(0, b.subrange(4, 8));
    let v = spec_u64_from_be(b);
    assert(0 <= v < 0x10000000000000000) by (nonlinear_arith)
        requires
            v == bh * 0x100000000 + bl,
            0 <= bh < 0x100000000,
            0 <= bl < 0x100000000,
    ;
    let y = v as u64;
    assert(y / 0x100000000 == bh && y % 0x100000000 == bl) by (nonlinear_arith)
        requires
            y == bh * 0x100000000 + bl,
            0 <= bh < 0x100000000,
            0 <= bl < 0x100000000,
    ;
    assert(spec_u64_be(y).subrange(0, 4) =~= spec_u32_be((y / 0x100000000) as u32));
    assert(spec_u64_be(y).subrange(4, 8) =~= spec_u32_be((y % 0x100000000) as u32));
    assert(spec_u32_be(bh as u32) =~= b.subrange(0, 4));
    assert(spec_u32_be(bl as u32) =~= b.subrange(4, 8));
    assert(spec_u64_be(y) =~= b);
}

/// A value whose record fits the wire format: a string payload must
/// fit its u32 length field.
pub open spec fn wf_value(v: ValueView) -> bool {
    match v {
        ValueView::Str(s) => encode_utf8(s).len() < 0x100000000,
        _ => true,
    }
}

/// A module whose counts fit their u32 fields and whose constants all
/// fit their records.
pub open spec fn wf_module(m: ModuleView) -> bool {
    &&& m.constants.len() < 0x100000000
    &&& m.instructions.len() < 0x100000000
    &&& forall|i: int| 0 <= i < m.constants.len() ==> wf_value(#[trigger] m.constants[i])
}

/// The wire record of a single value.
pub open spec fn spec_serialize_value(v: ValueView) -> Seq<u8> {
    match v {
        ValueView::Null => seq![0u8],
        ValueView::Str(s) => seq![1u8] + spec_u32_be(encode_utf8(s).len() as u32) + encode_utf8(s),
        ValueView::Int(n) => seq![2u8] + spec_u64_be(u64_of_i64(n)),
        ValueView::Bool(b) => seq![3u8, if b { 1u8 } else { 0u8 }],
    }
}

/// The concatenated wire records of a constant pool, in order.
pub open spec fn spec_serialize_constants(cs: Seq<ValueView>) -> Seq<u8>
    decreases cs.len(),
{
    if cs.len() == 0 {
        Seq::empty()
    } else {
        spec_serialize_value(cs[0]) + spec_serialize_constants(cs.drop_first())
    }
}

/// The full wire image of a module.
pub open spec fn spec_serialize(m: ModuleView) -> Seq<u8> {
    spec_magic() + seq![1u8] + spec_u32_be(m.constants.len() as u32) + spec_serialize_constants(
        m.constants,
    ) + spec_u32_be(m.instructions.len() as u32) + m.instructions
}

/// The value record starting at `pos`, or the first error met reading
/// it. On success the new read position is returned with the value.
pub open spec fn spec_read_value(bytes: Seq<u8>, pos: int) -> Result<(ValueView, int), CodecError> {
    if pos + 1 > bytes.len() {
        Err(CodecError::Truncated)
    } else {
        let tag = bytes[pos];
        if tag == 0 {
            Ok((ValueView::Null, pos + 1))
        } else if tag == 1 {
            if pos + 5 > bytes.len() {
                Err(CodecError::Truncated)
            } else {
                let len = spec_u32_from_be(bytes.subrange(pos + 1, pos + 5));
                if pos + 5 + len > bytes.len() {
                    Err(CodecError::Truncated)
                } else {
                    let payload = bytes.subrange(pos + 5, pos + 5 + len);
                    if valid_utf8(payload) {
                        Ok((ValueView::Str(decode_utf8(payload)), pos + 5 + len))
                    } else {
                        Err(CodecError::InvalidEncoding)
                    }
                }
            }
        } else if tag == 2 {
            if pos + 9 > bytes.len() {
                Err(CodecError::Truncated)
            } else {
                let u = spec_u64_from_be(bytes.subrange(pos + 1, pos + 9));
                Ok((ValueView::Int(i64_of_u64(u as u64)), pos + 9))
            }
        } else if tag == 3 {
            if pos + 2 > bytes.len() {
                Err(CodecError::Truncated)
            } else {
                Ok((ValueView::Bool(bytes[pos + 1] != 0), pos + 2))
            }
        } else {
            Err(CodecError::InvalidEncoding)
        }
    }
}

/// `count` consecutive value records starting at `pos`, or the first
/// error met reading them.
pub open spec fn spec_read_constants(bytes: Seq<u8>, pos: int, count: int) -> Result<
    (Seq<ValueView>, int),
    CodecError,
>
    decreases count,
{
    if count <= 0 {
        Ok((Seq::empty(), pos))
    } else {
        match spec_read_value(bytes, pos) {
            Err(e) => Err(e),
            Ok((v, pos2)) => match spec_read_constants(bytes, pos2, count - 1) {
                Err(e) => Err(e),
                Ok((vs, pos3)) => Ok((seq![v] + vs, pos3)),
            },
        }
    }
}

/// The module denoted by a byte buffer, or the first error met
/// decoding it. Decoding never looks past the declared lengths, so
/// trailing bytes are ignored.
pub open spec fn spec_deserialize(bytes: Seq<u8>) -> Result<ModuleView, CodecError> {
    if bytes.len() < 4 {
        Err(CodecError::Truncated)
    } else if bytes.subrange(0, 4) != spec_magic() {
        Err(CodecError::InvalidFormat)
    } else if bytes.len() < 5 {
        Err(CodecError::Truncated)
    } else if bytes[4] != 1 {
        Err(CodecError::UnsupportedVersion)
    } else if bytes.len() < 9 {
        Err(CodecError::Truncated)
    } else {
        let const_count = spec_u32_from_be(bytes.subrange(5, 9));
        match spec_read_constants(bytes, 9, const_count) {
            Err(e) => Err(e),
            Ok((constants, pos)) => {
                if pos + 4 > bytes.len() {
                    Err(CodecError::Truncated)
                } else {
                    let instr_count = spec_u32_from_be(bytes.subrange(pos, pos + 4));
                    if pos + 4 + instr_count > bytes.len() {
                        Err(CodecError::Truncated)
                    } else {
                        Ok(
                            ModuleView {
                                constants,
                                instructions: bytes.subrange(pos + 4, pos + 4 + instr_count),
                            },
                        )
                    }
                }
            },
        }
    }
}

/// Appending one record to a pool appends its bytes to the pool's
/// wire image.
pub proof fn lemma_serialize_constants_push(cs: Seq<ValueView>, v: ValueView)
    ensures
        spec_serialize_constants(cs.push(v)) == spec_serialize_constants(cs)
            + spec_serialize_value(v),
    decreases cs.len(),
{
    let t = spec_serialize_value(v);
    if cs.len() == 0 {
        assert(cs.push(v).len() == 1);
        assert(cs.push(v)[0] == v);
        assert(cs.push(v).drop_first() =~= Seq::<ValueView>::empty());
        assert(spec_serialize_constants(cs.push(v)) == t + spec_serialize_constants(
            cs.push(v).drop_first(),
        ));
        assert(spec_serialize_constants(Seq::<ValueView>::empty()) == Seq::<u8>::empty());
        assert(spec_serialize_constants(cs) == Seq::<u8>::empty());
        assert(t + Seq::<u8>::empty() =~= Seq::<u8>::empty() + t);
    } else {
        let a = spec_serialize_value(cs[0]);
        let m = spec_serialize_constants(cs.drop_first());
        assert(cs.push(v).len() == cs.len() + 1);
        assert(cs.push(v)[0] == cs[0]);
        assert(cs.push(v).drop_first() =~= cs.drop_first().push(v));
        assert(spec_serialize_constants(cs.push(v)) == a + spec_serialize_constants(
            cs.push(v).drop_first(),
        ));
        lemma_serialize_constants_push(cs.drop_first(), v);
        assert(spec_serialize_constants(cs.push(v).drop_first()) == m + t);
        assert(spec_serialize_constants(cs) == a + m);
        assert(a + (m + t) =~= (a + m) + t);
    }
}

/// One byte of a region known to hold `record`.
proof fn lemma_byte_at(bytes: Seq<u8>, pos: int, record: Seq<u8>, i: int)
    requires
        0 <= pos,
        0 <= i < record.len(),
        pos + record.len() <= bytes.len(),
        bytes.subrange(pos, pos + record.len()) == record,
    ensures
        bytes[pos + i] == record[i],
{
    assert(record[i] == bytes.subrange(pos, pos + record.len())[i]);
}

/// A sub-slice of a region known to hold `record`.
proof fn lemma_slice_eq(bytes: Seq<u8>, pos: int, record: Seq<u8>, a: int, b: int)
    requires
        0 <= pos,
        0 <= a <= b <= record.len(),
        pos + record.len() <= bytes.len(),
        bytes.subrange(pos, pos + record.len()) == record,
    ensures
        bytes.subrange(pos + a, pos + b) == record.subrange(a, b),
{
    assert forall|j: int| 0 <= j < b - a implies bytes.subrange(pos + a, pos + b)[j]
        == record.subrange(a, b)[j] by {
        assert(record[a + j] == bytes.subrange(pos, pos + record.len())[a + j]);
        assert(bytes.subrange(pos + a, pos + b)[j] == bytes[pos + a + j]);
        assert(record.subrange(a, b)[j] == record[a + j]);
    }
    assert(bytes.subrange(pos + a, pos + b) =~= record.subrange(a, b));
}

/// A value record read back from anywhere inside a larger buffer
/// yields the value it encodes, and consumes exactly its own bytes.
proof fn lemma_read_value_of_serialized(bytes: Seq<u8>, pos: int, v: ValueView)
    requires
        wf_value(v),
        0 <= pos,
        pos + spec_serialize_value(v).len() <= bytes.len(),
        bytes.subrange(pos, pos + spec_serialize_value(v).len()) == spec_serialize_value(v),
    ensures
        spec_read_value(bytes, pos) == Ok::<(ValueView, int), CodecError>(
            (v, pos + spec_serialize_value(v).len()),
        ),
{
    let record = spec_serialize_value(v);
    lemma_byte_at(bytes, pos, record, 0);
    match v {
        ValueView::Null => {
            assert(record[0] == 0);
            assert(bytes[pos] == 0);
        },
        ValueView::Str(s) => {
            let payload = encode_utf8(s);
            let len = payload.len() as int;
            assert(record.len() == 5 + len);
            assert(record[0] == 1);
            assert(bytes[pos] == 1);
            lemma_slice_eq(bytes, pos, record, 1, 5);
            assert(record.subrange(1, 5) =~= spec_u32_be(len as u32));
            lemma_u32_be_round_trip(len as u32, spec_u32_be(len as u32));
            assert(spec_u32_from_be(bytes.subrange(pos + 1, pos + 5)) == len);
            lemma_slice_eq(bytes, pos, record, 5, 5 + len);
            assert(record.subrange(5, 5 + len) =~= payload);
            assert(bytes.subrange(pos + 5, pos + 5 + len) == payload);
            vstd::utf8::encode_utf8_valid_utf8(s);
            vstd::utf8::encode_utf8_decode_utf8(s);
        },
        ValueView::Int(n) => {
            let u = u64_of_i64(n);
            assert(record.len() == 9);
            assert(record[0] == 2);
            assert(bytes[pos] == 2);
            lemma_slice_eq(bytes, pos, record, 1, 9);
            assert(record.subrange(1, 9) =~= spec_u64_be(u));
            lemma_u64_be_round_trip(u, spec_u64_be(u));
            assert(spec_u64_from_be(bytes.subrange(pos + 1, pos + 9)) == u);
            lemma_i64_u64_round_trip(n, u);
        },
        ValueView::Bool(b) => {
            assert(record.len() == 2);
            assert(record[0] == 3);
            assert(bytes[pos] == 3);
            lemma_byte_at(bytes, pos, record, 1);
            assert(record[1] == (if b {
                1u8
            } else {
                0u8
            }));
            assert(bytes[pos + 1] == (if b {
                1u8
            } else {
                0u8
            }));
        },
    }
}

/// A run of value records read back from inside a larger buffer
/// yields the pool it encodes, and consumes exactly its own bytes.
proof fn lemma_read_constants_of_serialized(bytes: Seq<u8>, pos: int, cs: Seq<ValueView>)
    requires
        forall|i: int| 0 <= i < cs.len() ==> wf_value(#[trigger] cs[i]),
        0 <= pos,
        pos + spec_serialize_constants(cs).len() <= bytes.len(),
        bytes.subrange(pos, pos + spec_serialize_constants(cs).len()) == spec_serialize_constants(
            cs,
        ),
    ensures
        spec_read_constants(bytes, pos, cs.len() as int) == Ok::<(Seq<ValueView>, int), CodecError>(
            (cs, pos + spec_serialize_constants(cs).len()),
        ),
    decreases cs.len(),
{
    if cs.len() == 0 {
        assert(spec_read_constants(bytes, pos, 0) == Ok::<(Seq<ValueView>, int), CodecError>(
            (Seq::<ValueView>::empty(), pos),
        ));
        assert(cs =~= Seq::<ValueView>::empty());
    } else {
        let record = spec_serialize_value(cs[0]);
        let rest_bytes = spec_serialize_constants(cs.drop_first());
        let all = spec_serialize_constants(cs);
        assert(all == record + rest_bytes);
        lemma_slice_eq(bytes, pos, all, 0, record.len() as int);
        assert(all.subrange(0, record.len() as int) =~= record);
        assert(bytes.subrange(pos, pos + record.len()) == record);
        lemma_read_value_of_serialized(bytes, pos, cs[0]);
        let pos2 = pos + record.len();
        lemma_slice_eq(bytes, pos, all, record.len() as int, all.len() as int);
        assert(all.subrange(record.len() as int, all.len() as int) =~= rest_bytes);
        assert(bytes.subrange(pos2, pos2 + rest_bytes.len()) == rest_bytes);
        assert(forall|i: int| 0 <= i < cs.drop_first().len() ==> wf_value(
            #[trigger] cs.drop_first()[i],
        ));
        lemma_read_constants_of_serialized(bytes, pos2, cs.drop_first());
        assert(seq![cs[0]] + cs.drop_first() =~= cs);
    }
}

/// Round trip: deserialising the wire image of any well-formed module
/// gives back exactly that module, with its constants in order and
/// its instruction bytes unchanged.
pub proof fn lemma_serialize_deserialize(m: ModuleView)
    requires
        wf_module(m),
    ensures
        spec_deserialize(spec_serialize(m)) == Ok::<ModuleView, CodecError>(m),
{
    let cc = m.constants.len() as int;
    let ic = m.instructions.len() as int;
    let pool_bytes = spec_serialize_constants(m.constants);
    let bytes = spec_serialize(m);
    let header = spec_magic() + seq![1u8] + spec_u32_be(cc as u32);
    assert(bytes == header + pool_bytes + spec_u32_be(ic as u32) + m.instructions);
    assert(bytes.len() == 9 + pool_bytes.len() + 4 + ic);
    assert(bytes.subrange(0, 4) =~= spec_magic());
    assert(bytes[4] == 1);
    assert(bytes.subrange(5, 9) =~= spec_u32_be(cc as u32));
    lemma_u32_be_round_trip(cc as u32, spec_u32_be(cc as u32));
    assert(spec_u32_from_be(bytes.subrange(5, 9)) == cc);
    assert(bytes.subrange(9, 9 + pool_bytes.len() as int) =~= pool_bytes);
    lemma_read_constants_of_serialized(bytes, 9, m.constants);
    let p: int = 9 + pool_bytes.len() as int;
    assert(spec_read_constants(bytes, 9, cc) == Ok::<(Seq<ValueView>, int), CodecError>(
        (m.constants, p),
    ));
    assert(bytes.subrange(p, p + 4) =~= spec_u32_be(ic as u32));
    lemma_u32_be_round_trip(ic as u32, spec_u32_be(ic as u32));
    assert(spec_u32_from_be(bytes.subrange(p, p + 4)) == ic);
    assert(bytes.subrange(p + 4, p + 4 + ic) =~= m.instructions);
    assert(spec_deserialize(bytes) == Ok::<ModuleView, CodecError>(
        ModuleView { constants: m.constants, instructions: bytes.subrange(p + 4, p + 4 + ic) },
    ));
    assert(ModuleView {
        constants: m.constants,
        instructions: bytes.subrange(p + 4, p + 4 + ic),
    } =~= m);
}

/// Append the big-endian encoding of a u32.
fn push_u32_be(out: &mut Vec<u8>, x: u32)
    ensures
        final(out)@ == old(out)@ + spec_u32_be(x),
{
    out.push((x / 0x1000000 % 256) as u8);
    out.push((x / 0x10000 % 256) as u8);
    out.push((x / 0x100 % 256) as u8);
    out.push((x % 256) as u8);
    proof {
        assert(out@ =~= old(out)@ + spec_u32_be(x));
    }
}

/// Append the big-endian encoding of a u64.
fn push_u64_be(out: &mut Vec<u8>, x: u64)
    ensures
        final(out)@ == old(out)@ + spec_u64_be(x),
{
    push_u32_be(out, (x / 0x100000000) as u32);
    push_u32_be(out, (x % 0x100000000) as u32);
    proof {
        assert(out@ =~= old(out)@ + spec_u64_be(x));
    }
}

/// Read a big-endian u32 at `pos`.
fn read_u32_be(bytes: &[u8], pos: usize) -> (x: u32)
    requires
        pos + 4 <= bytes@.len(),
    ensures
        x as int == spec_u32_from_be(bytes@.subrange(pos as int, pos as int + 4)),
{
    let b0 = bytes[pos] as u32;
    let b1 = bytes[pos + 1] as u32;
    let b2 = bytes[pos + 2] as u32;
    let b3 = bytes[pos + 3] as u32;
    let x = b0 * 0x1000000 + b1 * 0x10000 + b2 * 0x100 + b3;
    proof {
        let s = bytes@.subrange(pos as int, pos as int + 4);
        assert(s[0] == bytes@[pos as int] && s[1] == bytes@[pos as int + 1] && s[2] == bytes@[
            pos as int + 2
        ] && s[3] == bytes@[pos as int + 3]);
    }
    x
}

/// The two's-complement u64 image of an i64, computed.
fn i64_to_u64(x: i64) -> (r: u64)
    ensures
        r == u64_of_i64(x),
{
    if x >= 0 {
        x as u64
    } else {
        ((x as i128) + 0x10000000000000000i128) as u64
    }
}

/// The i64 denoted by a two's-complement u64 image, computed.
fn u64_to_i64(u: u64) -> (r: i64)
    ensures
        r == i64_of_u64(u),
{
    if u < 0x8000000000000000 {
        u as i64
    } else {
        ((u as i128) - 0x10000000000000000i128) as i64
    }
}

/// Relies on `String::from_utf8`: it succeeds exactly when the bytes
/// are valid UTF-8, and the returned string's characters encode back
/// to the input bytes.
#[verifier::external_body]
fn string_from_utf8(bytes: Vec<u8>) -> (r: Option<String>)
    ensures
        match r {
            Some(s) => valid_utf8(bytes@) && encode_utf8(s@) == bytes@,
            None => !valid_utf8(bytes@),
        },
{
    String::from_utf8(bytes).ok()
}

/// Append the wire record of one value.
fn serialize_value(bytes: &mut Vec<u8>, value: &Value)
    requires
        wf_value(value@),
    ensures
        final(bytes)@ == old(bytes)@ + spec_serialize_value(value@),
{
    match value {
        Value::Null => {
            bytes.push(0);
            proof {
                assert(bytes@ =~= old(bytes)@ + spec_serialize_value(value@));
            }
        },
        Value::String(s) => {
            bytes.push(1);
            let payload = s.as_str().as_bytes();
            push_u32_be(bytes, payload.len() as u32);
            bytes.extend_from_slice(payload);
            proof {
                assert(bytes@ =~= old(bytes)@ + spec_serialize_value(value@));
            }
        },
        Value::Integer(n) => {
            bytes.push(2);
            let u = i64_to_u64(*n);
            push_u64_be(bytes, u);
            proof {
                assert(bytes@ =~= old(bytes)@ + spec_serialize_value(value@));
            }
        },
        Value::Boolean(b) => {
            bytes.push(3);
            bytes.push(if *b { 1 } else { 0 });
            proof {
                assert(bytes@ =~= old(bytes)@ + spec_serialize_value(value@));
            }
        },
    }
}

/// Serialize a bytecode module to its wire image.
pub fn serialize(module: &BytecodeModule) -> (r: Vec<u8>)
    requires
        wf_module(module@),
    ensures
        r@ == spec_serialize(module@),
{
    let mut bytes: Vec<u8> = Vec::new();
    bytes.push(0x41);
    bytes.push(0x52);
    bytes.push(0x54);
    bytes.push(0x42);
    bytes.push(1);
    let const_count = module.constants.len();
    push_u32_be(&mut bytes, const_count as u32);
    let ghost header = spec_magic() + seq![1u8] + spec_u32_be(module@.constants.len() as u32);
    proof {
        assert(module@.constants.len() == module.constants@.len());
        assert(bytes@ =~= header);
        assert(module@.constants.take(0) =~= Seq::<ValueView>::empty());
    }
    let mut i: usize = 0;
    while i < const_count
        invariant
            wf_module(module@),
            const_count == module.constants@.len(),
            i <= const_count,
            bytes@ == header + spec_serialize_constants(module@.constants.take(i as int)),
        decreases const_count - i,
    {
        proof {
            assert(module@.constants[i as int] == module.constants@[i as int]@);
        }
        serialize_value(&mut bytes, &module.constants[i]);
        proof {
            lemma_serialize_constants_push(
                module@.constants.take(i as int),
                module@.constants[i as int],
            );
            assert(module@.constants.take(i as int + 1) =~= module@.constants.take(
                i as int,
            ).push(module@.constants[i as int]));
            assert(bytes@ =~= header + spec_serialize_constants(
                module@.constants.take(i as int + 1),
            ));
        }
        i += 1;
    }
    proof {
        assert(module@.constants.take(const_count as int) =~= module@.constants);
    }
    let instr_count = module.instructions.len();
    push_u32_be(&mut bytes, instr_count as u32);
    bytes.extend_from_slice(module.instructions.as_slice());
    proof {
        assert(bytes@ =~= spec_serialize(module@));
    }
    bytes
}

/// Read the value record at `pos`.
fn deserialize_value(bytes: &[u8], pos: usize) -> (r: Result<(Value, usize), CodecError>)
    requires
        pos <= bytes@.len(),
    ensures
        match r {
            Ok(p) => spec_read_value(bytes@, pos as int) == Ok::<(ValueView, int), CodecError>(
                (p.0@, p.1 as int),
            ) && pos < p.1 <= bytes@.len(),
            Err(e) => spec_read_value(bytes@, pos as int) == Err::<(ValueView, int), CodecError>(
                e,
            ),
        },
{
    if pos >= bytes.len() {
        return Err(CodecError::Truncated);
    }
    let tag = bytes[pos];
    if tag == 0 {
        Ok((Value::Null, pos + 1))
    } else if tag == 1 {
        if bytes.len() - pos < 5 {
            return Err(CodecError::Truncated);
        }
        let len32 = read_u32_be(bytes, pos + 1);
        let len = len32 as usize;
        proof {
            assert(bytes@.subrange(pos as int + 1, pos as int + 5) == bytes@.subrange(
                pos as int + 1,
                pos as int + 1 + 4,
            ));
            lemma_u32_be_round_trip(0, bytes@.subrange(pos as int + 1, pos as int + 5));
        }
        if len > bytes.len() - (pos + 5) {
            return Err(CodecError::Truncated);
        }
        let payload = vstd::slice::slice_subrange(bytes, pos + 5, pos + 5 + len);
        let payload_vec = vstd::slice::slice_to_vec(payload);
        match string_from_utf8(payload_vec) {
            Some(s) => {
                proof {
                    vstd::utf8::encode_utf8_decode_utf8(s@);
                }
                Ok((Value::String(s), pos + 5 + len))
            },
            None => Err(CodecError::InvalidEncoding),
        }
    } else if tag == 2 {
        if bytes.len() - pos < 9 {
            return Err(CodecError::Truncated);
        }
        let hi = read_u32_be(bytes, pos + 1);
        let lo = read_u32_be(bytes, pos + 5);
        let u = (hi as u64) * 0x100000000 + (lo as u64);
        proof {
            let s = bytes@.subrange(pos as int + 1, pos as int + 9);
            assert(s.subrange(0, 4) =~= bytes@.subrange(pos as int + 1, pos as int + 5));
            assert(s.subrange(4, 8) =~= bytes@.subrange(pos as int + 5, pos as int + 9));
            lemma_u64_be_round_trip(0, s);
        }
        Ok((Value::Integer(u64_to_i64(u)), pos + 9))
    } else if tag == 3 {
        if bytes.len() - pos < 2 {
            return Err(CodecError::Truncated);
        }
        Ok((Value::Boolean(bytes[pos + 1] != 0), pos + 2))
    } else {
        Err(CodecError::InvalidEncoding)
    }
}

/// Deserialize a wire image back into a bytecode module.
///
/// The result is pinned by [`spec_deserialize`]: decoding succeeds
/// exactly on buffers that start with a well-formed wire image, and
/// otherwise reports the first error met, without reading past the
/// declared lengths.
pub fn deserialize(bytes: &[u8]) -> (r: Result<BytecodeModule, CodecError>)
    ensures
        match r {
            Ok(m) => spec_deserialize(bytes@) == Ok::<ModuleView, CodecError>(m@),
            Err(e) => spec_deserialize(bytes@) == Err::<ModuleView, CodecError>(e),
        },
{
    if bytes.len() < 4 {
        return Err(CodecError::Truncated);
    }
    if !(bytes[0] == 0x41 && bytes[1] == 0x52 && bytes[2] == 0x54 && bytes[3] == 0x42) {
        proof {
            let s = bytes@.subrange(0, 4);
            assert(s[0] == bytes@[0] && s[1] == bytes@[1] && s[2] == bytes@[2] && s[3] == bytes@[
                3
            ]);
            assert(s != spec_magic());
        }
        return Err(CodecError::InvalidFormat);
    }
    proof {
        assert(bytes@.subrange(0, 4) =~= spec_magic());
    }
    if bytes.len() < 5 {
        return Err(CodecError::Truncated);
    }
    if bytes[4] != 1 {
        return Err(CodecError::UnsupportedVersion);
    }
    if bytes.len() < 9 {
        return Err(CodecError::Truncated);
    }
    let const_count = read_u32_be(bytes, 5) as usize;
    let ghost cc = spec_u32_from_be(bytes@.subrange(5, 9));
    proof {
        assert(bytes@.subrange(5, 9) == bytes@.subrange(5int, 5int + 4));
    }
    let mut constants: Vec<Value> = Vec::new();
    let mut pos: usize = 9;
    let mut k: usize = 0;
    proof {
        assert(constants@.map_values(|v: Value| v@) =~= Seq::<ValueView>::empty());
    }
    while k < const_count
        invariant
            bytes@.len() >= 9,
            bytes@.subrange(0, 4) == spec_magic(),
            bytes@[4] == 1,
            cc == spec_u32_from_be(bytes@.subrange(5, 9)),
            const_count == cc,
            k <= const_count,
            9 <= pos <= bytes@.len(),
            spec_read_constants(bytes@, 9, cc) == match spec_read_constants(
                bytes@,
                pos as int,
                cc - k,
            ) {
                Ok(p) => Ok::<(Seq<ValueView>, int), CodecError>(
                    (constants@.map_values(|v: Value| v@) + p.0, p.1),
                ),
                Err(e) => Err::<(Seq<ValueView>, int), CodecError>(e),
            },
        decreases const_count - k,
    {
        let ghost pool_before = constants@.map_values(|v: Value| v@);
        match deserialize_value(bytes, pos) {
            Err(e) => {
                proof {
                    assert(spec_read_constants(bytes@, pos as int, cc - k) == Err::<
                        (Seq<ValueView>, int),
                        CodecError,
                    >(e));
                    assert(spec_read_constants(bytes@, 9, cc) == Err::<
                        (Seq<ValueView>, int),
                        CodecError,
                    >(e));
                }
                return Err(e);
            },
            Ok(vp) => {
                let (v, p2) = vp;
                proof {
                    let rest = spec_read_constants(bytes@, p2 as int, cc - k - 1);
                    match rest {
                        Ok(q) => {
                            assert(pool_before.push(v@) + q.0 =~= pool_before + (seq![v@]
                                + q.0));
                        },
                        Err(_) => {},
                    }
                }
                constants.push(v);
                proof {
                    assert(constants@.map_values(|x: Value| x@) =~= pool_before.push(v@));
                }
                pos = p2;
            },
        }
        k += 1;
    }
    proof {
        assert(spec_read_constants(bytes@, pos as int, 0) == Ok::<(Seq<ValueView>, int), CodecError>(
            (Seq::<ValueView>::empty(), pos as int),
        ));
        assert(constants@.map_values(|v: Value| v@) + Seq::<ValueView>::empty() =~= constants@
            .map_values(|v: Value| v@));
    }
    if bytes.len() - pos < 4 {
        return Err(CodecError::Truncated);
    }
    let instr_count = read_u32_be(bytes, pos) as usize;
    if instr_count > bytes.len() - (pos + 4) {
        return Err(CodecError::Truncated);
    }
    let instr_slice = vstd::slice::slice_subrange(bytes, pos + 4, pos + 4 + instr_count);
    let instructions = vstd::slice::slice_to_vec(instr_slice);
    let m = BytecodeModule { constants, instructions };
    proof {
        let ic = spec_u32_from_be(bytes@.subrange(pos as int, pos as int + 4));
        assert(m@.instructions =~= bytes@.subrange(pos as int + 4, pos as int + 4 + ic));
        assert(spec_deserialize(bytes@) == Ok::<ModuleView, CodecError>(m@));
    }
    Ok(m)
}

} // verus!
