//! Tests for the binary codec: round trips and every decode error.

use artificial_lang::bytecode::{BytecodeModule, Value};
use artificial_lang::serializer::{deserialize, serialize, CodecError};

fn sample_module() -> BytecodeModule {
    BytecodeModule {
        constants: vec![
            Value::Null,
            Value::String("h\u{e9}llo \u{1f600}".to_string()),
            Value::Integer(-42),
            Value::Integer(i64::MIN),
            Value::Integer(i64::MAX),
            Value::Boolean(true),
            Value::Boolean(false),
        ],
        instructions: vec![0x02, 0x00, 0x01, 0x04, 0x01],
    }
}

#[test]
fn round_trip_preserves_constants_and_instructions() {
    let module = sample_module();
    let bytes = serialize(&module);
    let back = deserialize(&bytes).expect("round trip must decode");
    assert_eq!(back.constants, module.constants);
    assert_eq!(back.instructions, module.instructions);
}

#[test]
fn round_trip_of_empty_module() {
    let module = BytecodeModule::new();
    let bytes = serialize(&module);
    let back = deserialize(&bytes).expect("empty module must decode");
    assert_eq!(back.constants, Vec::<Value>::new());
    assert_eq!(back.instructions, Vec::<u8>::new());
}

#[test]
fn serialized_layout_starts_with_magic_and_version() {
    let module = BytecodeModule::new();
    let bytes = serialize(&module);
    assert_eq!(
        bytes,
        vec![0x41, 0x52, 0x54, 0x42, 1, 0, 0, 0, 0, 0, 0, 0, 0]
    );
}

#[test]
fn bad_magic_is_a_format_error() {
    let bytes = vec![0x58, 0x58, 0x58, 0x58, 1, 0, 0, 0, 0, 0, 0, 0, 0];
    assert_eq!(deserialize(&bytes), Err(CodecError::InvalidFormat));
}

#[test]
fn short_buffer_is_truncated() {
    assert_eq!(deserialize(&[0x41, 0x52]), Err(CodecError::Truncated));
    assert_eq!(deserialize(&[]), Err(CodecError::Truncated));
}

#[test]
fn unsupported_version_is_reported() {
    let bytes = vec![0x41, 0x52, 0x54, 0x42, 2, 0, 0, 0, 0, 0, 0, 0, 0];
    assert_eq!(deserialize(&bytes), Err(CodecError::UnsupportedVersion));
}

#[test]
fn declared_constant_with_no_bytes_is_truncated() {
    // const_count = 1 but no value record follows.
    let bytes = vec![0x41, 0x52, 0x54, 0x42, 1, 0, 0, 0, 1];
    assert_eq!(deserialize(&bytes), Err(CodecError::Truncated));
}

#[test]
fn unknown_value_tag_is_invalid_encoding() {
    let bytes = vec![0x41, 0x52, 0x54, 0x42, 1, 0, 0, 0, 1, 9];
    assert_eq!(deserialize(&bytes), Err(CodecError::InvalidEncoding));
}

#[test]
fn invalid_utf8_payload_is_invalid_encoding() {
    // One string constant of declared length 1 whose byte is not UTF-8.
    let bytes = vec![0x41, 0x52, 0x54, 0x42, 1, 0, 0, 0, 1, 1, 0, 0, 0, 1, 0xFF];
    assert_eq!(deserialize(&bytes), Err(CodecError::InvalidEncoding));
}

#[test]
fn string_payload_shorter_than_declared_is_truncated() {
    let bytes = vec![0x41, 0x52, 0x54, 0x42, 1, 0, 0, 0, 1, 1, 0, 0, 0, 5, 0x61];
    assert_eq!(deserialize(&bytes), Err(CodecError::Truncated));
}

#[test]
fn missing_instruction_bytes_are_truncated() {
    // No constants, instr_count = 2, only one instruction byte.
    let bytes = vec![0x41, 0x52, 0x54, 0x42, 1, 0, 0, 0, 0, 0, 0, 0, 2, 0x01];
    assert_eq!(deserialize(&bytes), Err(CodecError::Truncated));
}

#[test]
fn codec_errors_describe_themselves() {
    assert_eq!(
        CodecError::InvalidFormat.message(),
        "invalid bytecode file: bad magic bytes"
    );
    assert_eq!(CodecError::Truncated.message(), "truncated bytecode file");
}

#[test]
fn trailing_bytes_are_ignored() {
    let module = sample_module();
    let mut bytes = serialize(&module);
    bytes.push(0xEE);
    let back = deserialize(&bytes).expect("trailing bytes do not break decoding");
    assert_eq!(back.constants, module.constants);
}

#[test]
fn integer_wire_form_is_big_endian_twos_complement() {
    let module = BytecodeModule {
        constants: vec![Value::Integer(-1)],
        instructions: vec![],
    };
    let bytes = serialize(&module);
    // tag 2 then eight 0xFF bytes.
    assert_eq!(
        &bytes[9..18],
        &[2, 0xFF, 0xFF, 0xFF, 0xFF, 0xFF, 0xFF, 0xFF, 0xFF]
    );
}

#[test]
fn string_wire_form_counts_utf8_bytes() {
    let module = BytecodeModule {
        constants: vec![Value::String("\u{e9}".to_string())],
        instructions: vec![],
    };
    let bytes = serialize(&module);
    // tag 1, length 2, then the two UTF-8 bytes of U+00E9.
    assert_eq!(&bytes[9..16], &[1, 0, 0, 0, 2, 0xC3, 0xA9]);
}
