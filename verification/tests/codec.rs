use cql_core::error::{Error, ProtocolFault};
use cql_core::frame::{decode_frame, decode_header, encode_frame, Frame, Header, Opcode, Version};
use cql_core::query::{
    encode_query_body, encode_query_frame, Consistency, NamedValue, Query, QueryValues,
};
use cql_core::value::{decode_value, encode_cell, encode_value, ColumnType, Decimal, Value};
use cql_core::wire::{
    bits_of_i32, copy_range, get_i32, get_u16, get_u32, put_bytes, put_i32, put_u16, put_u32,
    signed_of_u32,
};

#[test]
fn short_is_two_bytes_big_endian() {
    let mut out = vec![9u8];
    put_u16(&mut out, 0x1234);
    assert_eq!(out, vec![9, 0x12, 0x34]);
    assert_eq!(get_u16(&out, 1), 0x1234);
}

#[test]
fn int_is_four_bytes_twos_complement() {
    let mut out = Vec::new();
    put_i32(&mut out, -2);
    put_i32(&mut out, 1546998816);
    assert_eq!(out, vec![255, 255, 255, 254, 92, 53, 84, 32]);
    assert_eq!(get_i32(&out, 0), -2);
    assert_eq!(get_i32(&out, 4), 1546998816);
    assert_eq!(get_u32(&out, 0), 0xFFFF_FFFE);
}

#[test]
fn unsigned_and_signed_share_their_bits() {
    assert_eq!(bits_of_i32(-1), u32::MAX);
    assert_eq!(bits_of_i32(i32::MIN), 0x8000_0000);
    assert_eq!(bits_of_i32(7), 7);
    assert_eq!(signed_of_u32(u32::MAX), -1);
    assert_eq!(signed_of_u32(0x8000_0000), i32::MIN);
    assert_eq!(signed_of_u32(0x7FFF_FFFF), i32::MAX);
    let mut out = Vec::new();
    put_u32(&mut out, 0x0102_0304);
    assert_eq!(out, vec![1, 2, 3, 4]);
}

#[test]
fn ranges_are_copied_and_appended() {
    let bytes = [1u8, 2, 3, 4, 5];
    assert_eq!(copy_range(&bytes, 1, 4), vec![2, 3, 4]);
    assert_eq!(copy_range(&bytes, 2, 2), Vec::<u8>::new());
    let mut out = vec![0u8];
    put_bytes(&mut out, &bytes[3..]);
    assert_eq!(out, vec![0, 4, 5]);
}

#[test]
fn int_body_is_its_four_bytes() {
    assert_eq!(encode_value(Value::Int(3)), vec![0, 0, 0, 3]);
    assert_eq!(encode_value(Value::Int(-1)), vec![255, 255, 255, 255]);
    assert_eq!(encode_value(Value::Int(i32::MIN)), vec![0x80, 0, 0, 0]);
}

#[test]
fn decimal_body_is_scale_then_shortest_unscaled() {
    assert_eq!(encode_value(Value::Decimal(Decimal::new(129, 0))), vec![0, 0, 0, 0, 0x00, 0x81]);
    assert_eq!(encode_value(Value::Decimal(Decimal::new(-129, 0))), vec![0, 0, 0, 0, 0xFF, 0x7F]);
    assert_eq!(encode_value(Value::Decimal(Decimal::new(129, 1))), vec![0, 0, 0, 1, 0x00, 0x81]);
    assert_eq!(encode_value(Value::Decimal(Decimal::new(-129, 1))), vec![0, 0, 0, 1, 0xFF, 0x7F]);
    assert_eq!(encode_value(Value::Decimal(Decimal::new(0, 2))), vec![0, 0, 0, 2, 0]);
    assert_eq!(encode_value(Value::Decimal(Decimal::new(127, 0))), vec![0, 0, 0, 0, 0x7F]);
    assert_eq!(encode_value(Value::Decimal(Decimal::new(128, 0))), vec![0, 0, 0, 0, 0x00, 0x80]);
    assert_eq!(encode_value(Value::Decimal(Decimal::new(-128, 0))), vec![0, 0, 0, 0, 0x80]);
    assert_eq!(encode_value(Value::Decimal(Decimal::new(-1, 0))), vec![0, 0, 0, 0, 0xFF]);
    assert_eq!(
        encode_value(Value::Decimal(Decimal::new(i64::MAX, u32::MAX))),
        vec![255, 255, 255, 255, 0x7F, 255, 255, 255, 255, 255, 255, 255]
    );
    assert_eq!(
        encode_value(Value::Decimal(Decimal::new(i64::MIN, 0))),
        vec![0, 0, 0, 0, 0x80, 0, 0, 0, 0, 0, 0, 0]
    );
}

#[test]
fn decimal_from_whole_number_has_scale_zero() {
    assert_eq!(Decimal::from_i64(1546998816), Decimal { unscaled: 1546998816, scale: 0 });
    assert_eq!(Decimal::from_i64(-5), Decimal::new(-5, 0));
    assert_eq!(
        encode_value(Value::Decimal(Decimal::from_i64(1546998816))),
        vec![0, 0, 0, 0, 92, 53, 84, 32]
    );
}

#[test]
fn cell_is_length_then_body() {
    assert_eq!(encode_cell(Some(Value::Int(3))), vec![0, 0, 0, 4, 0, 0, 0, 3]);
    assert_eq!(
        encode_cell(Some(Value::Decimal(Decimal::new(-129, 1)))),
        vec![0, 0, 0, 6, 0, 0, 0, 1, 0xFF, 0x7F]
    );
}

#[test]
fn null_cell_is_minus_one_and_differs_from_empty() {
    assert_eq!(encode_cell(None), vec![255, 255, 255, 255]);
    assert_ne!(encode_cell(None), vec![0, 0, 0, 0]);
}

#[test]
fn values_round_trip() {
    let values = [
        Value::Int(0),
        Value::Int(3),
        Value::Int(-1),
        Value::Int(i32::MAX),
        Value::Int(i32::MIN),
        Value::Decimal(Decimal::new(0, 0)),
        Value::Decimal(Decimal::new(1546998816, 0)),
        Value::Decimal(Decimal::new(-1546998816, 7)),
        Value::Decimal(Decimal::new(i64::MAX, u32::MAX)),
        Value::Decimal(Decimal::new(i64::MIN, 0x8000_0000)),
        Value::Decimal(Decimal::new(255, 1)),
        Value::Decimal(Decimal::new(-256, 1)),
        Value::Decimal(Decimal::new(32767, 1)),
        Value::Decimal(Decimal::new(32768, 1)),
    ];
    for v in values {
        let body = encode_value(v);
        assert_eq!(decode_value(v.column_type(), &body), Some(v));
    }
}

#[test]
fn value_decoding_rejects_wrong_lengths() {
    assert_eq!(decode_value(ColumnType::Int, &[]), None);
    assert_eq!(decode_value(ColumnType::Int, &[0, 0, 3]), None);
    assert_eq!(decode_value(ColumnType::Int, &[0, 0, 0, 0, 3]), None);
    assert_eq!(decode_value(ColumnType::Decimal, &[0, 0, 0, 0]), None);
    assert_eq!(decode_value(ColumnType::Decimal, &[0; 13]), None);
    assert_eq!(decode_value(ColumnType::Decimal, &[]), None);
}

#[test]
fn value_decoding_reads_longer_forms_too() {
    assert_eq!(
        decode_value(ColumnType::Decimal, &[0, 0, 0, 2, 0, 0, 1]),
        Some(Value::Decimal(Decimal::new(1, 2)))
    );
    assert_eq!(
        decode_value(ColumnType::Decimal, &[0, 0, 0, 2, 0xFF, 0xFF, 0xFE]),
        Some(Value::Decimal(Decimal::new(-2, 2)))
    );
    assert_eq!(decode_value(ColumnType::Int, &[0xFF, 0xFF, 0xFF, 0xFD]), Some(Value::Int(-3)));
}

#[test]
fn value_projections() {
    assert_eq!(Value::Int(4).as_int(), Some(4));
    assert_eq!(Value::Int(4).as_decimal(), None);
    assert_eq!(Value::Decimal(Decimal::new(1, 1)).as_decimal(), Some(Decimal::new(1, 1)));
    assert_eq!(Value::Decimal(Decimal::new(1, 1)).as_int(), None);
    assert_eq!(ColumnType::Int.type_id(), 0x0009);
    assert_eq!(ColumnType::Decimal.type_id(), 0x0006);
}

fn sample_frame() -> Frame {
    Frame {
        version: Version::Response,
        flags: 0,
        stream: 0x0102,
        opcode: Opcode::Result,
        body: vec![0, 0, 0, 1],
    }
}

#[test]
fn frame_bytes_are_header_then_body() {
    assert_eq!(
        encode_frame(&sample_frame()),
        Some(vec![0x84, 0, 1, 2, 8, 0, 0, 0, 4, 0, 0, 0, 1])
    );
    let request = Frame {
        version: Version::Request,
        flags: 2,
        stream: 0xFFFF,
        opcode: Opcode::Query,
        body: vec![],
    };
    assert_eq!(encode_frame(&request), Some(vec![0x04, 2, 255, 255, 7, 0, 0, 0, 0]));
}

#[test]
fn frames_round_trip() {
    let bytes = encode_frame(&sample_frame()).unwrap();
    assert_eq!(decode_frame(&bytes), Ok(sample_frame()));
    assert_eq!(encode_frame(&decode_frame(&bytes).unwrap()), Some(bytes));
}

#[test]
fn header_is_read_from_the_first_nine_bytes() {
    let bytes = [0x84, 1, 0, 5, 0, 0, 0, 1, 0, 42];
    assert_eq!(
        decode_header(&bytes),
        Ok(Header {
            version: Version::Response,
            flags: 1,
            stream: 5,
            opcode: Opcode::Error,
            length: 256,
        })
    );
}

#[test]
fn short_header_is_rejected() {
    assert_eq!(
        decode_frame(&[0x84, 0, 0, 0, 8, 0, 0, 0]),
        Err(Error::ProtocolError(ProtocolFault::TruncatedHeader))
    );
    assert_eq!(decode_frame(&[]), Err(Error::ProtocolError(ProtocolFault::TruncatedHeader)));
    assert_eq!(decode_header(&[0x84]), Err(ProtocolFault::TruncatedHeader));
}

#[test]
fn unknown_version_is_rejected() {
    assert_eq!(
        decode_frame(&[0x83, 0, 0, 0, 8, 0, 0, 0, 0]),
        Err(Error::ProtocolError(ProtocolFault::BadVersion))
    );
    assert_eq!(
        decode_frame(&[0x05, 0, 0, 0, 8, 0, 0, 0, 0]),
        Err(Error::ProtocolError(ProtocolFault::BadVersion))
    );
}

#[test]
fn unknown_opcode_is_rejected() {
    assert_eq!(
        decode_frame(&[0x84, 0, 0, 0, 4, 0, 0, 0, 0]),
        Err(Error::ProtocolError(ProtocolFault::UnsupportedOpcode))
    );
    assert_eq!(
        decode_frame(&[0x84, 0, 0, 0, 0x11, 0, 0, 0, 0]),
        Err(Error::ProtocolError(ProtocolFault::UnsupportedOpcode))
    );
}

#[test]
fn negative_length_is_rejected() {
    assert_eq!(
        decode_frame(&[0x84, 0, 0, 0, 8, 0xFF, 0xFF, 0xFF, 0xFF]),
        Err(Error::ProtocolError(ProtocolFault::NegativeLength))
    );
}

#[test]
fn declared_length_beyond_the_bytes_is_rejected() {
    assert_eq!(
        decode_frame(&[0x84, 0, 0, 0, 8, 0, 0, 0, 5, 1, 2, 3, 4]),
        Err(Error::ProtocolError(ProtocolFault::TruncatedBody))
    );
    assert_eq!(
        decode_frame(&[0x84, 0, 0, 0, 8, 0x7F, 0xFF, 0xFF, 0xFF]),
        Err(Error::ProtocolError(ProtocolFault::TruncatedBody))
    );
}

#[test]
fn bytes_behind_the_body_are_rejected() {
    assert_eq!(
        decode_frame(&[0x84, 0, 0, 0, 8, 0, 0, 0, 1, 1, 2]),
        Err(Error::ProtocolError(ProtocolFault::TrailingBytes))
    );
}

#[test]
fn version_and_opcode_bytes() {
    assert_eq!(Version::Request.byte(), 0x04);
    assert_eq!(Version::Response.byte(), 0x84);
    assert_eq!(Version::from_byte(0x04), Some(Version::Request));
    assert_eq!(Version::from_byte(0x84), Some(Version::Response));
    assert_eq!(Version::from_byte(0x03), None);
    let opcodes = [
        (Opcode::Error, 0x00u8),
        (Opcode::Startup, 0x01),
        (Opcode::Ready, 0x02),
        (Opcode::Authenticate, 0x03),
        (Opcode::Options, 0x05),
        (Opcode::Supported, 0x06),
        (Opcode::Query, 0x07),
        (Opcode::Result, 0x08),
        (Opcode::Prepare, 0x09),
        (Opcode::Execute, 0x0A),
        (Opcode::Register, 0x0B),
        (Opcode::Event, 0x0C),
        (Opcode::Batch, 0x0D),
        (Opcode::AuthChallenge, 0x0E),
        (Opcode::AuthResponse, 0x0F),
        (Opcode::AuthSuccess, 0x10),
    ];
    for (opcode, byte) in opcodes {
        assert_eq!(opcode.byte(), byte);
        assert_eq!(Opcode::from_byte(byte), Some(opcode));
    }
    assert_eq!(Opcode::from_byte(0x04), None);
    assert_eq!(Opcode::from_byte(0x11), None);
}

#[test]
fn consistency_codes() {
    assert_eq!(Consistency::Any.code(), 0);
    assert_eq!(Consistency::One.code(), 1);
    assert_eq!(Consistency::Two.code(), 2);
    assert_eq!(Consistency::Three.code(), 3);
    assert_eq!(Consistency::Quorum.code(), 4);
    assert_eq!(Consistency::All.code(), 5);
    assert_eq!(Consistency::LocalQuorum.code(), 6);
    assert_eq!(Consistency::EachQuorum.code(), 7);
    assert_eq!(Consistency::Serial.code(), 8);
    assert_eq!(Consistency::LocalSerial.code(), 9);
    assert_eq!(Consistency::LocalOne.code(), 10);
}

#[test]
fn query_body_without_values() {
    let q = Query::new("SELECT 1");
    let mut expected = vec![0, 0, 0, 8];
    expected.extend_from_slice(b"SELECT 1");
    expected.extend_from_slice(&[0, 1, 0]);
    assert_eq!(encode_query_body(&q), Ok(expected));
}

#[test]
fn query_body_with_positional_values() {
    let q = Query::with_values("X", QueryValues::Simple(vec![Some(Value::Int(3)), None]))
        .with_consistency(Consistency::Quorum);
    assert_eq!(q.consistency(), Consistency::Quorum);
    assert_eq!(
        encode_query_body(&q),
        Ok(vec![
            0, 0, 0, 1, b'X', 0, 4, 0x01, 0, 2, 0, 0, 0, 4, 0, 0, 0, 3, 255, 255, 255, 255
        ])
    );
}

#[test]
fn query_body_with_named_values() {
    let q = Query::with_values(
        "X",
        QueryValues::Named(vec![
            NamedValue { name: "key".to_string(), value: Some(Value::Int(3)) },
            NamedValue { name: "d".to_string(), value: None },
        ]),
    );
    assert_eq!(
        encode_query_body(&q),
        Ok(vec![
            0, 0, 0, 1, b'X', 0, 1, 0x41, 0, 2, 0, 3, b'k', b'e', b'y', 0, 0, 0, 4, 0, 0, 0, 3, 0,
            1, b'd', 255, 255, 255, 255
        ])
    );
}

#[test]
fn query_text_is_sent_as_utf8() {
    let q = Query::new("é");
    assert_eq!(encode_query_body(&q), Ok(vec![0, 0, 0, 2, 0xC3, 0xA9, 0, 1, 0]));
}

#[test]
fn query_frame_wraps_the_body() {
    let q = Query::new("X");
    assert_eq!(
        encode_query_frame(&q, 0x0A0B),
        Ok(vec![0x04, 0, 0x0A, 0x0B, 7, 0, 0, 0, 8, 0, 0, 0, 1, b'X', 0, 1, 0])
    );
}

#[test]
fn too_many_values_cannot_be_framed() {
    let q = Query::with_values("X", QueryValues::Simple(vec![None; 0x1_0000]));
    assert_eq!(encode_query_body(&q), Err(Error::ProtocolError(ProtocolFault::Oversized)));
    assert_eq!(encode_query_frame(&q, 0), Err(Error::ProtocolError(ProtocolFault::Oversized)));
    let most = Query::with_values("X", QueryValues::Simple(vec![None; 0xFFFF]));
    assert_eq!(encode_query_body(&most).map(|b| b.len()), Ok(4 + 1 + 2 + 1 + 2 + 4 * 0xFFFF));
}

#[test]
fn too_long_a_name_cannot_be_framed() {
    let long = "n".repeat(0x1_0000);
    let q = Query::with_values(
        "X",
        QueryValues::Named(vec![NamedValue { name: long, value: None }]),
    );
    assert_eq!(encode_query_body(&q), Err(Error::ProtocolError(ProtocolFault::Oversized)));
    let longest = "n".repeat(0xFFFF);
    let q = Query::with_values(
        "X",
        QueryValues::Named(vec![NamedValue { name: longest, value: None }]),
    );
    assert!(encode_query_body(&q).is_ok());
}
