use fomoxa_interop::interop::{
    decode_chunk, decode_count, decode_count_item, decode_done, decode_echo, decode_echo_response,
    decode_heard, decode_reflect_response, decode_said, decode_tick, encode_chunk, encode_count,
    encode_count_item, encode_done, encode_echo, encode_echo_response, encode_heard,
    encode_reflect_request, encode_room, encode_said, encode_tick, encode_ticks_request,
    encode_upload_open,
};
use fomoxa_interop::models::frpc::{FRpcCtx, FRpcCtxRpcCodec, FRpcError, FRpcErrorRpcCodec};
use fomoxa_interop::proto::{
    decode_count as proto_decode_count, decode_item, decode_request, decode_response,
    encode_count as proto_encode_count, encode_item, encode_request, encode_response,
};
use fomoxa_interop::wire::{DecodeError, Limits, Reader, Writer};

fn text_bytes(text: &str) -> Vec<u8> {
    let mut bytes = (text.len() as u32).to_le_bytes().to_vec();
    bytes.extend_from_slice(text.as_bytes());
    bytes
}

#[test]
fn echo_request_is_a_length_and_utf8() {
    assert_eq!(encode_echo("xin chao"), text_bytes("xin chao"));
    assert_eq!(encode_request("xin chao"), text_bytes("xin chao"));
    assert_eq!(encode_echo(""), vec![0, 0, 0, 0]);
}

#[test]
fn u32_messages_are_little_endian() {
    assert_eq!(encode_count(5), vec![5, 0, 0, 0]);
    assert_eq!(proto_encode_count(0x0102_0304), vec![4, 3, 2, 1]);
    assert_eq!(encode_count_item(1), vec![1, 0, 0, 0]);
    assert_eq!(encode_item(0xFFFF_FFFF), vec![0xFF, 0xFF, 0xFF, 0xFF]);
    assert_eq!(encode_chunk(4096), vec![0, 16, 0, 0]);
    assert_eq!(encode_tick(7), vec![7, 0, 0, 0]);
}

#[test]
fn empty_messages_have_no_bytes() {
    assert!(encode_ticks_request().is_empty());
    assert!(encode_reflect_request().is_empty());
}

#[test]
fn texts_read_back() {
    for text in ["hello", "still here", "", "ünïcödé ✓"] {
        assert_eq!(decode_echo(&encode_echo(text)), text);
        assert_eq!(decode_echo_response(&encode_echo_response(text)), text);
        assert_eq!(decode_done(&encode_done(text)), text);
        assert_eq!(decode_said(&encode_said(text)), text);
        assert_eq!(decode_heard(&encode_heard(text)), text);
        assert_eq!(decode_request(&encode_request(text)).text, text);
        assert_eq!(decode_response(&encode_response(text)).text, text);
    }
    assert_eq!(encode_upload_open("photo.raw"), text_bytes("photo.raw"));
    assert_eq!(encode_room("lobby"), text_bytes("lobby"));
}

#[test]
fn numbers_read_back() {
    for value in [0u32, 1, 5, 100, 101, 4096, u32::MAX] {
        assert_eq!(decode_count(&encode_count(value)), value);
        assert_eq!(decode_count_item(&encode_count_item(value)), value);
        assert_eq!(decode_chunk(&encode_chunk(value)), value);
        assert_eq!(decode_tick(&encode_tick(value)), value);
        assert_eq!(proto_decode_count(&proto_encode_count(value)).count, value);
        assert_eq!(decode_item(&encode_item(value)).value, value);
    }
}

#[test]
fn a_newer_writer_appended_field_is_ignored() {
    let mut bytes = encode_echo("xin chao");
    bytes.extend_from_slice(&text_bytes("appended"));
    assert_eq!(decode_echo(&bytes), "xin chao");
}

#[test]
fn an_older_writer_leaves_zero_values() {
    assert_eq!(decode_echo(&[]), "");
    assert_eq!(decode_count(&[]), 0);
    let reply = decode_reflect_response(&[]);
    assert!(reply.methods.is_empty());
    assert!(reply.schema_json.is_empty());
}

#[test]
fn a_truncated_field_keeps_its_zero_value() {
    assert_eq!(decode_count(&[5, 0]), 0);
    assert_eq!(decode_echo(&[8, 0, 0, 0, b'x']), "");
}

#[test]
fn reader_errors_leave_the_reader_where_it_was() {
    let bytes = [3u8, 0, 0, 0, 0xFF, 0xFE, 0xFD];
    let mut reader = Reader::new(&bytes);
    assert_eq!(reader.read_string(), Err(DecodeError::InvalidUtf8));
    assert_eq!(reader.position(), 0);
    assert_eq!(reader.read_bytes(), Ok(vec![0xFF, 0xFE, 0xFD]));
    assert!(reader.is_empty());
    let short = [1u8, 2];
    let mut reader = Reader::new(&short);
    assert_eq!(reader.read_u32(), Err(DecodeError::UnexpectedEof { needed: 4, remaining: 2 }));
    assert_eq!(reader.position(), 0);
}

#[test]
fn writer_collects_what_it_writes() {
    let mut writer = Writer::new();
    assert!(writer.is_empty());
    writer.write_u32(1);
    writer.write_string("ab");
    writer.write_bytes(&[9]);
    writer.write_array_count(2);
    assert_eq!(writer.len(), 4 + 6 + 5 + 4);
    assert_eq!(
        writer.as_slice(),
        &[1, 0, 0, 0, 2, 0, 0, 0, b'a', b'b', 1, 0, 0, 0, 9, 2, 0, 0, 0][..]
    );
    writer.clear();
    assert!(writer.into_bytes().is_empty());
}

#[test]
fn ctx_written_by_fomoxa_rpc_reads_back() {
    let ctx = fomoxa_rpc::Ctx {
        deadline_ms: 1500,
        trace_id: vec![1, 2, 3, 4],
        span_id: vec![5, 6],
        token: "tok".to_owned(),
        tenant: "acme".to_owned(),
        idempotency_key: vec![7],
        initial_credit: 2,
    };
    let mut bytes = Vec::new();
    ctx.encode(&mut bytes);
    let mut value = FRpcCtx::default();
    assert_eq!(FRpcCtxRpcCodec::decode(&mut Reader::new(&bytes), &mut value), Ok(()));
    assert_eq!(value.deadline_ms, 1500);
    assert_eq!(value.trace_id, vec![1, 2, 3, 4]);
    assert_eq!(value.span_id, vec![5, 6]);
    assert_eq!(value.token, "tok");
    assert_eq!(value.tenant, "acme");
    assert_eq!(value.idempotency_key, vec![7]);
    assert_eq!(value.initial_credit, 2);
    let mut writer = Writer::new();
    FRpcCtxRpcCodec::encode(&mut writer, &value);
    assert_eq!(writer.into_bytes(), bytes);
}

#[test]
fn status_written_by_fomoxa_rpc_reads_back() {
    let status = fomoxa_rpc::Status::invalid_argument("Echo.Say needs a non-empty text");
    let mut bytes = Vec::new();
    status.encode(&mut bytes);
    let mut value = FRpcError::default();
    assert_eq!(FRpcErrorRpcCodec::decode(&mut Reader::new(&bytes), &mut value), Ok(()));
    assert_eq!(value.code, 4);
    assert_eq!(value.message, "Echo.Say needs a non-empty text");
}

#[test]
fn a_length_beyond_the_limit_is_refused() {
    let limits = Limits { max_string_len: 4, max_bytes_len: 2, max_array_count: 1 };
    let bytes = text_bytes("hello");
    let mut reader = Reader::with_limits(&bytes, limits);
    assert_eq!(reader.limits(), limits);
    assert_eq!(reader.read_string(), Err(DecodeError::LengthOverflow { length: 5, limit: 4 }));
    assert_eq!(reader.remaining(), bytes.len());
    let count = [2u8, 0, 0, 0];
    let mut reader = Reader::with_limits(&count, limits);
    assert_eq!(reader.read_array_count(), Err(DecodeError::LengthOverflow { length: 2, limit: 1 }));
    let mut reader = Reader::new(&count);
    assert!(!reader.field_absent());
    assert_eq!(reader.read_array_count(), Ok(2));
    assert!(reader.field_absent());
    assert_eq!(Limits::default(), Limits::unlimited());
}

#[test]
fn both_echo_encoders_agree() {
    for text in ["", "xin chao", "ünïcödé ✓"] {
        assert_eq!(encode_request(text), encode_echo(text));
        assert_eq!(encode_response(text), encode_echo_response(text));
    }
}

#[test]
fn every_runtime_scalar_reads_back() {
    let mut writer = Writer::new();
    writer.write_bool(true);
    writer.write_bool(false);
    writer.write_u8(0xAB);
    writer.write_i8(-2);
    writer.write_u16(0x1234);
    writer.write_i16(-3);
    writer.write_i32(-4);
    writer.write_u64(0x0102_0304_0506_0708);
    writer.write_i64(-5);
    let bytes = writer.into_bytes();
    assert_eq!(&bytes[..6], &[1, 0, 0xAB, 0xFE, 0x34, 0x12]);
    let mut reader = Reader::new(&bytes);
    let copy = reader.clone();
    assert_eq!(reader.read_bool(), Ok(true));
    assert_eq!(reader.read_bool(), Ok(false));
    assert_eq!(reader.read_u8(), Ok(0xAB));
    assert_eq!(reader.read_i8(), Ok(-2));
    assert_eq!(reader.read_u16(), Ok(0x1234));
    assert_eq!(reader.read_i16(), Ok(-3));
    assert_eq!(reader.read_i32(), Ok(-4));
    assert_eq!(reader.read_u64(), Ok(0x0102_0304_0506_0708));
    assert_eq!(reader.read_i64(), Ok(-5));
    assert!(reader.is_empty());
    assert_eq!(copy.position(), 0);
}

#[test]
fn a_bool_is_only_zero_or_one() {
    let bytes = [2u8];
    let mut reader = Reader::new(&bytes);
    assert_eq!(reader.read_bool(), Err(DecodeError::InvalidBool(2)));
    assert_eq!(reader.position(), 0);
    assert_eq!(reader.read_u64(), Err(DecodeError::UnexpectedEof { needed: 8, remaining: 1 }));
}
