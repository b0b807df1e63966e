//! The fRPC interoperability peer: the codec helpers of its demo calls, the
//! methods it declares, and what its responder answers.
use vstd::prelude::*;
use vstd::utf8::encode_utf8;
use crate::message::{
    decoded, field_fits, message_wire, text_at, text_message, u32_at, u32_message, Field,
};
use crate::models::echo::{
    CountItem, CountItemRpcCodec, CountRequest, CountRequestRpcCodec, EchoRequest,
    EchoRequestRpcCodec, EchoResponse, EchoResponseRpcCodec,
};
use crate::models::frpc::{
    FRpcCtxRpcCodec, FRpcReflectRequest, FRpcReflectRequestRpcCodec, FRpcReflectResponse,
    FRpcReflectResponseRpcCodec,
};
use crate::models::stream::{
    ChatHeard, ChatHeardRpcCodec, ChatOpen, ChatOpenRpcCodec, ChatSaid, ChatSaidRpcCodec,
    TicksItem, TicksItemRpcCodec, TicksRequest, TicksRequestRpcCodec, UploadChunk,
    UploadChunkRpcCodec, UploadDone, UploadDoneRpcCodec, UploadOpen, UploadOpenRpcCodec,
};
use crate::handlers::Counter;
use crate::methods::{is_method, reflect_method_name, Method, RetrySafety, Shape};
use crate::status::{invalid_argument, CallStatus, INVALID_ARGUMENT};
use crate::text::{to_uppercase, uppercase, utf8_len};
use crate::wire::{fits_u32, Limits, Reader, Writer};

verus! {

/// The bytes of an `Echo.Say` request carrying `text`.
pub fn encode_echo(text: &str) -> (bytes: Vec<u8>)
    requires
        fits_u32(encode_utf8(text@).len()),
    ensures
        bytes@ == text_message(text@),
{
    let mut writer = Writer::new();
    let value = EchoRequest { text: text.to_owned() };
    proof {
        assert(field_fits(value.fields()[0], EchoRequest::kinds()[0], Limits::spec_unlimited()));
    }
    EchoRequestRpcCodec::encode(&mut writer, &value);
    writer.into_bytes()
}

/// The bytes of an `Echo.Say` reply carrying `text`.
pub fn encode_echo_response(text: &str) -> (bytes: Vec<u8>)
    requires
        fits_u32(encode_utf8(text@).len()),
    ensures
        bytes@ == text_message(text@),
{
    let mut writer = Writer::new();
    let value = EchoResponse { text: text.to_owned() };
    proof {
        assert(field_fits(value.fields()[0], EchoResponse::kinds()[0], Limits::spec_unlimited()));
    }
    EchoResponseRpcCodec::encode(&mut writer, &value);
    writer.into_bytes()
}

/// The bytes of an `Echo.Count` request for `count` items.
pub fn encode_count(count: u32) -> (bytes: Vec<u8>)
    ensures
        bytes@ == u32_message(count),
{
    let mut writer = Writer::new();
    let value = CountRequest { count };
    CountRequestRpcCodec::encode(&mut writer, &value);
    writer.into_bytes()
}

/// The bytes of one `Echo.Count` item.
pub fn encode_count_item(value: u32) -> (bytes: Vec<u8>)
    ensures
        bytes@ == u32_message(value),
{
    let mut writer = Writer::new();
    let value = CountItem { value };
    CountItemRpcCodec::encode(&mut writer, &value);
    writer.into_bytes()
}

/// The bytes of a `Blob.Upload` request naming what is uploaded.
pub fn encode_upload_open(text: &str) -> (bytes: Vec<u8>)
    requires
        fits_u32(encode_utf8(text@).len()),
    ensures
        bytes@ == text_message(text@),
{
    let mut writer = Writer::new();
    let value = UploadOpen { name: text.to_owned() };
    proof {
        assert(field_fits(value.fields()[0], UploadOpen::kinds()[0], Limits::spec_unlimited()));
    }
    UploadOpenRpcCodec::encode(&mut writer, &value);
    writer.into_bytes()
}

/// The bytes of one upload chunk of `size` bytes.
pub fn encode_chunk(size: u32) -> (bytes: Vec<u8>)
    ensures
        bytes@ == u32_message(size),
{
    let mut writer = Writer::new();
    let value = UploadChunk { size };
    UploadChunkRpcCodec::encode(&mut writer, &value);
    writer.into_bytes()
}

/// The bytes of an upload's summary reply.
pub fn encode_done(text: &str) -> (bytes: Vec<u8>)
    requires
        fits_u32(encode_utf8(text@).len()),
    ensures
        bytes@ == text_message(text@),
{
    let mut writer = Writer::new();
    let value = UploadDone { summary: text.to_owned() };
    proof {
        assert(field_fits(value.fields()[0], UploadDone::kinds()[0], Limits::spec_unlimited()));
    }
    UploadDoneRpcCodec::encode(&mut writer, &value);
    writer.into_bytes()
}

/// The bytes of a `Room.Chat` request for `room`.
pub fn encode_room(text: &str) -> (bytes: Vec<u8>)
    requires
        fits_u32(encode_utf8(text@).len()),
    ensures
        bytes@ == text_message(text@),
{
    let mut writer = Writer::new();
    let value = ChatOpen { room: text.to_owned() };
    proof {
        assert(field_fits(value.fields()[0], ChatOpen::kinds()[0], Limits::spec_unlimited()));
    }
    ChatOpenRpcCodec::encode(&mut writer, &value);
    writer.into_bytes()
}

/// The bytes of one line said into a chat.
pub fn encode_said(text: &str) -> (bytes: Vec<u8>)
    requires
        fits_u32(encode_utf8(text@).len()),
    ensures
        bytes@ == text_message(text@),
{
    let mut writer = Writer::new();
    let value = ChatSaid { line: text.to_owned() };
    proof {
        assert(field_fits(value.fields()[0], ChatSaid::kinds()[0], Limits::spec_unlimited()));
    }
    ChatSaidRpcCodec::encode(&mut writer, &value);
    writer.into_bytes()
}

/// The bytes of one line heard back from a chat.
pub fn encode_heard(text: &str) -> (bytes: Vec<u8>)
    requires
        fits_u32(encode_utf8(text@).len()),
    ensures
        bytes@ == text_message(text@),
{
    let mut writer = Writer::new();
    let value = ChatHeard { line: text.to_owned() };
    proof {
        assert(field_fits(value.fields()[0], ChatHeard::kinds()[0], Limits::spec_unlimited()));
    }
    ChatHeardRpcCodec::encode(&mut writer, &value);
    writer.into_bytes()
}

/// The bytes of one tick.
pub fn encode_tick(value: u32) -> (bytes: Vec<u8>)
    ensures
        bytes@ == u32_message(value),
{
    let mut writer = Writer::new();
    let value = TicksItem { value };
    TicksItemRpcCodec::encode(&mut writer, &value);
    writer.into_bytes()
}

/// The text of an `Echo.Say` request read from `bytes`; empty when it cannot be read.
pub fn decode_echo(bytes: &[u8]) -> (text: String)
    ensures
        text@ == text_at(decoded(EchoRequest::kinds(), bytes@, Limits::spec_unlimited()), 0),
{
    let mut value = EchoRequest::default();
    let mut reader = Reader::new(bytes);
    let _ = EchoRequestRpcCodec::decode(&mut reader, &mut value);
    value.text
}

/// The text of an `Echo.Say` reply read from `bytes`; empty when it cannot be read.
pub fn decode_echo_response(bytes: &[u8]) -> (text: String)
    ensures
        text@ == text_at(decoded(EchoResponse::kinds(), bytes@, Limits::spec_unlimited()), 0),
{
    let mut value = EchoResponse::default();
    let mut reader = Reader::new(bytes);
    let _ = EchoResponseRpcCodec::decode(&mut reader, &mut value);
    value.text
}

/// The count of an `Echo.Count` request read from `bytes`; 0 when it cannot be read.
pub fn decode_count(bytes: &[u8]) -> (value: u32)
    ensures
        value == u32_at(decoded(CountRequest::kinds(), bytes@, Limits::spec_unlimited()), 0),
{
    let mut value = CountRequest::default();
    let mut reader = Reader::new(bytes);
    let _ = CountRequestRpcCodec::decode(&mut reader, &mut value);
    value.count
}

/// The value of an `Echo.Count` item read from `bytes`; 0 when it cannot be read.
pub fn decode_count_item(bytes: &[u8]) -> (value: u32)
    ensures
        value == u32_at(decoded(CountItem::kinds(), bytes@, Limits::spec_unlimited()), 0),
{
    let mut value = CountItem::default();
    let mut reader = Reader::new(bytes);
    let _ = CountItemRpcCodec::decode(&mut reader, &mut value);
    value.value
}

/// The size of an upload chunk read from `bytes`; 0 when it cannot be read.
pub fn decode_chunk(bytes: &[u8]) -> (value: u32)
    ensures
        value == u32_at(decoded(UploadChunk::kinds(), bytes@, Limits::spec_unlimited()), 0),
{
    let mut value = UploadChunk::default();
    let mut reader = Reader::new(bytes);
    let _ = UploadChunkRpcCodec::decode(&mut reader, &mut value);
    value.size
}

/// The summary of an upload reply read from `bytes`; empty when it cannot be read.
pub fn decode_done(bytes: &[u8]) -> (text: String)
    ensures
        text@ == text_at(decoded(UploadDone::kinds(), bytes@, Limits::spec_unlimited()), 0),
{
    let mut value = UploadDone::default();
    let mut reader = Reader::new(bytes);
    let _ = UploadDoneRpcCodec::decode(&mut reader, &mut value);
    value.summary
}

/// The line said into a chat read from `bytes`; empty when it cannot be read.
pub fn decode_said(bytes: &[u8]) -> (text: String)
    ensures
        text@ == text_at(decoded(ChatSaid::kinds(), bytes@, Limits::spec_unlimited()), 0),
{
    let mut value = ChatSaid::default();
    let mut reader = Reader::new(bytes);
    let _ = ChatSaidRpcCodec::decode(&mut reader, &mut value);
    value.line
}

/// The line heard back from a chat read from `bytes`; empty when it cannot be read.
pub fn decode_heard(bytes: &[u8]) -> (text: String)
    ensures
        text@ == text_at(decoded(ChatHeard::kinds(), bytes@, Limits::spec_unlimited()), 0),
{
    let mut value = ChatHeard::default();
    let mut reader = Reader::new(bytes);
    let _ = ChatHeardRpcCodec::decode(&mut reader, &mut value);
    value.line
}

/// The value of a tick read from `bytes`; 0 when it cannot be read.
pub fn decode_tick(bytes: &[u8]) -> (value: u32)
    ensures
        value == u32_at(decoded(TicksItem::kinds(), bytes@, Limits::spec_unlimited()), 0),
{
    let mut value = TicksItem::default();
    let mut reader = Reader::new(bytes);
    let _ = TicksItemRpcCodec::decode(&mut reader, &mut value);
    value.value
}
/// The bytes of a `Clock.Ticks` request, which has no fields.
pub fn encode_ticks_request() -> (bytes: Vec<u8>)
    ensures
        bytes@ == message_wire(Seq::<Field>::empty()),
{
    let mut writer = Writer::new();
    let value = TicksRequest {};
    TicksRequestRpcCodec::encode(&mut writer, &value);
    writer.into_bytes()
}

/// The bytes of a `FRpc.Reflect` request, which has no fields.
pub fn encode_reflect_request() -> (bytes: Vec<u8>)
    ensures
        bytes@ == message_wire(Seq::<Field>::empty()),
{
    let mut writer = Writer::new();
    let value = FRpcReflectRequest {};
    FRpcReflectRequestRpcCodec::encode(&mut writer, &value);
    writer.into_bytes()
}

/// A reflection reply read from `bytes`; what cannot be read keeps its zero value.
pub fn decode_reflect_response(bytes: &[u8]) -> (value: FRpcReflectResponse)
    ensures
        value.fields() == decoded(FRpcReflectResponse::kinds(), bytes@, Limits::spec_unlimited()),
{
    let mut value = FRpcReflectResponse::default();
    let mut reader = Reader::new(bytes);
    let _ = FRpcReflectResponseRpcCodec::decode(&mut reader, &mut value);
    value
}

/// The text of an `Echo.Say` request body.
pub open spec fn say_text(body: Seq<u8>) -> Seq<char> {
    text_at(decoded(EchoRequest::kinds(), body, Limits::spec_unlimited()), 0)
}

/// Whether the reply to an `Echo.Say` request can be written: the request
/// is refused, or the upper-case form of its text fits a wire length.
pub open spec fn say_reply_fits(body: Seq<u8>) -> bool {
    say_text(body).len() > 0 ==> fits_u32(encode_utf8(uppercase(say_text(body))).len())
}

/// The count an `Echo.Count` request body asks for.
pub open spec fn count_asked(body: Seq<u8>) -> u32 {
    u32_at(decoded(CountRequest::kinds(), body, Limits::spec_unlimited()), 0)
}

/// The responder's answer to `Echo.Say`: an empty text is refused with
/// `INVALID_ARGUMENT`; any other comes back upper-cased.
pub fn answer_say(body: &[u8]) -> (r: Result<Vec<u8>, CallStatus>)
    requires
        say_reply_fits(body@),
    ensures
        say_text(body@).len() == 0 <==> r is Err,
        r matches Err(status) ==> status.code == INVALID_ARGUMENT
            && status.message@ == "Echo.Say needs a non-empty text"@,
        r matches Ok(reply) ==> reply@ == text_message(uppercase(say_text(body@))),
{
    let text = decode_echo(body);
    if text.as_str().is_empty() {
        return Err(invalid_argument("Echo.Say needs a non-empty text"));
    }
    let upper = to_uppercase(text.as_str());
    Ok(encode_echo_response(upper.as_str()))
}

/// `answer_say` where its reply can be written; `None` where it cannot.
pub fn checked_answer_say(body: &[u8]) -> (r: Option<Result<Vec<u8>, CallStatus>>)
    ensures
        r is None <==> !say_reply_fits(body@),
        r matches Some(answer) ==> {
            &&& say_text(body@).len() == 0 <==> answer is Err
            &&& answer matches Err(status) ==> status.code == INVALID_ARGUMENT
                && status.message@ == "Echo.Say needs a non-empty text"@
            &&& answer matches Ok(reply) ==> reply@ == text_message(uppercase(say_text(body@)))
        },
{
    let text = decode_echo(body);
    if !text.as_str().is_empty() {
        let upper = to_uppercase(text.as_str());
        if utf8_len(upper.as_str()) > 0xFFFF_FFFF {
            return None;
        }
    }
    Some(answer_say(body))
}

/// The responder's answer to `Echo.Count`: more than 100 items are refused
/// with `INVALID_ARGUMENT`; otherwise a counter up to the count asked.
pub fn answer_count(body: &[u8]) -> (r: Result<Counter, CallStatus>)
    ensures
        count_asked(body@) > 100 <==> r is Err,
        r matches Err(status) ==> status.code == INVALID_ARGUMENT
            && status.message@ == "Echo.Count is capped at 100"@,
        r matches Ok(counter) ==> counter.next == 0 && counter.count == count_asked(body@),
{
    let count = decode_count(body);
    if count > 100 {
        return Err(invalid_argument("Echo.Count is capped at 100"));
    }
    Ok(Counter::new(count))
}

/// Whether `m` is `Echo.Say`: unary, from an `EchoRequest` to an `EchoResponse`.
pub open spec fn is_say(m: Method) -> bool {
    is_method(m, "Echo.Say"@, Shape::Unary, EchoRequestRpcCodec::MESSAGE_ID, None,
        EchoResponseRpcCodec::MESSAGE_ID, RetrySafety::Unsafe)
}

/// Whether `m` is `Echo.Count`: a server stream of `CountItem`s for a `CountRequest`.
pub open spec fn is_count(m: Method) -> bool {
    is_method(m, "Echo.Count"@, Shape::ServerStream, CountRequestRpcCodec::MESSAGE_ID, None,
        CountItemRpcCodec::MESSAGE_ID, RetrySafety::Unsafe)
}

/// Whether `m` is `Blob.Upload`: a client stream of `UploadChunk`s after an
/// `UploadOpen`, answered by an `UploadDone`.
pub open spec fn is_upload(m: Method) -> bool {
    is_method(m, "Blob.Upload"@, Shape::ClientStream, UploadOpenRpcCodec::MESSAGE_ID,
        Some(UploadChunkRpcCodec::MESSAGE_ID), UploadDoneRpcCodec::MESSAGE_ID, RetrySafety::Unsafe)
}

/// Whether `m` is `Room.Chat`: after a `ChatOpen`, `ChatSaid`s one way and
/// `ChatHeard`s the other.
pub open spec fn is_chat(m: Method) -> bool {
    is_method(m, "Room.Chat"@, Shape::BidiStream, ChatOpenRpcCodec::MESSAGE_ID,
        Some(ChatSaidRpcCodec::MESSAGE_ID), ChatHeardRpcCodec::MESSAGE_ID, RetrySafety::Unsafe)
}

/// Whether `m` is `Clock.Ticks`: a server stream of `TicksItem`s for a `TicksRequest`.
pub open spec fn is_ticks(m: Method) -> bool {
    is_method(m, "Clock.Ticks"@, Shape::ServerStream, TicksRequestRpcCodec::MESSAGE_ID, None,
        TicksItemRpcCodec::MESSAGE_ID, RetrySafety::Unsafe)
}

/// Whether `m` is reflection, unary, with the given retry safety.
pub open spec fn is_reflect(m: Method, retry_safety: RetrySafety) -> bool {
    is_method(m, "FRpc.Reflect"@, Shape::Unary, FRpcReflectRequestRpcCodec::MESSAGE_ID, None,
        FRpcReflectResponseRpcCodec::MESSAGE_ID, retry_safety)
}

/// Whether `m` is `Echo.Missing`, which no responder serves.
pub open spec fn is_missing(m: Method) -> bool {
    is_method(m, "Echo.Missing"@, Shape::Unary, FRpcCtxRpcCodec::MESSAGE_ID, None,
        EchoResponseRpcCodec::MESSAGE_ID, RetrySafety::Unsafe)
}

/// `Echo.Say`.
pub fn say() -> (method: Method)
    ensures
        is_say(method),
{
    Method::unary("Echo.Say".to_string(), EchoRequestRpcCodec::MESSAGE_ID, EchoResponseRpcCodec::MESSAGE_ID)
}

/// `Echo.Count`.
pub fn count() -> (method: Method)
    ensures
        is_count(method),
{
    Method::server_stream("Echo.Count".to_string(), CountRequestRpcCodec::MESSAGE_ID, CountItemRpcCodec::MESSAGE_ID)
}

/// `Blob.Upload`.
pub fn upload() -> (method: Method)
    ensures
        is_upload(method),
{
    Method::client_stream(
        "Blob.Upload".to_string(),
        UploadOpenRpcCodec::MESSAGE_ID,
        UploadChunkRpcCodec::MESSAGE_ID,
        UploadDoneRpcCodec::MESSAGE_ID,
    )
}

/// `Room.Chat`.
pub fn chat() -> (method: Method)
    ensures
        is_chat(method),
{
    Method::bidi_stream(
        "Room.Chat".to_string(),
        ChatOpenRpcCodec::MESSAGE_ID,
        ChatSaidRpcCodec::MESSAGE_ID,
        ChatHeardRpcCodec::MESSAGE_ID,
    )
}

/// `Clock.Ticks`.
pub fn ticks() -> (method: Method)
    ensures
        is_ticks(method),
{
    Method::server_stream("Clock.Ticks".to_string(), TicksRequestRpcCodec::MESSAGE_ID, TicksItemRpcCodec::MESSAGE_ID)
}

/// Reflection, under the name `fomoxa_rpc` serves it by.
pub fn reflect_method() -> (method: Method)
    ensures
        is_reflect(method, RetrySafety::Unsafe),
{
    Method::unary(
        reflect_method_name(),
        FRpcReflectRequestRpcCodec::MESSAGE_ID,
        FRpcReflectResponseRpcCodec::MESSAGE_ID,
    )
}

/// `Echo.Missing`.
pub fn missing() -> (method: Method)
    ensures
        is_missing(method),
{
    Method::unary("Echo.Missing".to_string(), FRpcCtxRpcCodec::MESSAGE_ID, EchoResponseRpcCodec::MESSAGE_ID)
}

/// The methods the driver declares, in the order it declares them.
pub fn declared_methods() -> (methods: Vec<Method>)
    ensures
        methods@.len() == 7,
        is_reflect(methods@[0], RetrySafety::Unsafe),
        is_say(methods@[1]),
        is_count(methods@[2]),
        is_upload(methods@[3]),
        is_chat(methods@[4]),
        is_ticks(methods@[5]),
        is_missing(methods@[6]),
{
    let mut methods = Vec::new();
    methods.push(reflect_method());
    methods.push(say());
    methods.push(count());
    methods.push(upload());
    methods.push(chat());
    methods.push(ticks());
    methods.push(missing());
    methods
}

/// The methods a responder with reflection lists: the five it serves and
/// reflection itself, which is safe to retry.
pub fn reflected_methods() -> (methods: Vec<Method>)
    ensures
        methods@.len() == 6,
        is_say(methods@[0]),
        is_count(methods@[1]),
        is_upload(methods@[2]),
        is_chat(methods@[3]),
        is_ticks(methods@[4]),
        is_reflect(methods@[5], RetrySafety::Idempotent),
{
    let mut methods = Vec::new();
    methods.push(say());
    methods.push(count());
    methods.push(upload());
    methods.push(chat());
    methods.push(ticks());
    methods.push(reflect_method().idempotent());
    methods
}

} // verus!
