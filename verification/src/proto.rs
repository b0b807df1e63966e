//! The demo protocol of the `Echo` service: its message ids and the codec
//! helpers a caller and a responder use.
use std::sync::Arc;
use vstd::prelude::*;
use fomoxa_rpc::Registry;
use vstd::utf8::encode_utf8;
use crate::message::{
    decoded, field_fits, fields_fit, text_message, u32_message, Field, Scalar,
};
use crate::models::echo::{
    CountItem, CountItemRpcCodec, CountRequest, CountRequestRpcCodec, EchoRequest,
    EchoRequestRpcCodec, EchoResponse, EchoResponseRpcCodec,
};
use crate::models::frpc::{
    FRpcCreditRpcCodec, FRpcErrorRpcCodec, FRpcReflectRequestRpcCodec,
    FRpcReflectResponseRpcCodec, FRpcVoidRpcCodec,
};
use crate::handlers::{Counter, Shout};
use crate::interop::{count_asked, say_reply_fits, say_text};
use crate::methods::{is_method, reflect_method_name, Method, RetrySafety, Shape};
use crate::registry::{build, declare_all, demo_contents, method_entry, registry_contents, MethodEntry};
use crate::status::{invalid_argument, CallStatus, INVALID_ARGUMENT};
use crate::text::{to_uppercase, uppercase, utf8_len};
use crate::wire::{fits_u32, Limits, Reader, Writer};

verus! {

pub const VOID_ID: u32 = FRpcVoidRpcCodec::MESSAGE_ID;
pub const ERROR_ID: u32 = FRpcErrorRpcCodec::MESSAGE_ID;
pub const CREDIT_ID: u32 = FRpcCreditRpcCodec::MESSAGE_ID;
pub const ECHO_REQUEST: u32 = EchoRequestRpcCodec::MESSAGE_ID;
pub const ECHO_RESPONSE: u32 = EchoResponseRpcCodec::MESSAGE_ID;
pub const COUNT_REQUEST: u32 = CountRequestRpcCodec::MESSAGE_ID;
pub const COUNT_ITEM: u32 = CountItemRpcCodec::MESSAGE_ID;
pub const REFLECT_REQUEST: u32 = FRpcReflectRequestRpcCodec::MESSAGE_ID;
pub const REFLECT_RESPONSE: u32 = FRpcReflectResponseRpcCodec::MESSAGE_ID;

/// The bytes of an `Echo.Say` request carrying `text`.
pub fn encode_request(text: &str) -> (bytes: Vec<u8>)
    requires
        fits_u32(encode_utf8(text@).len()),
    ensures
        bytes@ == text_message(text@),
{
    let mut writer = Writer::new();
    let value = EchoRequest { text: text.to_owned() };
    proof {
        assert(field_fits(value.fields()[0], EchoRequest::kinds()[0], Limits::spec_unlimited()));
    }
    EchoRequestRpcCodec::encode(&mut writer, &value);
    writer.into_bytes()
}

/// An `Echo.Say` request read from `bytes`; what cannot be read keeps its zero value.
pub fn decode_request(bytes: &[u8]) -> (value: EchoRequest)
    ensures
        value.fields() == decoded(EchoRequest::kinds(), bytes@, Limits::spec_unlimited()),
{
    let mut value = EchoRequest::default();
    let mut reader = Reader::new(bytes);
    let _ = EchoRequestRpcCodec::decode(&mut reader, &mut value);
    value
}

/// The bytes of an `Echo.Say` reply carrying `text`.
pub fn encode_response(text: &str) -> (bytes: Vec<u8>)
    requires
        fits_u32(encode_utf8(text@).len()),
    ensures
        bytes@ == text_message(text@),
{
    let mut writer = Writer::new();
    let value = EchoResponse { text: text.to_owned() };
    proof {
        assert(field_fits(value.fields()[0], EchoResponse::kinds()[0], Limits::spec_unlimited()));
    }
    EchoResponseRpcCodec::encode(&mut writer, &value);
    writer.into_bytes()
}

/// An `Echo.Say` reply read from `bytes`; what cannot be read keeps its zero value.
pub fn decode_response(bytes: &[u8]) -> (value: EchoResponse)
    ensures
        value.fields() == decoded(EchoResponse::kinds(), bytes@, Limits::spec_unlimited()),
{
    let mut value = EchoResponse::default();
    let mut reader = Reader::new(bytes);
    let _ = EchoResponseRpcCodec::decode(&mut reader, &mut value);
    value
}

/// The bytes of an `Echo.Count` request for `count` items.
pub fn encode_count(count: u32) -> (bytes: Vec<u8>)
    ensures
        bytes@ == u32_message(count),
{
    let mut writer = Writer::new();
    let value = CountRequest { count };
    CountRequestRpcCodec::encode(&mut writer, &value);
    writer.into_bytes()
}

/// An `Echo.Count` request read from `bytes`; what cannot be read keeps its zero value.
pub fn decode_count(bytes: &[u8]) -> (value: CountRequest)
    ensures
        value.fields() == decoded(CountRequest::kinds(), bytes@, Limits::spec_unlimited()),
{
    let mut value = CountRequest::default();
    let mut reader = Reader::new(bytes);
    let _ = CountRequestRpcCodec::decode(&mut reader, &mut value);
    value
}

/// The bytes of one `Echo.Count` item.
pub fn encode_item(value: u32) -> (bytes: Vec<u8>)
    ensures
        bytes@ == u32_message(value),
{
    let mut writer = Writer::new();
    let item = CountItem { value };
    CountItemRpcCodec::encode(&mut writer, &item);
    writer.into_bytes()
}

/// An `Echo.Count` item read from `bytes`; what cannot be read keeps its zero value.
pub fn decode_item(bytes: &[u8]) -> (value: CountItem)
    ensures
        value.fields() == decoded(CountItem::kinds(), bytes@, Limits::spec_unlimited()),
{
    let mut value = CountItem::default();
    let mut reader = Reader::new(bytes);
    let _ = CountItemRpcCodec::decode(&mut reader, &mut value);
    value
}

/// `Echo.Say`, unary.
pub fn say_method() -> (method: Method)
    ensures
        is_method(method, "Echo.Say"@, Shape::Unary, ECHO_REQUEST, None, ECHO_RESPONSE, RetrySafety::Unsafe),
{
    Method::unary("Echo.Say".to_string(), ECHO_REQUEST, ECHO_RESPONSE)
}

/// `Echo.Count`, a server stream.
pub fn count_method() -> (method: Method)
    ensures
        is_method(method, "Echo.Count"@, Shape::ServerStream, COUNT_REQUEST, None, COUNT_ITEM, RetrySafety::Unsafe),
{
    Method::server_stream("Echo.Count".to_string(), COUNT_REQUEST, COUNT_ITEM)
}

/// The two methods of the `Echo` service: `Echo.Say`, unary, and
/// `Echo.Count`, a server stream.
pub fn methods() -> (methods: [Method; 2])
    ensures
        is_method(methods[0], "Echo.Say"@, Shape::Unary, ECHO_REQUEST, None, ECHO_RESPONSE, RetrySafety::Unsafe),
        is_method(methods[1], "Echo.Count"@, Shape::ServerStream, COUNT_REQUEST, None, COUNT_ITEM, RetrySafety::Unsafe),
{
    [say_method(), count_method()]
}

/// The responder's handler for `Echo.Say`: an empty text is refused with
/// `INVALID_ARGUMENT`; any other is answered, upper-cased, when polled.
pub fn respond_say(body: &[u8]) -> (r: Result<Shout, CallStatus>)
    requires
        say_reply_fits(body@),
    ensures
        say_text(body@).len() == 0 <==> r is Err,
        r matches Err(status) ==> status.code == INVALID_ARGUMENT
            && status.message@ == "Echo.Say needs a non-empty text"@,
        r matches Ok(shout) ==> shout.pending() == Some(uppercase(say_text(body@))),
{
    let request = decode_request(body);
    if request.text.as_str().is_empty() {
        return Err(invalid_argument("Echo.Say needs a non-empty text"));
    }
    Ok(Shout::new(to_uppercase(request.text.as_str())))
}

/// `respond_say` where its reply can be written; `None` where it cannot.
pub fn checked_respond_say(body: &[u8]) -> (r: Option<Result<Shout, CallStatus>>)
    ensures
        r is None <==> !say_reply_fits(body@),
        r matches Some(answer) ==> {
            &&& say_text(body@).len() == 0 <==> answer is Err
            &&& answer matches Err(status) ==> status.code == INVALID_ARGUMENT
                && status.message@ == "Echo.Say needs a non-empty text"@
            &&& answer matches Ok(shout) ==> shout.pending() == Some(uppercase(say_text(body@)))
        },
{
    let request = decode_request(body);
    if !request.text.as_str().is_empty() {
        let upper = to_uppercase(request.text.as_str());
        if utf8_len(upper.as_str()) > 0xFFFF_FFFF {
            return None;
        }
    }
    Some(respond_say(body))
}

/// The responder's handler for `Echo.Count`: more than 100 items are
/// refused with `INVALID_ARGUMENT`; otherwise a counter up to the count.
pub fn respond_count(body: &[u8]) -> (r: Result<Counter, CallStatus>)
    ensures
        count_asked(body@) > 100 <==> r is Err,
        r matches Err(status) ==> status.code == INVALID_ARGUMENT
            && status.message@ == "Echo.Count is capped at 100"@,
        r matches Ok(counter) ==> counter.next == 0 && counter.count == count_asked(body@),
{
    let request = decode_count(body);
    if request.count > 100 {
        return Err(invalid_argument("Echo.Count is capped at 100"));
    }
    Ok(Counter::new(request.count))
}

/// The methods the `Echo` caller declares, in order, none of them served.
pub open spec fn caller_methods() -> Seq<MethodEntry> {
    seq![
        ("FRpc.Reflect"@, Shape::Unary, REFLECT_REQUEST, None::<u32>, REFLECT_RESPONSE, RetrySafety::Unsafe, false),
        ("Echo.Say"@, Shape::Unary, ECHO_REQUEST, None::<u32>, ECHO_RESPONSE, RetrySafety::Unsafe, false),
        ("Echo.Count"@, Shape::ServerStream, COUNT_REQUEST, None::<u32>, COUNT_ITEM, RetrySafety::Unsafe, false),
    ]
}

/// The `Echo` caller's registry: reflection and `Echo.Say`, unary, then
/// `Echo.Count`, a server stream, each declared with its name, ids and retry
/// safety and served by no handler, with the demo's void, error and credit
/// ids. It always builds.
pub fn caller_registry() -> (registry: Arc<Registry>)
    ensures
        registry_contents(*registry) == demo_contents(caller_methods()),
{
    let mut declared = Vec::new();
    declared.push(Method::unary(reflect_method_name(), REFLECT_REQUEST, REFLECT_RESPONSE));
    declared.push(say_method());
    declared.push(count_method());
    proof {
        assert(declared@.map_values(|m: Method| method_entry(m)) =~= caller_methods());
    }
    let builder = declare_all(declared);
    let built = build(builder);
    Arc::new(built.unwrap())
}

} // verus!
