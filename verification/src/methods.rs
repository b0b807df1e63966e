//! The methods a peer declares and serves: their shapes, message ids and
//! retry safety, and the codes reflection gives them.
use vstd::prelude::*;

verus! {

/// Who streams in a call.
#[derive(Debug, Clone, Copy, PartialEq, Eq)]
pub enum Shape {
    Unary,
    ServerStream,
    ClientStream,
    BidiStream,
}

/// Whether a call may be retried when its outcome is unknown.
#[derive(Debug, Clone, Copy, PartialEq, Eq)]
pub enum RetrySafety {
    Unsafe,
    Idempotent,
    Keyed,
}

/// A method: its name, its shape, the message ids it uses and its retry safety.
#[derive(Debug, Clone)]
pub struct Method {
    pub name: String,
    pub shape: Shape,
    pub request_id: u32,
    pub request_item_id: Option<u32>,
    pub reply_id: u32,
    pub retry_safety: RetrySafety,
}

/// The code reflection gives a shape.
pub open spec fn shape_code_spec(shape: Shape) -> u32 {
    match shape {
        Shape::Unary => 0,
        Shape::ServerStream => 1,
        Shape::ClientStream => 2,
        Shape::BidiStream => 3,
    }
}

/// The code reflection gives a retry safety.
pub open spec fn retry_code_spec(safety: RetrySafety) -> u32 {
    match safety {
        RetrySafety::Unsafe => 0,
        RetrySafety::Idempotent => 1,
        RetrySafety::Keyed => 2,
    }
}

/// `fomoxa_rpc::reflect::shape_code` maps the four shapes to
/// 0, 1, 2 and 3, in declaration order.
#[verifier::external_body]
pub(crate) fn shape_code(shape: Shape) -> (code: u32)
    ensures
        code == shape_code_spec(shape),
{
    fomoxa_rpc::reflect::shape_code(match shape {
        Shape::Unary => fomoxa_rpc::Shape::Unary,
        Shape::ServerStream => fomoxa_rpc::Shape::ServerStream,
        Shape::ClientStream => fomoxa_rpc::Shape::ClientStream,
        Shape::BidiStream => fomoxa_rpc::Shape::BidiStream,
    })
}

/// `fomoxa_rpc::reflect::retry_code` maps the three retry
/// safeties to 0, 1 and 2, in declaration order.
#[verifier::external_body]
pub(crate) fn retry_code(safety: RetrySafety) -> (code: u32)
    ensures
        code == retry_code_spec(safety),
{
    fomoxa_rpc::reflect::retry_code(match safety {
        RetrySafety::Unsafe => fomoxa_rpc::RetrySafety::Unsafe,
        RetrySafety::Idempotent => fomoxa_rpc::RetrySafety::Idempotent,
        RetrySafety::Keyed => fomoxa_rpc::RetrySafety::Keyed,
    })
}

/// Whether `method` is the method with these parts.
pub open spec fn is_method(
    method: Method,
    name: Seq<char>,
    shape: Shape,
    request_id: u32,
    request_item_id: Option<u32>,
    reply_id: u32,
    retry_safety: RetrySafety,
) -> bool {
    &&& method.name@ == name
    &&& method.shape == shape
    &&& method.request_id == request_id
    &&& method.request_item_id == request_item_id
    &&& method.reply_id == reply_id
    &&& method.retry_safety == retry_safety
}

/// `fomoxa_rpc::reflect::METHOD_NAME`, the name reflection is served
/// under, defined as `"FRpc.Reflect"`.
#[verifier::external_body]
pub(crate) fn reflect_method_name() -> (name: String)
    ensures
        name@ == "FRpc.Reflect"@,
{
    fomoxa_rpc::reflect::METHOD_NAME.to_owned()
}

impl Method {
    /// A call with one request and one response.
    pub fn unary(name: String, request_id: u32, response_id: u32) -> (method: Method)
        ensures
            method.name == name,
            method.shape == Shape::Unary,
            method.request_id == request_id,
            method.request_item_id == None::<u32>,
            method.reply_id == response_id,
            method.retry_safety == RetrySafety::Unsafe,
    {
        Method {
            name,
            shape: Shape::Unary,
            request_id,
            request_item_id: None,
            reply_id: response_id,
            retry_safety: RetrySafety::Unsafe,
        }
    }

    /// A call with one request and a stream of items back.
    pub fn server_stream(name: String, request_id: u32, item_id: u32) -> (method: Method)
        ensures
            method.name == name,
            method.shape == Shape::ServerStream,
            method.request_id == request_id,
            method.request_item_id == None::<u32>,
            method.reply_id == item_id,
            method.retry_safety == RetrySafety::Unsafe,
    {
        Method {
            name,
            shape: Shape::ServerStream,
            request_id,
            request_item_id: None,
            reply_id: item_id,
            retry_safety: RetrySafety::Unsafe,
        }
    }

    /// A call with a request, a stream of items from the caller, and one response.
    pub fn client_stream(name: String, request_id: u32, request_item_id: u32, response_id: u32) -> (method: Method)
        ensures
            method.name == name,
            method.shape == Shape::ClientStream,
            method.request_id == request_id,
            method.request_item_id == Some(request_item_id),
            method.reply_id == response_id,
            method.retry_safety == RetrySafety::Unsafe,
    {
        Method {
            name,
            shape: Shape::ClientStream,
            request_id,
            request_item_id: Some(request_item_id),
            reply_id: response_id,
            retry_safety: RetrySafety::Unsafe,
        }
    }

    /// A call with items streaming both ways.
    pub fn bidi_stream(name: String, request_id: u32, request_item_id: u32, reply_item_id: u32) -> (method: Method)
        ensures
            method.name == name,
            method.shape == Shape::BidiStream,
            method.request_id == request_id,
            method.request_item_id == Some(request_item_id),
            method.reply_id == reply_item_id,
            method.retry_safety == RetrySafety::Unsafe,
    {
        Method {
            name,
            shape: Shape::BidiStream,
            request_id,
            request_item_id: Some(request_item_id),
            reply_id: reply_item_id,
            retry_safety: RetrySafety::Unsafe,
        }
    }

    /// The same method, safe to retry.
    pub fn idempotent(self) -> (method: Method)
        ensures
            method.name == self.name,
            method.shape == self.shape,
            method.request_id == self.request_id,
            method.request_item_id == self.request_item_id,
            method.reply_id == self.reply_id,
            method.retry_safety == RetrySafety::Idempotent,
    {
        Method { retry_safety: RetrySafety::Idempotent, ..self }
    }

    /// The id of the messages the caller sends: its item id when it streams,
    /// else its request id.
    pub open spec fn caller_item_id_spec(&self) -> u32 {
        match self.request_item_id {
            Some(id) => id,
            None => self.request_id,
        }
    }

    /// The id of the messages the caller sends: its item id when it streams,
    /// else its request id.
    pub fn caller_item_id(&self) -> (id: u32)
        ensures
            id == self.caller_item_id_spec(),
    {
        match self.request_item_id {
            Some(id) => id,
            None => self.request_id,
        }
    }
}

} // verus!
