use std::sync::Arc;
use std::time::Instant;

use fomoxa_rpc::queue::Delivery;
use fomoxa_rpc::{CallId, CallOptions, Config, Handler, Immediate, Outcome, Progress, Registry, Role, RpcCore, Status};

use fomoxa_interop::drive::{
    chat_echoed, check_reflection, count_step, failed_with, say_uppercased, upload_summarised,
    Outcome as Seen, ReflectionVerdict, Verdict,
};
use fomoxa_interop::handlers::{Chat, Counter, Shout, Step, Ticks, Upload};
use fomoxa_interop::proto::{caller_registry, checked_respond_say, decode_response, encode_request, methods, respond_count};
use fomoxa_interop::interop::{
    answer_count, chat, checked_answer_say, count, encode_chunk, encode_count, encode_echo,
    encode_reflect_request, encode_room, encode_said, encode_upload_open, say, ticks, upload,
};
use fomoxa_interop::methods::{Method, RetrySafety, Shape};
use fomoxa_interop::registry::driver_registry;
use fomoxa_interop::status::{CallStatus, INVALID_ARGUMENT, UNIMPLEMENTED};

const SCHEMA_TEXT: &str = "{\"fingerprint_u64\": \"0xB8F0E2543FC9C60D\"}";

fn outside_method(method: Method) -> fomoxa_rpc::Method {
    let shape = match method.shape {
        Shape::Unary => fomoxa_rpc::Shape::Unary,
        Shape::ServerStream => fomoxa_rpc::Shape::ServerStream,
        Shape::ClientStream => fomoxa_rpc::Shape::ClientStream,
        Shape::BidiStream => fomoxa_rpc::Shape::BidiStream,
    };
    let retry_safety = match method.retry_safety {
        RetrySafety::Unsafe => fomoxa_rpc::RetrySafety::Unsafe,
        RetrySafety::Idempotent => fomoxa_rpc::RetrySafety::Idempotent,
        RetrySafety::Keyed => fomoxa_rpc::RetrySafety::Keyed,
    };
    fomoxa_rpc::Method {
        name: method.name,
        shape,
        request_id: method.request_id,
        request_item_id: method.request_item_id,
        reply_id: method.reply_id,
        permission: None,
        retry_safety,
        idle_limit: None,
    }
}

fn outside_status(status: CallStatus) -> Status {
    Status::new(status.code, status.message)
}

fn progress(step: Step) -> Progress {
    match step {
        Step::Pending => Progress::Pending,
        Step::Respond(body) => Progress::Respond(body),
        Step::Item(body) => Progress::Item(body),
        Step::End => Progress::End,
        Step::Fail(status) => Progress::Fail(outside_status(status)),
    }
}

fn seen(outcome: &Outcome) -> Seen {
    match outcome {
        Outcome::Response { body, .. } => Seen::Response(body.clone()),
        Outcome::Item { body, .. } => Seen::Item(body.clone()),
        Outcome::End { .. } => Seen::End,
        Outcome::Failed { status, .. } => Seen::Failed(CallStatus { code: status.code, message: status.message.clone() }),
    }
}

struct CounterHandler(Counter);
impl Handler for CounterHandler {
    fn poll(&mut self, _now: Instant) -> Progress {
        progress(self.0.poll())
    }
}

struct UploadHandler(Upload);
impl Handler for UploadHandler {
    fn poll(&mut self, _now: Instant) -> Progress {
        progress(self.0.poll())
    }
    fn item(&mut self, body: &[u8]) -> Result<(), Status> {
        self.0.item(body).map_err(outside_status)
    }
    fn end_of_stream(&mut self) {
        self.0.end_of_stream();
    }
}

struct ChatHandler(Chat);
impl Handler for ChatHandler {
    fn poll(&mut self, _now: Instant) -> Progress {
        progress(self.0.poll())
    }
    fn item(&mut self, body: &[u8]) -> Result<(), Status> {
        self.0.checked_item(body).expect("fits").map_err(outside_status)
    }
    fn end_of_stream(&mut self) {
        self.0.end_of_stream();
    }
}

struct TicksHandler(Ticks);
impl Handler for TicksHandler {
    fn poll(&mut self, _now: Instant) -> Progress {
        progress(self.0.poll())
    }
}

fn responder() -> Arc<Registry> {
    let builder = Registry::builder(0xD4A891C4, 0xBF94ECC4)
        .credit(0x789A010F)
        .serve(outside_method(say()), |_, body| match checked_answer_say(body).expect("fits") {
            Ok(reply) => Ok(Immediate::respond(reply)),
            Err(status) => Err(outside_status(status)),
        })
        .serve(outside_method(count()), |_, body| match answer_count(body) {
            Ok(counter) => Ok(Box::new(CounterHandler(counter)) as Box<dyn Handler>),
            Err(status) => Err(outside_status(status)),
        })
        .serve(outside_method(upload()), |_, _| Ok(Box::new(UploadHandler(Upload::new()))))
        .serve(outside_method(chat()), |_, _| Ok(Box::new(ChatHandler(Chat::new()))))
        .serve(outside_method(ticks()), |_, _| Ok(Box::new(TicksHandler(Ticks::new()))))
        .reflection(0x9C0C80F3, 0xD42A8CD7, SCHEMA_TEXT);
    Arc::new(builder.build().expect("responder"))
}

struct Pair {
    client: RpcCore,
    server: RpcCore,
    now: Instant,
    outcomes: Vec<Outcome>,
}

impl Pair {
    fn new() -> Pair {
        let mut client = RpcCore::new(driver_registry(), Role::Client, Config::default());
        let mut server = RpcCore::new(responder(), Role::Server, Config::default());
        client.on_ready();
        server.on_ready();
        Pair { client, server, now: Instant::now(), outcomes: Vec::new() }
    }

    fn exchange(&mut self) {
        for _ in 0..8 {
            let mut to_server = Vec::new();
            self.client.drain(|id, payload| {
                to_server.push((id, payload.to_vec()));
                Delivery::Accepted
            });
            for (id, payload) in to_server {
                self.server.on_message(id, &payload, self.now);
            }
            self.server.tick(self.now);
            let mut to_client = Vec::new();
            self.server.drain(|id, payload| {
                to_client.push((id, payload.to_vec()));
                Delivery::Accepted
            });
            for (id, payload) in to_client {
                self.client.on_message(id, &payload, self.now);
            }
            self.client.tick(self.now);
            self.outcomes.extend(self.client.outcomes());
        }
    }

    fn call(&mut self, request_id: u32, body: &[u8]) -> CallId {
        let call = self.client.call(request_id, body, None, CallOptions::without_deadline(), self.now).expect("call");
        self.exchange();
        call
    }

    fn of(&mut self, call: CallId) -> Vec<Outcome> {
        let (mine, rest): (Vec<Outcome>, Vec<Outcome>) = self.outcomes.drain(..).partition(|o| o.call() == call);
        self.outcomes = rest;
        mine
    }
}

#[test]
fn say_through_fomoxa_rpc() {
    let mut pair = Pair::new();
    let call = pair.call(0x109F8C60, &encode_echo("xin chao"));
    let outcomes = pair.of(call);
    assert_eq!(outcomes.len(), 1);
    assert!(say_uppercased(&seen(&outcomes[0])));
    let call = pair.call(0x109F8C60, &encode_echo(""));
    assert!(failed_with(&seen(&pair.of(call)[0]), INVALID_ARGUMENT));
}

#[test]
fn count_through_fomoxa_rpc() {
    let mut pair = Pair::new();
    let call = pair.call(0x188823FA, &encode_count(5));
    let mut values = Vec::new();
    let mut verdicts = Vec::new();
    for outcome in pair.of(call) {
        verdicts.push(count_step(&mut values, &seen(&outcome)));
    }
    assert_eq!(verdicts.last(), Some(&Verdict::Pass));
    assert_eq!(values, [1, 2, 3, 4, 5]);
    let call = pair.call(0x188823FA, &encode_count(101));
    assert!(failed_with(&seen(&pair.of(call)[0]), INVALID_ARGUMENT));
}

#[test]
fn upload_through_fomoxa_rpc() {
    let mut pair = Pair::new();
    let call = pair.call(0x315285E4, &encode_upload_open("photo.raw"));
    for size in [4_096u32, 8_192, 1_024] {
        pair.client.send_item(call, &encode_chunk(size)).expect("sent");
        pair.exchange();
    }
    pair.client.close_send(call).expect("closed");
    pair.exchange();
    let outcomes = pair.of(call);
    assert!(upload_summarised(&seen(&outcomes[0])));
}

#[test]
fn chat_through_fomoxa_rpc() {
    let mut pair = Pair::new();
    let call = pair.call(0xEAEB5F14, &encode_room("lobby"));
    for line in ["hello", "still here", "bye"] {
        pair.client.send_item(call, &encode_said(line)).expect("sent");
        pair.exchange();
        let outcomes = pair.of(call);
        assert_eq!(outcomes.len(), 1);
        assert!(chat_echoed(&seen(&outcomes[0]), line));
    }
    pair.client.close_send(call).expect("closed");
    pair.exchange();
    assert!(matches!(pair.of(call)[0], Outcome::End { .. }));
}

#[test]
fn missing_and_reflection_through_fomoxa_rpc() {
    let mut pair = Pair::new();
    let call = pair.call(0x5AE3B9AC, &[]);
    assert!(failed_with(&seen(&pair.of(call)[0]), UNIMPLEMENTED));
    let call = pair.call(0x9C0C80F3, &encode_reflect_request());
    assert!(matches!(check_reflection(&seen(&pair.of(call)[0])), ReflectionVerdict::Pass));
}

struct ShoutHandler(Shout);
impl Handler for ShoutHandler {
    fn poll(&mut self, _now: Instant) -> Progress {
        progress(self.0.poll())
    }
}

fn echo_responder() -> Arc<Registry> {
    let [say, count] = methods();
    Arc::new(
        Registry::builder(0xD4A891C4, 0xBF94ECC4)
            .credit(0x789A010F)
            .serve(outside_method(say), |_, body| match checked_respond_say(body).expect("fits") {
                Ok(shout) => Ok(Box::new(ShoutHandler(shout)) as Box<dyn Handler>),
                Err(status) => Err(outside_status(status)),
            })
            .serve(outside_method(count), |_, body| match respond_count(body) {
                Ok(counter) => Ok(Box::new(CounterHandler(counter)) as Box<dyn Handler>),
                Err(status) => Err(outside_status(status)),
            })
            .reflection(0x9C0C80F3, 0xD42A8CD7, SCHEMA_TEXT)
            .build()
            .expect("echo responder"),
    )
}

#[test]
fn the_echo_service_through_fomoxa_rpc() {
    let mut pair = Pair {
        client: RpcCore::new(caller_registry(), Role::Client, Config::default()),
        server: RpcCore::new(echo_responder(), Role::Server, Config::default()),
        now: Instant::now(),
        outcomes: Vec::new(),
    };
    pair.client.on_ready();
    pair.server.on_ready();
    let call = pair.call(0x109F8C60, &encode_request("hello"));
    match &pair.of(call)[0] {
        Outcome::Response { body, .. } => assert_eq!(decode_response(body).text, "HELLO"),
        other => panic!("unexpected {other:?}"),
    }
    let call = pair.call(0x109F8C60, &encode_request(""));
    assert!(failed_with(&seen(&pair.of(call)[0]), INVALID_ARGUMENT));
    let call = pair.call(0x188823FA, &encode_count(3));
    assert_eq!(pair.of(call).len(), 4);
}
