use fomoxa_interop::drive::{check_reflection, Outcome, ReflectionVerdict};
use fomoxa_interop::interop::{
    chat, count, decode_reflect_response, declared_methods, missing, reflect_method,
    reflected_methods, say, ticks, upload,
};
use fomoxa_interop::methods::{Method, RetrySafety, Shape};
use fomoxa_interop::reflection::{
    carries_fingerprint, describe, describe_infos, describe_method, describe_methods, same_listing,
};
use fomoxa_interop::schema::SCHEMA_FINGERPRINT;

const SCHEMA_TEXT: &str = "{\n  \"schema_version\": 1,\n  \"fingerprint_u64\": \"0xB8F0E2543FC9C60D\",\n  \"models\": {}\n}";

fn outside(method: &Method) -> fomoxa_rpc::Method {
    let shape = match method.shape {
        Shape::Unary => fomoxa_rpc::Shape::Unary,
        Shape::ServerStream => fomoxa_rpc::Shape::ServerStream,
        Shape::ClientStream => fomoxa_rpc::Shape::ClientStream,
        Shape::BidiStream => fomoxa_rpc::Shape::BidiStream,
    };
    let retry_safety = match method.retry_safety {
        RetrySafety::Unsafe => fomoxa_rpc::RetrySafety::Unsafe,
        RetrySafety::Idempotent => fomoxa_rpc::RetrySafety::Idempotent,
        RetrySafety::Keyed => fomoxa_rpc::RetrySafety::Keyed,
    };
    fomoxa_rpc::Method {
        name: method.name.clone(),
        shape,
        request_id: method.request_id,
        request_item_id: method.request_item_id,
        reply_id: method.reply_id,
        permission: None,
        retry_safety,
        idle_limit: None,
    }
}

fn reply_listing(methods: &[Method], schema: &str) -> Vec<u8> {
    let outside: Vec<fomoxa_rpc::Method> = methods.iter().map(outside).collect();
    fomoxa_rpc::reflect::encode_response(outside.iter(), schema.as_bytes())
}

#[test]
fn describe_writes_one_line() {
    assert_eq!(describe("Echo.Say", 0, [0x109F8C60, 0x109F8C60, 0x96D79DED], 0), "Echo.Say/0/109F8C60/109F8C60/96D79DED/0");
    assert_eq!(describe("x", 3, [0, 1, 0xFFFF_FFFF], 2), "x/3/00000000/00000001/FFFFFFFF/2");
    assert_eq!(describe_method(&upload()), "Blob.Upload/2/315285E4/65DB5549/0386DCA3/0");
    assert_eq!(describe_method(&reflect_method().idempotent()), "FRpc.Reflect/0/9C0C80F3/9C0C80F3/D42A8CD7/1");
}

#[test]
fn codes_are_those_of_fomoxa_rpc() {
    let keyed = Method::bidi_stream("k".to_owned(), 1, 2, 3);
    let keyed = Method { retry_safety: RetrySafety::Keyed, ..keyed };
    assert_eq!(describe_method(&keyed), "k/3/00000001/00000002/00000003/2");
    assert_eq!(fomoxa_rpc::reflect::shape_code(fomoxa_rpc::Shape::BidiStream), 3);
    assert_eq!(fomoxa_rpc::reflect::retry_code(fomoxa_rpc::RetrySafety::Keyed), 2);
    let server_stream = Method::server_stream("s".to_owned(), 4, 5);
    assert_eq!(describe_method(&server_stream), "s/1/00000004/00000004/00000005/0");
}

#[test]
fn the_methods_are_declared_as_the_driver_declares_them() {
    let names: Vec<String> = declared_methods().into_iter().map(|m| m.name).collect();
    assert_eq!(names, ["FRpc.Reflect", "Echo.Say", "Echo.Count", "Blob.Upload", "Room.Chat", "Clock.Ticks", "Echo.Missing"]);
    assert_eq!(say().request_id, 0x109F8C60);
    assert_eq!(count().reply_id, 0x5FB691E2);
    assert_eq!(chat().request_item_id, Some(0xACBEA203));
    assert_eq!(ticks().shape, Shape::ServerStream);
    assert_eq!(missing().request_id, 0x5AE3B9AC);
    assert_eq!(reflect_method().name, fomoxa_rpc::reflect::METHOD_NAME);
}

#[test]
fn listings_match_in_any_order() {
    let a: Vec<String> = ["b", "a", "c"].iter().map(|s| s.to_string()).collect();
    let b: Vec<String> = ["c", "b", "a"].iter().map(|s| s.to_string()).collect();
    let c: Vec<String> = ["c", "b", "b"].iter().map(|s| s.to_string()).collect();
    let d: Vec<String> = ["c", "b"].iter().map(|s| s.to_string()).collect();
    assert!(same_listing(&a, &b));
    assert!(!same_listing(&a, &c));
    assert!(!same_listing(&a, &d));
    assert!(!same_listing(&d, &a));
    assert!(same_listing(&Vec::new(), &Vec::new()));
}

#[test]
fn the_fingerprint_member_is_found() {
    assert!(carries_fingerprint(SCHEMA_TEXT.as_bytes(), SCHEMA_FINGERPRINT));
    assert!(!carries_fingerprint(SCHEMA_TEXT.as_bytes(), 0xB8F0E2543FC9C60E));
    assert!(!carries_fingerprint(b"\"fingerprint_u64\":\"0xB8F0E2543FC9C60D\"", SCHEMA_FINGERPRINT));
    let mut noisy = vec![0xFF, 0xC3];
    noisy.extend_from_slice(SCHEMA_TEXT.as_bytes());
    assert!(carries_fingerprint(&noisy, SCHEMA_FINGERPRINT));
}

#[test]
fn a_reply_written_by_fomoxa_rpc_reads_back() {
    let methods = reflected_methods();
    let body = reply_listing(&methods, SCHEMA_TEXT);
    let reply = decode_reflect_response(&body);
    assert_eq!(reply.methods.len(), 6);
    assert_eq!(reply.schema_json, SCHEMA_TEXT.as_bytes());
    assert_eq!(describe_infos(&reply.methods), describe_methods(&methods));
}

#[test]
fn reflection_passes_in_any_order() {
    let mut methods = reflected_methods();
    methods.reverse();
    let verdict = check_reflection(&Outcome::Response(reply_listing(&methods, SCHEMA_TEXT)));
    assert!(matches!(verdict, ReflectionVerdict::Pass));
}

#[test]
fn reflection_fails_on_a_missing_method() {
    let mut methods = reflected_methods();
    methods.pop();
    match check_reflection(&Outcome::Response(reply_listing(&methods, SCHEMA_TEXT))) {
        ReflectionVerdict::Listed(lines) => assert_eq!(lines.len(), 5),
        other => panic!("unexpected {other:?}"),
    }
}

#[test]
fn reflection_fails_without_the_fingerprint() {
    let verdict = check_reflection(&Outcome::Response(reply_listing(&reflected_methods(), "{}")));
    assert!(matches!(verdict, ReflectionVerdict::NoFingerprint));
    assert!(matches!(check_reflection(&Outcome::End), ReflectionVerdict::NoResponse));
}

#[test]
fn different_methods_have_different_lines() {
    let base = describe("a/b", 1, [1, 2, 3], 0);
    assert_ne!(base, describe("a", 1, [1, 2, 3], 0));
    assert_ne!(base, describe("a/b", 11, [1, 2, 3], 0));
    assert_ne!(base, describe("a/b", 1, [1, 2, 4], 0));
    assert_ne!(base, describe("a/b", 1, [1, 2, 3], 1));
    assert_eq!(base, describe("a/b", 1, [1, 2, 3], 0));
}
