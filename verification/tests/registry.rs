use fomoxa_interop::cli::{args_error_message, unsupported_message, ArgsError};
use fomoxa_interop::peer::{
    client_step, exit_status, past_deadline, refused_message, scan_events, server_step, timed_out_message, PeerEvent,
    PeerStep, Tick,
};
use fomoxa_interop::proto::caller_registry;
use fomoxa_interop::registry::driver_registry;

#[test]
fn the_driver_registry_declares_seven_methods() {
    let registry = driver_registry();
    let names: Vec<&str> = registry.methods().map(|m| m.name.as_str()).collect();
    assert_eq!(names, ["FRpc.Reflect", "Echo.Say", "Echo.Count", "Blob.Upload", "Room.Chat", "Clock.Ticks", "Echo.Missing"]);
    assert_eq!(registry.void_id(), 0xD4A891C4);
    assert_eq!(registry.error_id(), 0xBF94ECC4);
    assert_eq!(registry.credit_id(), Some(0x789A010F));
    assert!(registry.owns(0x65DB5549));
    assert!(registry.entry_for_request(0x5AE3B9AC).is_some());
    let count = registry.method_for_request(0x188823FA).expect("Echo.Count");
    assert_eq!(count.shape, fomoxa_rpc::Shape::ServerStream);
    let upload = registry.method_for_request(0x315285E4).expect("Blob.Upload");
    assert_eq!(upload.shape, fomoxa_rpc::Shape::ClientStream);
    assert_eq!(upload.request_item_id, Some(0x65DB5549));
    assert!(registry.methods().all(|m| m.retry_safety == fomoxa_rpc::RetrySafety::Unsafe));
    assert!(registry.methods().all(|m| registry.entry_for_request(m.request_id).expect("entry").factory.is_none()));
}

#[test]
fn the_caller_registry_declares_reflection_and_echo() {
    let registry = caller_registry();
    let names: Vec<&str> = registry.methods().map(|m| m.name.as_str()).collect();
    assert_eq!(names, ["FRpc.Reflect", "Echo.Say", "Echo.Count"]);
    assert!(registry.methods().all(|m| m.retry_safety == fomoxa_rpc::RetrySafety::Unsafe));
    let shapes: Vec<fomoxa_rpc::Shape> = registry.methods().map(|m| m.shape).collect();
    assert_eq!(shapes, [fomoxa_rpc::Shape::Unary, fomoxa_rpc::Shape::Unary, fomoxa_rpc::Shape::ServerStream]);
    assert!(registry.methods().all(|m| registry.entry_for_request(m.request_id).expect("entry").factory.is_none()));
}

#[test]
fn a_tick_keeps_the_last_ready_peer_and_payload() {
    let events = vec![
        PeerEvent::Other,
        PeerEvent::Ready(3),
        PeerEvent::Message(7, vec![1]),
        PeerEvent::Message(9, vec![2]),
        PeerEvent::Message(7, vec![3]),
        PeerEvent::Ready(4),
    ];
    match scan_events(&events, 7) {
        Tick::Seen { ready, received } => {
            assert_eq!(ready, Some(4));
            assert_eq!(received, vec![vec![1], vec![3]]);
        }
        Tick::Refused { .. } => panic!("not refused"),
    }
    match scan_events(&Vec::new(), 7) {
        Tick::Seen { ready, received } => assert!(ready.is_none() && received.is_empty()),
        Tick::Refused { .. } => panic!("not refused"),
    }
}

#[test]
fn a_failed_handshake_refuses_the_tick() {
    let events = vec![
        PeerEvent::Message(7, vec![9]),
        PeerEvent::Ready(1),
        PeerEvent::HandshakeFailed,
        PeerEvent::Message(7, vec![1]),
    ];
    match scan_events(&events, 7) {
        Tick::Refused { received } => assert_eq!(received, vec![vec![9]]),
        Tick::Seen { .. } => panic!("refused"),
    }
}

#[test]
fn the_player_peer_acts_on_its_comparison() {
    assert_eq!(server_step(Some(2), None, false), (Some(2), PeerStep::Wait));
    assert_eq!(server_step(None, Some(true), true), (None, PeerStep::Pass));
    assert_eq!(server_step(None, Some(false), false), (None, PeerStep::Mismatch));
    assert_eq!(server_step(Some(3), None, true), (Some(3), PeerStep::TimedOut));
    assert_eq!(client_step(Some(true), false), PeerStep::Pass);
    assert_eq!(client_step(None, false), PeerStep::Wait);
    assert_eq!(client_step(None, true), PeerStep::TimedOut);
    assert_eq!(exit_status(PeerStep::Pass), Some(0));
    assert_eq!(exit_status(PeerStep::Mismatch), Some(1));
    assert_eq!(exit_status(PeerStep::TimedOut), Some(1));
    assert_eq!(exit_status(PeerStep::Wait), None);
    assert!(!past_deadline(9_999));
    assert!(past_deadline(10_000));
    assert_eq!(timed_out_message(true), "rust-peer: server timed out waiting for the client");
    assert_eq!(timed_out_message(false), "rust-peer: client timed out waiting for the server");
    assert_eq!(refused_message(false, "schema conflict"), "rust-peer: client handshake refused: schema conflict");
}

#[test]
fn the_player_peer_explains_refused_options() {
    assert_eq!(args_error_message(&ArgsError::TransportNeedsValue), "rust-peer: --transport needs a value");
    assert_eq!(args_error_message(&ArgsError::UnknownArgument("-x".to_owned())), "rust-peer: unknown argument: -x");
    assert_eq!(args_error_message(&ArgsError::RoleRequired), "rust-peer: --role server|client is required");
    assert_eq!(args_error_message(&ArgsError::AddrRequired), "rust-peer: --addr host:port is required");
    assert_eq!(
        unsupported_message("relay", "tcp"),
        "rust-peer: unsupported combination: --role relay --transport tcp (role is server|client, transport is tcp|udp)"
    );
}
