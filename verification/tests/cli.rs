use fomoxa_interop::cli::{mode_of, parse_command, parse_peer_args, ArgsError, Command, Mode};

fn args(items: &[&str]) -> Vec<String> {
    items.iter().map(|item| item.to_string()).collect()
}

#[test]
fn frpc_commands_are_recognised() {
    assert!(matches!(parse_command(&args(&["serve", "127.0.0.1:9431"])), Command::Serve(a) if a == "127.0.0.1:9431"));
    assert!(matches!(parse_command(&args(&["drive", "h:1"])), Command::Drive(a) if a == "h:1"));
    assert!(matches!(parse_command(&args(&["frames"])), Command::Frames));
    assert!(matches!(parse_command(&args(&["say", "h:1", "hi there"])), Command::Say(a, t) if a == "h:1" && t == "hi there"));
}

#[test]
fn anything_else_asks_for_the_usage() {
    for bad in [&[][..], &["serve"][..], &["frames", "x"][..], &["say", "h:1"][..], &["Serve", "h:1"][..], &["help"][..]] {
        assert!(matches!(parse_command(&args(bad)), Command::Usage));
    }
}

#[test]
fn peer_options_in_any_order() {
    let parsed = parse_peer_args(&args(&["--addr", "127.0.0.1:7000", "--role", "server"])).expect("accepted");
    assert_eq!(parsed.role, "server");
    assert_eq!(parsed.addr, "127.0.0.1:7000");
    assert_eq!(parsed.transport, "tcp");
    let parsed = parse_peer_args(&args(&["--role", "client", "--transport", "udp", "--addr", "h:1"])).expect("accepted");
    assert_eq!(parsed.transport, "udp");
}

#[test]
fn the_last_option_given_wins() {
    let parsed = parse_peer_args(&args(&["--role", "server", "--addr", "a:1", "--role", "client"])).expect("accepted");
    assert_eq!(parsed.role, "client");
}

#[test]
fn peer_options_are_refused() {
    assert!(matches!(parse_peer_args(&args(&["--role", "server", "--addr", "a:1", "--transport"])), Err(ArgsError::TransportNeedsValue)));
    assert!(matches!(parse_peer_args(&args(&["--role", "server", "--verbose"])), Err(ArgsError::UnknownArgument(a)) if a == "--verbose"));
    assert!(matches!(parse_peer_args(&args(&["--addr", "a:1"])), Err(ArgsError::RoleRequired)));
    assert!(matches!(parse_peer_args(&args(&["--addr", "a:1", "--role"])), Err(ArgsError::RoleRequired)));
    assert!(matches!(parse_peer_args(&args(&["--role", "server"])), Err(ArgsError::AddrRequired)));
    assert!(matches!(parse_peer_args(&args(&[])), Err(ArgsError::RoleRequired)));
}

#[test]
fn modes_pair_role_and_transport() {
    assert_eq!(mode_of("server", "tcp"), Mode::ServeTcp);
    assert_eq!(mode_of("server", "udp"), Mode::ServeUdp);
    assert_eq!(mode_of("client", "tcp"), Mode::ConnectTcp);
    assert_eq!(mode_of("client", "udp"), Mode::ConnectUdp);
    assert_eq!(mode_of("client", "quic"), Mode::Unsupported);
    assert_eq!(mode_of("relay", "tcp"), Mode::Unsupported);
}
