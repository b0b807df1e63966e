//! The command lines of the two peers: the fRPC peer's four commands, and
//! the Player peer's `--role`, `--addr` and `--transport` options.
use vstd::prelude::*;
use crate::text::text_equal;
use vstd::string::StringExecFns;

verus! {

/// The views of a list of arguments.
pub open spec fn arg_views(args: Seq<String>) -> Seq<Seq<char>> {
    args.map_values(|arg: String| arg@)
}

/// What the fRPC peer was asked to do.
#[derive(Debug)]
pub enum Command {
    /// Serve the demo methods on an address.
    Serve(String),
    /// Run the demo checks against a server.
    Drive(String),
    /// Print the fixed frames scenario.
    Frames,
    /// Call `Echo.Say` once with a text.
    Say(String, String),
    /// Anything else: print the usage.
    Usage,
}

/// The fRPC peer's command: `serve <address>`, `drive <address>`, `frames`
/// or `say <address> <text>`, exactly; anything else asks for the usage.
pub fn parse_command(args: &Vec<String>) -> (command: Command)
    ensures
        ({
            let a = arg_views(args@);
            &&& (a.len() == 2 && a[0] == "serve"@) <==> command is Serve
            &&& (a.len() == 2 && a[0] == "drive"@) <==> command is Drive
            &&& (a.len() == 1 && a[0] == "frames"@) <==> command is Frames
            &&& (a.len() == 3 && a[0] == "say"@) <==> command is Say
            &&& command matches Command::Serve(address) ==> address@ == a[1]
            &&& command matches Command::Drive(address) ==> address@ == a[1]
            &&& command matches Command::Say(address, text) ==> address@ == a[1] && text@ == a[2]
        }),
{
    proof {
        reveal_strlit("serve");
        reveal_strlit("drive");
        reveal_strlit("frames");
        reveal_strlit("say");
        let a = arg_views(args@);
        assert("drive"@[0] != "serve"@[0]);
        assert(a.len() == args@.len());
        assert forall|k: int| 0 <= k < a.len() implies a[k] == args@[k]@ by {}
    }
    if args.len() == 2 && text_equal(args[0].as_str(), "serve") {
        Command::Serve(args[1].clone())
    } else if args.len() == 2 && text_equal(args[0].as_str(), "drive") {
        Command::Drive(args[1].clone())
    } else if args.len() == 1 && text_equal(args[0].as_str(), "frames") {
        Command::Frames
    } else if args.len() == 3 && text_equal(args[0].as_str(), "say") {
        Command::Say(args[1].clone(), args[2].clone())
    } else {
        Command::Usage
    }
}

/// The options of the Player peer.
#[derive(Debug)]
pub struct PeerArgs {
    pub role: String,
    pub addr: String,
    pub transport: String,
}

/// Why the Player peer's options were refused.
#[derive(Debug)]
pub enum ArgsError {
    /// `--transport` came last, with no value.
    TransportNeedsValue,
    /// An argument that is no option.
    UnknownArgument(String),
    /// No `--role` was given, or it came last with no value.
    RoleRequired,
    /// No `--addr` was given, or it came last with no value.
    AddrRequired,
}

/// The value after an option, if there is one.
pub open spec fn value_after(args: Seq<Seq<char>>) -> Option<Seq<char>> {
    if args.len() >= 2 {
        Some(args[1])
    } else {
        None
    }
}

/// What is left after an option and its value, if it has one.
pub open spec fn past_value(args: Seq<Seq<char>>) -> Seq<Seq<char>> {
    if args.len() >= 2 {
        args.skip(2)
    } else {
        Seq::empty()
    }
}

/// The options read from `args`, left to right, starting from these values:
/// `--role` and `--addr` take the next argument, or nothing when none is
/// left; `--transport` takes the next argument, and one is needed. `Err`
/// holds the argument the reading stopped at: `--transport` with no value,
/// or one that is no option.
pub open spec fn read_options(
    args: Seq<Seq<char>>,
    role: Option<Seq<char>>,
    addr: Option<Seq<char>>,
    transport: Seq<char>,
) -> Result<(Option<Seq<char>>, Option<Seq<char>>, Seq<char>), Seq<char>>
    decreases args.len(),
{
    if args.len() == 0 {
        Ok((role, addr, transport))
    } else if args[0] == "--role"@ {
        read_options(past_value(args), value_after(args), addr, transport)
    } else if args[0] == "--addr"@ {
        read_options(past_value(args), role, value_after(args), transport)
    } else if args[0] == "--transport"@ {
        match value_after(args) {
            Some(value) => read_options(past_value(args), role, addr, value),
            None => Err(args[0]),
        }
    } else {
        Err(args[0])
    }
}

/// Whether `r` refuses the options at `arg`: `--transport` with no value,
/// or an argument that is no option.
pub open spec fn refused_at(r: Result<PeerArgs, ArgsError>, arg: Seq<char>) -> bool {
    if arg == "--transport"@ {
        r matches Err(ArgsError::TransportNeedsValue)
    } else {
        r matches Err(ArgsError::UnknownArgument(a)) && a@ == arg
    }
}

/// Whether `r` holds these options.
pub open spec fn accepted(r: Result<PeerArgs, ArgsError>, role: Seq<char>, addr: Seq<char>, transport: Seq<char>) -> bool {
    r matches Ok(parsed) && parsed.role@ == role && parsed.addr@ == addr && parsed.transport@ == transport
}

/// The Player peer's options: `--role`, `--addr` and `--transport`, in any
/// order, the transport `tcp` unless given; role and address are required.
pub fn parse_peer_args(args: &Vec<String>) -> (r: Result<PeerArgs, ArgsError>)
    ensures
        match read_options(arg_views(args@), None, None, "tcp"@) {
            Err(arg) => refused_at(r, arg),
            Ok((role, addr, transport)) => match (role, addr) {
                (None, _) => r matches Err(ArgsError::RoleRequired),
                (Some(_), None) => r matches Err(ArgsError::AddrRequired),
                (Some(role), Some(addr)) => accepted(r, role, addr, transport),
            },
        },
{
    proof {
        reveal_strlit("--role");
        reveal_strlit("--addr");
        reveal_strlit("--transport");
        reveal_strlit("tcp");
    }
    let ghost all = arg_views(args@);
    let mut role: Option<String> = None;
    let mut addr: Option<String> = None;
    let mut transport: String = "tcp".to_string();
    let mut i: usize = 0;
    assert(all.skip(0) =~= all);
    while i < args.len()
        invariant
            all == arg_views(args@),
            i <= args@.len(),
            read_options(all, None, None, "tcp"@) == read_options(
                all.skip(i as int),
                match role { Some(r) => Some(r@), None => None },
                match addr { Some(a) => Some(a@), None => None },
                transport@,
            ),
        decreases args@.len() - i,
    {
        let rest = Ghost(all.skip(i as int));
        assert(rest@[0] == args@[i as int]@);
        let arg = args[i].as_str();
        let has_value = i + 1 < args.len();
        proof {
            if has_value {
                assert(rest@[1] == args@[i + 1]@);
                assert(past_value(rest@) =~= all.skip(i + 2));
            } else {
                assert(past_value(rest@) =~= all.skip(i + 1));
            }
        }
        if text_equal(arg, "--role") {
            role = if has_value { Some(args[i + 1].clone()) } else { None };
            i = if has_value { i + 2 } else { i + 1 };
        } else if text_equal(arg, "--addr") {
            addr = if has_value { Some(args[i + 1].clone()) } else { None };
            i = if has_value { i + 2 } else { i + 1 };
        } else if text_equal(arg, "--transport") {
            if !has_value {
                return Err(ArgsError::TransportNeedsValue);
            }
            transport = args[i + 1].clone();
            i = i + 2;
        } else {
            return Err(ArgsError::UnknownArgument(args[i].clone()));
        }
    }
    assert(all.skip(i as int) =~= Seq::<Seq<char>>::empty());
    let role = match role {
        Some(role) => role,
        None => return Err(ArgsError::RoleRequired),
    };
    let addr = match addr {
        Some(addr) => addr,
        None => return Err(ArgsError::AddrRequired),
    };
    Ok(PeerArgs { role, addr, transport })
}

/// The diagnostic the Player peer writes for refused options.
pub open spec fn args_error_text(error: ArgsError) -> Seq<char> {
    match error {
        ArgsError::TransportNeedsValue => "rust-peer: --transport needs a value"@,
        ArgsError::UnknownArgument(arg) => "rust-peer: unknown argument: "@ + arg@,
        ArgsError::RoleRequired => "rust-peer: --role server|client is required"@,
        ArgsError::AddrRequired => "rust-peer: --addr host:port is required"@,
    }
}

/// The diagnostic for refused options.
pub fn args_error_message(error: &ArgsError) -> (text: String)
    ensures
        text@ == args_error_text(*error),
{
    let mut text = String::new();
    match error {
        ArgsError::TransportNeedsValue => text.append("rust-peer: --transport needs a value"),
        ArgsError::UnknownArgument(arg) => {
            text.append("rust-peer: unknown argument: ");
            text.append(arg.as_str());
        },
        ArgsError::RoleRequired => text.append("rust-peer: --role server|client is required"),
        ArgsError::AddrRequired => text.append("rust-peer: --addr host:port is required"),
    }
    text
}

/// The diagnostic for a role and transport that make no mode.
pub open spec fn unsupported_text(role: Seq<char>, transport: Seq<char>) -> Seq<char> {
    "rust-peer: unsupported combination: --role "@ + role + " --transport "@ + transport
        + " (role is server|client, transport is tcp|udp)"@
}

/// The diagnostic for a role and transport that make no mode.
pub fn unsupported_message(role: &str, transport: &str) -> (text: String)
    ensures
        text@ == unsupported_text(role@, transport@),
{
    let mut text = String::new();
    text.append("rust-peer: unsupported combination: --role ");
    text.append(role);
    text.append(" --transport ");
    text.append(transport);
    text.append(" (role is server|client, transport is tcp|udp)");
    text
}

/// Whether `arg` names one of the Player peer's options.
pub open spec fn is_option(arg: Seq<char>) -> bool {
    arg == "--role"@ || arg == "--addr"@ || arg == "--transport"@
}

/// Whether `args` is a list of options each followed by its value.
pub open spec fn option_pairs(args: Seq<Seq<char>>) -> bool {
    &&& args.len() % 2 == 0
    &&& forall|k: int| 0 <= k < args.len() / 2 ==> #[trigger] is_option(args[2 * k])
}

/// Options each followed by a value are all read, and whatever follows
/// them is read from where they leave the options.
pub proof fn lemma_read_pairs_then(
    args: Seq<Seq<char>>,
    rest: Seq<Seq<char>>,
    role: Option<Seq<char>>,
    addr: Option<Seq<char>>,
    transport: Seq<char>,
)
    requires
        option_pairs(args),
    ensures
        read_options(args, role, addr, transport) matches Ok((r, a, t))
            && read_options(args + rest, role, addr, transport) == read_options(rest, r, a, t),
    decreases args.len(),
{
    if args.len() == 0 {
        assert(args + rest =~= rest);
    } else {
        assert(is_option(args[2 * 0int]));
        let tail = args.skip(2);
        assert forall|k: int| 0 <= k < tail.len() / 2 implies #[trigger] is_option(tail[2 * k]) by {
            assert(is_option(args[2 * (k + 1)]));
            assert(tail[2 * k] == args[2 * (k + 1)]);
        }
        let whole = args + rest;
        assert(whole[0] == args[0]);
        assert(whole[1] == args[1]);
        assert(past_value(whole) =~= tail + rest);
        assert(past_value(args) =~= tail);
        if args[0] == "--role"@ {
            lemma_read_pairs_then(tail, rest, Some(args[1]), addr, transport);
        } else if args[0] == "--addr"@ {
            lemma_read_pairs_then(tail, rest, role, Some(args[1]), transport);
        } else {
            lemma_read_pairs_then(tail, rest, role, addr, args[1]);
        }
    }
}

/// The last time an option is given wins: options each followed by a
/// value, and then `--role`, `--addr` or `--transport` with a value, read as
/// that value for that option, the others as the earlier options left them.
pub proof fn law_last_option_wins(
    args: Seq<Seq<char>>,
    value: Seq<char>,
    role: Option<Seq<char>>,
    addr: Option<Seq<char>>,
    transport: Seq<char>,
)
    requires
        option_pairs(args),
    ensures
        read_options(args, role, addr, transport) matches Ok((r, a, t)) && {
            &&& read_options(args + seq!["--role"@, value], role, addr, transport) == Ok::<_, Seq<char>>((Some(value), a, t))
            &&& read_options(args + seq!["--addr"@, value], role, addr, transport) == Ok::<_, Seq<char>>((r, Some(value), t))
            &&& read_options(args + seq!["--transport"@, value], role, addr, transport) == Ok::<_, Seq<char>>((r, a, value))
        },
{
    reveal_strlit("--role");
    reveal_strlit("--addr");
    reveal_strlit("--transport");
    assert("--role"@[2] != "--addr"@[2]);
    assert("--role"@[2] != "--transport"@[2]);
    assert("--addr"@[2] != "--transport"@[2]);
    lemma_read_pairs_then(args, seq!["--role"@, value], role, addr, transport);
    lemma_read_pairs_then(args, seq!["--addr"@, value], role, addr, transport);
    lemma_read_pairs_then(args, seq!["--transport"@, value], role, addr, transport);
    let (r, a, t) = read_options(args, role, addr, transport)->Ok_0;
    let none = Seq::<Seq<char>>::empty();
    let q = seq!["--role"@, value];
    assert(past_value(q) =~= none);
    assert(read_options(q, r, a, t) == read_options(none, Some(value), a, t));
    let q = seq!["--addr"@, value];
    assert(past_value(q) =~= none);
    assert(read_options(q, r, a, t) == read_options(none, r, Some(value), t));
    let q = seq!["--transport"@, value];
    assert(past_value(q) =~= none);
    assert(read_options(q, r, a, t) == read_options(none, r, a, value));
}

/// How the Player peer runs.
#[derive(Debug, PartialEq, Eq)]
pub enum Mode {
    /// Listen on TCP and send first.
    ServeTcp,
    /// Listen on UDP and send first.
    ServeUdp,
    /// Connect over TCP and reply.
    ConnectTcp,
    /// Connect over UDP and reply.
    ConnectUdp,
    /// Any other role or transport.
    Unsupported,
}

/// The mode of a role (`server` or `client`) and a transport (`tcp` or `udp`).
pub fn mode_of(role: &str, transport: &str) -> (mode: Mode)
    ensures
        mode == (if role@ == "server"@ && transport@ == "tcp"@ {
            Mode::ServeTcp
        } else if role@ == "server"@ && transport@ == "udp"@ {
            Mode::ServeUdp
        } else if role@ == "client"@ && transport@ == "tcp"@ {
            Mode::ConnectTcp
        } else if role@ == "client"@ && transport@ == "udp"@ {
            Mode::ConnectUdp
        } else {
            Mode::Unsupported
        }),
{
    let server = text_equal(role, "server");
    let client = text_equal(role, "client");
    let tcp = text_equal(transport, "tcp");
    let udp = text_equal(transport, "udp");
    if server && tcp {
        Mode::ServeTcp
    } else if server && udp {
        Mode::ServeUdp
    } else if client && tcp {
        Mode::ConnectTcp
    } else if client && udp {
        Mode::ConnectUdp
    } else {
        Mode::Unsupported
    }
}

} // verus!
