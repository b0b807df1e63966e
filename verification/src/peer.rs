//! The Player peer's reading of one tick of its session (which peer became
//! ready, which `Player` payloads arrived, whether a handshake failed), what
//! it does once it has compared what arrived, when it gives up, and how it
//! exits.
use vstd::prelude::*;
use vstd::string::StringExecFns;

verus! {

/// How long the Player peer waits, in seconds, before it gives up.
pub const TIMEOUT_SECONDS: u64 = 10;

/// One event of a session, as the Player peer reads it.
#[derive(Debug)]
pub enum PeerEvent {
    /// The peer with this id completed the handshake.
    Ready(u64),
    /// A message with this id and payload arrived.
    Message(u32, Vec<u8>),
    /// The handshake failed.
    HandshakeFailed,
    /// Anything else: connected, probes, acknowledgements, disconnects.
    Other,
}

/// What one tick's events amount to. The payloads are those of the
/// messages with the awaited id, in the order they arrived; each is decoded
/// in turn, as it arrived.
#[derive(Debug)]
pub enum Tick {
    /// A handshake failed after these payloads: the peer gives up once it
    /// has decoded them.
    Refused { received: Vec<Vec<u8>> },
    /// The last peer that became ready, and the payloads; the last one is
    /// the one compared.
    Seen { ready: Option<u64>, received: Vec<Vec<u8>> },
}

/// The events read in order from these values: the last ready peer is
/// kept, and the payload of every message with id `message_id` is added, in
/// order, until a failed handshake ends the reading. The result is the
/// ready peer, the payloads, and whether a handshake failed.
pub open spec fn scan(
    events: Seq<PeerEvent>,
    message_id: u32,
    ready: Option<u64>,
    received: Seq<Seq<u8>>,
) -> (Option<u64>, Seq<Seq<u8>>, bool)
    decreases events.len(),
{
    if events.len() == 0 {
        (ready, received, false)
    } else {
        match events[0] {
            PeerEvent::Ready(peer) => scan(events.drop_first(), message_id, Some(peer), received),
            PeerEvent::Message(id, payload) => if id == message_id {
                scan(events.drop_first(), message_id, ready, received.push(payload@))
            } else {
                scan(events.drop_first(), message_id, ready, received)
            },
            PeerEvent::HandshakeFailed => (ready, received, true),
            PeerEvent::Other => scan(events.drop_first(), message_id, ready, received),
        }
    }
}

/// The views of a list of payloads.
pub open spec fn payload_views(payloads: Seq<Vec<u8>>) -> Seq<Seq<u8>> {
    payloads.map_values(|payload: Vec<u8>| payload@)
}

/// Reads one tick's events: the payloads of the messages with id
/// `message_id`, in order, up to a failed handshake, which refuses the
/// tick; otherwise also the last peer that became ready.
pub fn scan_events(events: &Vec<PeerEvent>, message_id: u32) -> (tick: Tick)
    ensures
        ({
            let (ready, received, refused) = scan(events@, message_id, None, Seq::empty());
            &&& refused ==> (tick matches Tick::Refused { received: got } && payload_views(got@) == received)
            &&& !refused ==> (tick matches Tick::Seen { ready: r, received: got } && r == ready
                && payload_views(got@) == received)
        }),
{
    let mut ready: Option<u64> = None;
    let mut received: Vec<Vec<u8>> = Vec::new();
    let mut i: usize = 0;
    assert(events@.skip(0) =~= events@);
    assert(payload_views(received@) =~= Seq::<Seq<u8>>::empty());
    while i < events.len()
        invariant
            i <= events@.len(),
            scan(events@, message_id, None, Seq::empty()) == scan(
                events@.skip(i as int),
                message_id,
                ready,
                payload_views(received@),
            ),
        decreases events@.len() - i,
    {
        assert(events@.skip(i as int).drop_first() =~= events@.skip(i + 1));
        match &events[i] {
            PeerEvent::Ready(peer) => {
                ready = Some(*peer);
            },
            PeerEvent::Message(id, payload) => {
                if *id == message_id {
                    let ghost before = received@;
                    received.push(payload.clone());
                    assert(payload_views(received@) =~= payload_views(before).push(payload@));
                }
            },
            PeerEvent::HandshakeFailed => {
                return Tick::Refused { received };
            },
            PeerEvent::Other => {},
        }
        i = i + 1;
    }
    assert(events@.skip(i as int) =~= Seq::<PeerEvent>::empty());
    Tick::Seen { ready, received }
}

/// Events that are neither a ready peer, a message with the awaited id, nor
/// a failed handshake change nothing of a tick's reading, wherever they
/// arrive among the others.
pub proof fn law_ignored_event_changes_nothing(
    events: Seq<PeerEvent>,
    i: int,
    event: PeerEvent,
    message_id: u32,
    ready: Option<u64>,
    received: Seq<Seq<u8>>,
)
    requires
        0 <= i <= events.len(),
        event == PeerEvent::Other || (event matches PeerEvent::Message(id, _) && id != message_id),
    ensures
        scan(events.insert(i, event), message_id, ready, received) == scan(events, message_id, ready, received),
    decreases events.len(),
{
    let with = events.insert(i, event);
    if i == 0 {
        assert(with[0] == event);
        assert(with.drop_first() =~= events);
    } else {
        assert(with[0] == events[0]);
        assert(with.drop_first() =~= events.drop_first().insert(i - 1, event));
        match events[0] {
            PeerEvent::Ready(peer) => {
                law_ignored_event_changes_nothing(events.drop_first(), i - 1, event, message_id, Some(peer), received);
            },
            PeerEvent::Message(id, payload) => {
                if id == message_id {
                    law_ignored_event_changes_nothing(
                        events.drop_first(),
                        i - 1,
                        event,
                        message_id,
                        ready,
                        received.push(payload@),
                    );
                } else {
                    law_ignored_event_changes_nothing(events.drop_first(), i - 1, event, message_id, ready, received);
                }
            },
            PeerEvent::HandshakeFailed => {},
            PeerEvent::Other => {
                law_ignored_event_changes_nothing(events.drop_first(), i - 1, event, message_id, ready, received);
            },
        }
    }
}

/// A payload once received stays received: reading more events only adds
/// payloads after those already read.
pub proof fn law_received_kept(events: Seq<PeerEvent>, message_id: u32, ready: Option<u64>, received: Seq<Seq<u8>>)
    ensures
        received.len() <= scan(events, message_id, ready, received).1.len(),
        scan(events, message_id, ready, received).1.take(received.len() as int) == received,
    decreases events.len(),
{
    if events.len() > 0 {
        match events[0] {
            PeerEvent::Ready(peer) => {
                law_received_kept(events.drop_first(), message_id, Some(peer), received);
            },
            PeerEvent::Message(id, payload) => {
                if id == message_id {
                    let more = received.push(payload@);
                    law_received_kept(events.drop_first(), message_id, ready, more);
                    let got = scan(events.drop_first(), message_id, ready, more).1;
                    assert(got.take(received.len() as int) =~= more.take(received.len() as int));
                    assert(more.take(received.len() as int) =~= received);
                } else {
                    law_received_kept(events.drop_first(), message_id, ready, received);
                }
            },
            PeerEvent::HandshakeFailed => {
                assert(received.take(received.len() as int) =~= received);
            },
            PeerEvent::Other => {
                law_received_kept(events.drop_first(), message_id, ready, received);
            },
        }
    } else {
        assert(received.take(received.len() as int) =~= received);
    }
}

/// One more event read at the end of a tick: after a failed handshake it
/// changes nothing; otherwise a ready peer becomes the one kept, a message
/// with the awaited id adds its payload after the others, a failed
/// handshake refuses the tick, and any other event changes nothing.
pub proof fn law_scan_one_more(
    events: Seq<PeerEvent>,
    event: PeerEvent,
    message_id: u32,
    ready: Option<u64>,
    received: Seq<Seq<u8>>,
)
    ensures
        ({
            let (r, got, refused) = scan(events, message_id, ready, received);
            let after = scan(events.push(event), message_id, ready, received);
            &&& refused ==> after == (r, got, refused)
            &&& !refused ==> after == match event {
                PeerEvent::Ready(peer) => (Some(peer), got, false),
                PeerEvent::Message(id, payload) => (r, if id == message_id { got.push(payload@) } else { got }, false),
                PeerEvent::HandshakeFailed => (r, got, true),
                PeerEvent::Other => (r, got, false),
            }
        }),
    decreases events.len(),
{
    let more = events.push(event);
    if events.len() == 0 {
        assert(more[0] == event);
        assert(more.drop_first() =~= Seq::<PeerEvent>::empty());
        reveal_with_fuel(scan, 2);
    } else {
        assert(more[0] == events[0]);
        assert(more.drop_first() =~= events.drop_first().push(event));
        match events[0] {
            PeerEvent::Ready(peer) => {
                law_scan_one_more(events.drop_first(), event, message_id, Some(peer), received);
            },
            PeerEvent::Message(id, payload) => {
                if id == message_id {
                    law_scan_one_more(events.drop_first(), event, message_id, ready, received.push(payload@));
                } else {
                    law_scan_one_more(events.drop_first(), event, message_id, ready, received);
                }
            },
            PeerEvent::HandshakeFailed => {},
            PeerEvent::Other => {
                law_scan_one_more(events.drop_first(), event, message_id, ready, received);
            },
        }
    }
}

/// What the Player peer does after a tick, once it has compared the last
/// `Player` it received, if any, with the one it expects.
#[derive(Debug, PartialEq, Eq)]
pub enum PeerStep {
    /// Nothing to conclude yet: wait for the next tick.
    Wait,
    /// The expected `Player` arrived: the exchange is validated.
    Pass,
    /// Another `Player` arrived: the peer gives up.
    Mismatch,
    /// Nothing arrived before the deadline: the peer gives up.
    TimedOut,
}

/// The step after a comparison: `None` when nothing arrived, else whether
/// the `Player` received is the one expected; with nothing received, the
/// deadline having passed ends the wait.
pub open spec fn step_of(matched: Option<bool>, timed_out: bool) -> PeerStep {
    match matched {
        Some(true) => PeerStep::Pass,
        Some(false) => PeerStep::Mismatch,
        None => if timed_out {
            PeerStep::TimedOut
        } else {
            PeerStep::Wait
        },
    }
}

/// The server's action after a tick: it sends its `Player` to the peer
/// that became ready, if one did, and passes, fails, gives up or waits on
/// what it received and on the deadline.
pub fn server_step(ready: Option<u64>, matched: Option<bool>, timed_out: bool) -> (action: (Option<u64>, PeerStep))
    ensures
        action.0 == ready,
        action.1 == step_of(matched, timed_out),
{
    (ready, client_step(matched, timed_out))
}

/// The client's action after a tick: it replies and passes when the
/// expected `Player` arrived, fails on another, gives up once the deadline
/// has passed with nothing received, and otherwise waits.
pub fn client_step(matched: Option<bool>, timed_out: bool) -> (step: PeerStep)
    ensures
        step == step_of(matched, timed_out),
{
    match matched {
        Some(true) => PeerStep::Pass,
        Some(false) => PeerStep::Mismatch,
        None => if timed_out {
            PeerStep::TimedOut
        } else {
            PeerStep::Wait
        },
    }
}

/// Whether the deadline has passed, `elapsed_millis` after the peer started
/// waiting: it waits `TIMEOUT_SECONDS`, and no longer.
pub fn past_deadline(elapsed_millis: u64) -> (past: bool)
    ensures
        past == (elapsed_millis >= TIMEOUT_SECONDS * 1000),
{
    elapsed_millis >= TIMEOUT_SECONDS * 1000
}

/// The status the Player peer exits with after a step: 0 once the exchange
/// is validated, 1 when it gives up, none while it waits.
pub fn exit_status(step: PeerStep) -> (code: Option<u8>)
    ensures
        step == PeerStep::Pass ==> code == Some(0u8),
        step == PeerStep::Mismatch ==> code == Some(1u8),
        step == PeerStep::TimedOut ==> code == Some(1u8),
        step == PeerStep::Wait ==> code is None,
{
    match step {
        PeerStep::Pass => Some(0),
        PeerStep::Mismatch => Some(1),
        PeerStep::TimedOut => Some(1),
        PeerStep::Wait => None,
    }
}

/// The diagnostic of a side that gave up waiting.
pub open spec fn timed_out_text(server: bool) -> Seq<char> {
    if server {
        "rust-peer: server timed out waiting for the client"@
    } else {
        "rust-peer: client timed out waiting for the server"@
    }
}

/// The diagnostic of a side that gave up waiting.
pub fn timed_out_message(server: bool) -> (text: String)
    ensures
        text@ == timed_out_text(server),
{
    let mut text = String::new();
    if server {
        text.append("rust-peer: server timed out waiting for the client");
    } else {
        text.append("rust-peer: client timed out waiting for the server");
    }
    text
}

/// The diagnostic of a side whose handshake was refused, with the reason.
pub open spec fn refused_text(server: bool, reason: Seq<char>) -> Seq<char> {
    (if server { "rust-peer: server handshake refused: "@ } else { "rust-peer: client handshake refused: "@ })
        + reason
}

/// The diagnostic of a side whose handshake was refused.
pub fn refused_message(server: bool, reason: &str) -> (text: String)
    ensures
        text@ == refused_text(server, reason@),
{
    let mut text = String::new();
    if server {
        text.append("rust-peer: server handshake refused: ");
    } else {
        text.append("rust-peer: client handshake refused: ");
    }
    text.append(reason);
    text
}

} // verus!
