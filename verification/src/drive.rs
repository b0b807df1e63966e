//! The decisions of the driver: what it makes of each outcome a call
//! delivers, check by check, and when it waits, retries or gives up. The
//! driver's loop, which talks to the server, hands each outcome in.
use vstd::prelude::*;
use crate::interop::{
    decode_count_item, decode_done, decode_echo_response, decode_heard, decode_reflect_response,
    decode_tick, reflected_methods,
};
use crate::message::{blob_at, decoded, records_at, text_at, u32_at, Scalar};
use crate::methods::Method;
use crate::models::echo::{
    CountItem, CountItemRpcCodec, CountRequestRpcCodec, EchoRequestRpcCodec, EchoResponse,
    EchoResponseRpcCodec,
};
use crate::models::frpc::{
    method_records, FRpcMethodInfo, FRpcReflectRequestRpcCodec, FRpcReflectResponse,
    FRpcReflectResponseRpcCodec,
};
use crate::models::stream::{
    ChatHeard, ChatHeardRpcCodec, ChatOpenRpcCodec, ChatSaidRpcCodec, TicksItem,
    TicksItemRpcCodec, TicksRequestRpcCodec, UploadChunkRpcCodec, UploadDone, UploadDoneRpcCodec,
    UploadOpenRpcCodec,
};
use crate::reflection::{
    carries_fingerprint, describe_infos, describe_methods, description, fingerprint_member,
    info_description, method_description, same_listing, texts, utf8_lossy,
};
use crate::schema::SCHEMA_FINGERPRINT;
use crate::status::{status_name, status_name_text, CallStatus};
use crate::text::{contains_bytes, decimal, push_decimal, text_equal, to_uppercase, uppercase};
use vstd::string::StringExecFns;
use crate::wire::Limits;
use vstd::utf8::encode_utf8;

verus! {

/// What a call delivers to its caller.
#[derive(Debug)]
pub enum Outcome {
    /// The one response of a unary or client-stream call.
    Response(Vec<u8>),
    /// One item of a stream.
    Item(Vec<u8>),
    /// The stream is complete.
    End,
    /// The call failed with this status.
    Failed(CallStatus),
}

/// Whether the call failed with status `code`.
pub fn failed_with(outcome: &Outcome, code: u32) -> (ok: bool)
    ensures
        ok == (outcome matches Outcome::Failed(status) && status.code == code),
{
    match outcome {
        Outcome::Failed(status) => status.code == code,
        _ => false,
    }
}

/// Why the driver refuses an outcome that should have been a failure with
/// status `code`: the name of that status, then what came instead.
pub open spec fn status_mismatch_text(code: u32, got: Seq<char>) -> Seq<char> {
    "expected "@ + status_name_text(code) + ", got "@ + got
}

/// The driver's verdict on an outcome that should be a failure with status
/// `code`; `got` describes the outcome, for the message when it is not.
pub fn expect_status(outcome: &Outcome, code: u32, got: &str) -> (r: Result<(), String>)
    ensures
        r is Ok <==> (outcome matches Outcome::Failed(status) && status.code == code),
        r matches Err(message) ==> message@ == status_mismatch_text(code, got@),
{
    if failed_with(outcome, code) {
        return Ok(());
    }
    let mut message = String::new();
    message.append("expected ");
    message.append(status_name(code));
    message.append(", got ");
    message.append(got);
    Err(message)
}

/// The text of a response body of `Echo.Say`.
pub open spec fn echo_reply_text(body: Seq<u8>) -> Seq<char> {
    text_at(decoded(EchoResponse::kinds(), body, Limits::spec_unlimited()), 0)
}

/// Whether `Echo.Say` of "xin chao" came back as "XIN CHAO".
pub fn say_uppercased(outcome: &Outcome) -> (ok: bool)
    ensures
        ok == (outcome matches Outcome::Response(body) && echo_reply_text(body@) == "XIN CHAO"@),
{
    match outcome {
        Outcome::Response(body) => text_equal(decode_echo_response(body.as_slice()).as_str(), "XIN CHAO"),
        _ => false,
    }
}

/// Where a stream check stands after one more outcome.
#[derive(Debug, PartialEq, Eq)]
pub enum Verdict {
    /// Wait for the next outcome.
    Continue,
    /// The check passed.
    Pass,
    /// The check failed.
    Fail,
}

/// The value of a `CountItem` body.
pub open spec fn count_item_value(body: Seq<u8>) -> u32 {
    u32_at(decoded(CountItem::kinds(), body, Limits::spec_unlimited()), 0)
}

/// `Echo.Count` of 5, one outcome at a time: each item's value is noted;
/// the end passes when the values were 1 to 5 in order; anything else fails.
pub fn count_step(seen: &mut Vec<u32>, outcome: &Outcome) -> (verdict: Verdict)
    ensures
        outcome matches Outcome::Item(body) ==> verdict == Verdict::Continue
            && final(seen)@ == old(seen)@.push(count_item_value(body@)),
        !(outcome is Item) ==> final(seen)@ == old(seen)@,
        outcome is End ==> (verdict == Verdict::Pass <==> old(seen)@ == seq![1u32, 2, 3, 4, 5]),
        outcome is End && old(seen)@ != seq![1u32, 2, 3, 4, 5] ==> verdict == Verdict::Fail,
        (outcome is Response || outcome is Failed) ==> verdict == Verdict::Fail,
{
    match outcome {
        Outcome::Item(body) => {
            seen.push(decode_count_item(body.as_slice()));
            Verdict::Continue
        },
        Outcome::End => {
            if one_to_five(seen) {
                Verdict::Pass
            } else {
                Verdict::Fail
            }
        },
        _ => Verdict::Fail,
    }
}

/// Whether `seen` is 1, 2, 3, 4, 5.
pub fn one_to_five(seen: &Vec<u32>) -> (ok: bool)
    ensures
        ok == (seen@ == seq![1u32, 2, 3, 4, 5]),
{
    let ok = seen.len() == 5 && seen[0] == 1 && seen[1] == 2 && seen[2] == 3 && seen[3] == 4 && seen[4] == 5;
    proof {
        if ok {
            assert(seen@ =~= seq![1u32, 2, 3, 4, 5]);
        }
    }
    ok
}

/// The summary of an `UploadDone` body.
pub open spec fn done_text(body: Seq<u8>) -> Seq<char> {
    text_at(decoded(UploadDone::kinds(), body, Limits::spec_unlimited()), 0)
}

/// Whether the upload of chunks of 4096, 8192 and 1024 bytes was summed up
/// as "3 chunks, 13312 bytes".
pub fn upload_summarised(outcome: &Outcome) -> (ok: bool)
    ensures
        ok == (outcome matches Outcome::Response(body) && done_text(body@) == "3 chunks, 13312 bytes"@),
{
    match outcome {
        Outcome::Response(body) => text_equal(decode_done(body.as_slice()).as_str(), "3 chunks, 13312 bytes"),
        _ => false,
    }
}

/// The line of a `ChatHeard` body.
pub open spec fn heard_text(body: Seq<u8>) -> Seq<char> {
    text_at(decoded(ChatHeard::kinds(), body, Limits::spec_unlimited()), 0)
}

/// Whether the chat answered `line` with its upper-case form.
pub fn chat_echoed(outcome: &Outcome, line: &str) -> (ok: bool)
    ensures
        ok == (outcome matches Outcome::Item(body) && heard_text(body@) == uppercase(line@)),
{
    match outcome {
        Outcome::Item(body) => {
            let upper = to_uppercase(line);
            text_equal(decode_heard(body.as_slice()).as_str(), upper.as_str())
        },
        _ => false,
    }
}

/// The value of a `TicksItem` body.
pub open spec fn tick_value(body: Seq<u8>) -> u32 {
    u32_at(decoded(TicksItem::kinds(), body, Limits::spec_unlimited()), 0)
}

/// The tick an outcome carries, when it is an item.
pub fn tick_of(outcome: &Outcome) -> (tick: Option<u32>)
    ensures
        outcome matches Outcome::Item(body) ==> tick == Some(tick_value(body@)),
        !(outcome is Item) ==> tick is None,
{
    match outcome {
        Outcome::Item(body) => Some(decode_tick(body.as_slice())),
        _ => None,
    }
}

/// What the driver makes of a reflection reply.
#[derive(Debug)]
pub enum ReflectionVerdict {
    /// The call did not answer with a response.
    NoResponse,
    /// The methods listed, described one per line, are not those expected.
    Listed(Vec<String>),
    /// The schema text does not carry this schema's fingerprint.
    NoFingerprint,
    /// The listing and the schema are as expected.
    Pass,
}

/// The text a scalar holds, or empty when it is not a text.
pub open spec fn scalar_text(value: Scalar) -> Seq<char> {
    match value {
        Scalar::Text(t) => t,
        _ => Seq::empty(),
    }
}

/// The `u32` a scalar holds, or `0` when it is not a `u32`.
pub open spec fn scalar_u32(value: Scalar) -> u32 {
    match value {
        Scalar::U32(v) => v,
        _ => 0,
    }
}

/// The line describing a method record of a reflection reply.
pub open spec fn record_description(record: Seq<Scalar>) -> Seq<char> {
    description(
        scalar_text(record[0]),
        scalar_u32(record[1]),
        scalar_u32(record[2]),
        scalar_u32(record[3]),
        scalar_u32(record[4]),
        scalar_u32(record[5]),
    )
}

/// The lines describing the methods a reflection reply in `body` lists, in
/// the order it lists them.
pub open spec fn listed_descriptions(body: Seq<u8>) -> Seq<Seq<char>> {
    records_at(decoded(FRpcReflectResponse::kinds(), body, Limits::spec_unlimited()), 0)
        .map_values(|record: Seq<Scalar>| record_description(record))
}

/// The schema text a reflection reply in `body` carries.
pub open spec fn listed_schema(body: Seq<u8>) -> Seq<u8> {
    blob_at(decoded(FRpcReflectResponse::kinds(), body, Limits::spec_unlimited()), 1)
}

/// The lines describing the methods a responder with reflection serves:
/// the five demo methods and reflection itself, safe to retry.
pub open spec fn expected_listing() -> Seq<Seq<char>> {
    seq![
        description("Echo.Say"@, 0, EchoRequestRpcCodec::MESSAGE_ID, EchoRequestRpcCodec::MESSAGE_ID,
            EchoResponseRpcCodec::MESSAGE_ID, 0),
        description("Echo.Count"@, 1, CountRequestRpcCodec::MESSAGE_ID, CountRequestRpcCodec::MESSAGE_ID,
            CountItemRpcCodec::MESSAGE_ID, 0),
        description("Blob.Upload"@, 2, UploadOpenRpcCodec::MESSAGE_ID, UploadChunkRpcCodec::MESSAGE_ID,
            UploadDoneRpcCodec::MESSAGE_ID, 0),
        description("Room.Chat"@, 3, ChatOpenRpcCodec::MESSAGE_ID, ChatSaidRpcCodec::MESSAGE_ID,
            ChatHeardRpcCodec::MESSAGE_ID, 0),
        description("Clock.Ticks"@, 1, TicksRequestRpcCodec::MESSAGE_ID, TicksRequestRpcCodec::MESSAGE_ID,
            TicksItemRpcCodec::MESSAGE_ID, 0),
        description("FRpc.Reflect"@, 0, FRpcReflectRequestRpcCodec::MESSAGE_ID,
            FRpcReflectRequestRpcCodec::MESSAGE_ID, FRpcReflectResponseRpcCodec::MESSAGE_ID, 1),
    ]
}

/// Whether the reflection reply in `body` lists the expected methods, each
/// as often, in any order.
pub open spec fn listing_matches(body: Seq<u8>) -> bool {
    listed_descriptions(body).to_multiset() == expected_listing().to_multiset()
}

/// Whether the schema text of the reflection reply in `body` carries this
/// schema's fingerprint.
pub open spec fn fingerprint_carried(body: Seq<u8>) -> bool {
    contains_bytes(
        encode_utf8(utf8_lossy(listed_schema(body))),
        encode_utf8(fingerprint_member(SCHEMA_FINGERPRINT)),
    )
}

/// Whether a reflection reply lists the five served methods and reflection
/// itself, in any order, and carries this schema's fingerprint.
pub fn check_reflection(outcome: &Outcome) -> (verdict: ReflectionVerdict)
    ensures
        !(outcome is Response) <==> verdict is NoResponse,
        outcome matches Outcome::Response(body) ==> {
            &&& (verdict is Listed <==> !listing_matches(body@))
            &&& (verdict matches ReflectionVerdict::Listed(lines) ==> texts(lines@) == listed_descriptions(body@))
            &&& (verdict is NoFingerprint <==> listing_matches(body@) && !fingerprint_carried(body@))
            &&& (verdict is Pass <==> listing_matches(body@) && fingerprint_carried(body@))
        },
{
    let body = match outcome {
        Outcome::Response(body) => body,
        _ => return ReflectionVerdict::NoResponse,
    };
    let answer = decode_reflect_response(body.as_slice());
    let methods = reflected_methods();
    let expected = describe_methods(&methods);
    let listed = describe_infos(&answer.methods);
    proof {
        assert(methods@.map_values(|m: Method| method_description(m)) =~= expected_listing());
        let infos = answer.methods@;
        assert(answer.fields()[0] == decoded(FRpcReflectResponse::kinds(), body@, Limits::spec_unlimited())[0]);
        assert(answer.fields()[1] == decoded(FRpcReflectResponse::kinds(), body@, Limits::spec_unlimited())[1]);
        assert(infos.map_values(|info: FRpcMethodInfo| info_description(info))
            =~= method_records(infos).map_values(|record: Seq<Scalar>| record_description(record)));
    }
    if !same_listing(&expected, &listed) {
        return ReflectionVerdict::Listed(listed);
    }
    if carries_fingerprint(answer.schema_json.as_slice(), SCHEMA_FINGERPRINT) {
        ReflectionVerdict::Pass
    } else {
        ReflectionVerdict::NoFingerprint
    }
}

/// The first position of `call` in `calls`, if it is there.
pub fn position_of(calls: &Vec<u32>, call: u32) -> (at: Option<usize>)
    ensures
        at matches Some(i) ==> i < calls@.len() && calls@[i as int] == call
            && forall|j: int| 0 <= j < i ==> calls@[j] != call,
        at is None ==> !calls@.contains(call),
{
    let mut i: usize = 0;
    while i < calls.len()
        invariant
            i <= calls@.len(),
            forall|j: int| 0 <= j < i ==> calls@[j] != call,
        decreases calls@.len() - i,
    {
        if calls[i] == call {
            return Some(i);
        }
        i = i + 1;
    }
    None
}

/// What the driver does while a session opens.
#[derive(Debug, PartialEq, Eq)]
pub enum OpenStep {
    /// The session is ready for calls.
    Ready,
    /// The handshake failed; its reason is reported.
    HandshakeFailed,
    /// The session closed, or did not become ready in time.
    NeverReady,
    /// Wait for the session, then look again.
    Wait,
}

/// The driver's decision while a session opens: ready wins, then a failed
/// handshake, then a closed session or the deadline; otherwise it waits.
pub fn open_step(ready: bool, handshake_failed: bool, closed: bool, timed_out: bool) -> (step: OpenStep)
    ensures
        ready ==> step == OpenStep::Ready,
        !ready && handshake_failed ==> step == OpenStep::HandshakeFailed,
        !ready && !handshake_failed && (closed || timed_out) ==> step == OpenStep::NeverReady,
        !ready && !handshake_failed && !closed && !timed_out ==> step == OpenStep::Wait,
{
    if ready {
        OpenStep::Ready
    } else if handshake_failed {
        OpenStep::HandshakeFailed
    } else if closed || timed_out {
        OpenStep::NeverReady
    } else {
        OpenStep::Wait
    }
}

/// What the driver does after trying to send an item.
#[derive(Debug, PartialEq, Eq)]
pub enum SendStep {
    /// The attempt is over, sent or refused for good.
    Done,
    /// The item waits for credit or room, but the session has closed.
    Closed,
    /// Wait for credit or room, then try again.
    Retry,
}

/// The driver's decision after an attempt to send an item: an item held
/// back for want of credit or room is tried again unless the session has
/// closed; any other result ends the attempt.
pub fn send_step(held_back: bool, closed: bool) -> (step: SendStep)
    ensures
        !held_back ==> step == SendStep::Done,
        held_back && closed ==> step == SendStep::Closed,
        held_back && !closed ==> step == SendStep::Retry,
{
    if !held_back {
        SendStep::Done
    } else if closed {
        SendStep::Closed
    } else {
        SendStep::Retry
    }
}

/// The line the driver prints for one check: `ok` and its name when it
/// passed, `FAIL`, its name and the problem when it did not.
pub open spec fn check_text(name: Seq<char>, problem: Option<Seq<char>>) -> Seq<char> {
    match problem {
        None => "ok   "@ + name,
        Some(p) => "FAIL "@ + name + ": "@ + p,
    }
}

/// The line printed for one check.
pub fn check_line(name: &str, problem: Option<&str>) -> (line: String)
    ensures
        line@ == check_text(name@, match problem { Some(p) => Some(p@), None => None }),
{
    let mut line = String::new();
    match problem {
        None => {
            line.append("ok   ");
            line.append(name);
        },
        Some(p) => {
            line.append("FAIL ");
            line.append(name);
            line.append(": ");
            line.append(p);
        },
    }
    line
}

/// The driver's last line: every check passed, or how many failed.
pub open spec fn closing_text(failures: u64) -> Seq<char> {
    if failures == 0 {
        "all checks passed"@
    } else {
        decimal(failures as nat) + " checks failed"@
    }
}

/// The driver's last line.
pub fn closing_line(failures: u64) -> (line: String)
    ensures
        line@ == closing_text(failures),
{
    let mut line = String::new();
    if failures == 0 {
        line.append("all checks passed");
    } else {
        push_decimal(&mut line, failures);
        line.append(" checks failed");
    }
    line
}

/// Mapping a list keeps the same multiset when the list is reordered.
proof fn lemma_map_reordered<A, B>(s1: Seq<A>, s2: Seq<A>, f: spec_fn(A) -> B)
    requires
        s1.to_multiset() == s2.to_multiset(),
    ensures
        s1.map_values(f).to_multiset() == s2.map_values(f).to_multiset(),
    decreases s1.len(),
{
    broadcast use {vstd::seq_lib::group_to_multiset_ensures, vstd::multiset::group_multiset_axioms};
    if s1.len() == 0 {
        assert(s1.to_multiset().len() == s1.len());
        assert(s2.to_multiset().len() == s2.len());
        assert(s2.len() == 0);
        assert(s1.map_values(f) =~= s2.map_values(f));
    } else {
        let x = s1[0];
        assert(s1.to_multiset().count(x) > 0);
        assert(s2.contains(x));
        let j = choose|j: int| 0 <= j < s2.len() && s2[j] == x;
        let rest1 = s1.remove(0);
        let rest2 = s2.remove(j);
        assert(rest1.to_multiset() =~= s1.to_multiset().remove(x));
        assert(rest2.to_multiset() =~= s2.to_multiset().remove(x));
        lemma_map_reordered(rest1, rest2, f);
        assert(s1.map_values(f).remove(0) =~= rest1.map_values(f));
        assert(s2.map_values(f).remove(j) =~= rest2.map_values(f));
        let m1 = s1.map_values(f);
        let m2 = s2.map_values(f);
        assert(m1.remove(0).to_multiset() =~= m1.to_multiset().remove(f(x)));
        assert(m2.remove(j).to_multiset() =~= m2.to_multiset().remove(f(x)));
        assert(m1.to_multiset().count(f(x)) > 0);
        assert(m2.to_multiset().count(f(x)) > 0);
        assert(m1.to_multiset() =~= m1.to_multiset().remove(f(x)).insert(f(x)));
        assert(m2.to_multiset() =~= m2.to_multiset().remove(f(x)).insert(f(x)));
    }
}

/// Two reflection replies that list the same methods in another order, and
/// carry the same schema text, get the same verdict.
pub proof fn law_reflection_order_free(body1: Seq<u8>, body2: Seq<u8>)
    requires
        records_at(decoded(FRpcReflectResponse::kinds(), body1, Limits::spec_unlimited()), 0).to_multiset()
            == records_at(decoded(FRpcReflectResponse::kinds(), body2, Limits::spec_unlimited()), 0).to_multiset(),
        listed_schema(body1) == listed_schema(body2),
    ensures
        listing_matches(body1) == listing_matches(body2),
        fingerprint_carried(body1) == fingerprint_carried(body2),
{
    lemma_map_reordered(
        records_at(decoded(FRpcReflectResponse::kinds(), body1, Limits::spec_unlimited()), 0),
        records_at(decoded(FRpcReflectResponse::kinds(), body2, Limits::spec_unlimited()), 0),
        |record: Seq<Scalar>| record_description(record),
    );
}

/// The status the driver exits with: 0 when no check failed, 1 otherwise.
pub fn drive_exit_status(failures: u64) -> (code: u8)
    ensures
        code == (if failures == 0 { 0u8 } else { 1u8 }),
{
    if failures == 0 {
        0
    } else {
        1
    }
}

/// The driver's count of failed checks after one more check.
pub fn tally(failures: u64, passed: bool) -> (count: u64)
    requires
        passed || failures < u64::MAX,
    ensures
        count == (if passed { failures } else { (failures + 1) as u64 }),
{
    if passed {
        failures
    } else {
        failures + 1
    }
}

} // verus!
