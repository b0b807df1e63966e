//! The schema both fRPC peers are built from: every message with its
//! fingerprint and the fingerprints of its field prefixes, which the
//! handshake compares, and the fingerprint of the whole.
use std::sync::Arc;
use vstd::prelude::*;
use fomoxa_net::schema::{MessageSchema, Schema};

verus! {

/// The fingerprint of the whole demo schema: every message, by name, with
/// its own fingerprint, hashed together.
pub const SCHEMA_FINGERPRINT: u64 = 0xB8F0E2543FC9C60D;

/// The most messages one schema may declare (`fomoxa_net::handshake::MAX_MESSAGES`).
pub const MAX_MESSAGES: usize = 1_000_000;

/// One message of a schema: its id, its fingerprint, and one fingerprint
/// per prefix of its fields, the last being the message's own.
#[derive(Debug)]
pub struct MessageEntry {
    pub id: u32,
    pub fingerprint: u64,
    pub prefixes: Vec<u64>,
}

/// A message entry as plain values.
pub open spec fn entry_view(entry: MessageEntry) -> (u32, u64, Seq<u64>) {
    (entry.id, entry.fingerprint, entry.prefixes@)
}

/// Message entries as plain values.
pub open spec fn entry_views(entries: Seq<MessageEntry>) -> Seq<(u32, u64, Seq<u64>)> {
    entries.map_values(|entry: MessageEntry| entry_view(entry))
}

/// Whether a message's prefixes fit a `u16` count and, when there are any,
/// end with the message's fingerprint.
pub open spec fn message_ok(message: (u32, u64, Seq<u64>)) -> bool {
    &&& message.2.len() <= 0xFFFF
    &&& message.2.len() > 0 ==> message.2.last() == message.1
}

/// Whether a schema of these messages is accepted: not too many of them,
/// each well formed, and no id declared twice.
pub open spec fn schema_accepts(messages: Seq<(u32, u64, Seq<u64>)>) -> bool {
    &&& messages.len() <= MAX_MESSAGES
    &&& forall|i: int| 0 <= i < messages.len() ==> #[trigger] message_ok(messages[i])
    &&& forall|i: int, j: int| 0 <= i < j < messages.len() ==> messages[i].0 != messages[j].0
}

/// Whether the ids of `messages` strictly increase.
pub open spec fn ids_increasing(messages: Seq<(u32, u64, Seq<u64>)>) -> bool {
    forall|i: int, j: int| 0 <= i < j < messages.len() ==> messages[i].0 < messages[j].0
}

/// The fingerprint a built schema holds.
pub uninterp spec fn schema_fingerprint(schema: Schema) -> u64;

/// The messages a built schema holds, in the order it keeps them.
pub uninterp spec fn schema_messages(schema: Schema) -> Seq<(u32, u64, Seq<u64>)>;

/// `fomoxa_net::schema::Schema`, which a session is opened with.
#[verifier::external_type_specification]
#[verifier::external_body]
pub struct ExSchema(Schema);

/// `fomoxa_net::schema::Schema::new` refuses more than
/// `MAX_MESSAGES` messages, a message with more than `u16::MAX` prefixes or
/// whose last prefix is not its fingerprint, and an id declared twice; it
/// accepts anything else, keeping the fingerprint and the messages sorted
/// by id.
#[verifier::external_body]
fn build_schema(fingerprint: u64, entries: &Vec<MessageEntry>) -> (schema: Option<Schema>)
    ensures
        schema is Some <==> schema_accepts(entry_views(entries@)),
        schema matches Some(s) ==> {
            &&& schema_fingerprint(s) == fingerprint
            &&& schema_messages(s).to_multiset() == entry_views(entries@).to_multiset()
            &&& ids_increasing(schema_messages(s))
        },
{
    let messages: Vec<MessageSchema> = entries
        .iter()
        .map(|entry| MessageSchema::new(entry.id, entry.fingerprint, entry.prefixes.clone()))
        .collect();
    Schema::new(fingerprint, messages).ok()
}

/// Every message of the demo schema, by increasing id.
pub open spec fn message_table() -> Seq<(u32, u64, Seq<u64>)> {
    seq![
        (0x0386DCA3u32, 0x7A9CB5B5480D918Au64, seq![0x7A9CB5B5480D918Au64]),  // UploadDone.rpc
        (0x109F8C60u32, 0xD477F0362150CB3Du64, seq![0xD477F0362150CB3Du64]),  // EchoRequest.rpc
        (0x188823FAu32, 0x12D24DCF758A9769u64, seq![0x12D24DCF758A9769u64]),  // CountRequest.rpc
        (0x315285E4u32, 0x46A5DF3127C6E384u64, seq![0x46A5DF3127C6E384u64]),  // UploadOpen.rpc
        (0x35BE4510u32, 0x820BA1C0FDACDCFCu64, seq![0x820BA1C0FDACDCFCu64]),  // TicksItem.rpc
        (0x5AE3B9ACu32, 0x3B43F47205E0362Du64, seq![0x8001ED8EC14681BBu64, 0x0E639D9A7BA779AEu64, 0x30DC5256C33F9BC2u64, 0x2B280600965F971Eu64, 0x98AB443D256795B2u64, 0xA35FE2811247558Bu64, 0x3B43F47205E0362Du64]),  // FRpcCtx.rpc
        (0x5FB691E2u32, 0xA3A551BBFCF90A6Cu64, seq![0xA3A551BBFCF90A6Cu64]),  // CountItem.rpc
        (0x65DB5549u32, 0xB28344E68B53BAB6u64, seq![0xB28344E68B53BAB6u64]),  // UploadChunk.rpc
        (0x6D10D388u32, 0xF0B7D74B8A72541Bu64, seq![0x1CFCAACFF8F74D16u64, 0x40160EB735B6818Au64, 0x9C5C415004A2F8C1u64, 0x577AD38C2371DC87u64, 0x76D63BA5A1D8AA4Du64, 0xF0B7D74B8A72541Bu64]),  // FRpcMethodInfo.rpc
        (0x789A010Fu32, 0x9F3D9AEE476F42BDu64, seq![0x9F3D9AEE476F42BDu64]),  // FRpcCredit.rpc
        (0x96D79DEDu32, 0x23368E8A5E0FCA18u64, seq![0x23368E8A5E0FCA18u64]),  // EchoResponse.rpc
        (0x9C0C80F3u32, 0xAAAB56B8165C245Bu64, seq![]),  // FRpcReflectRequest.rpc
        (0xACBEA203u32, 0xE1399A587A239B43u64, seq![0xE1399A587A239B43u64]),  // ChatSaid.rpc
        (0xBF94ECC4u32, 0x4A043B62FDC0E07Du64, seq![0xA58EA55F6A679084u64, 0x4A043B62FDC0E07Du64]),  // FRpcError.rpc
        (0xD42A8CD7u32, 0x2A2C539FD24D8B44u64, seq![0xFD550335C35A454Bu64, 0x2A2C539FD24D8B44u64]),  // FRpcReflectResponse.rpc
        (0xD4A891C4u32, 0x2B58FE10F955C833u64, seq![]),  // FRpcVoid.rpc
        (0xE037CA19u32, 0xE7F7CA08D16B1A00u64, seq![0xE7F7CA08D16B1A00u64]),  // ChatHeard.rpc
        (0xE96A59D5u32, 0x68C7B9B2E11A98D3u64, seq![]),  // TicksRequest.rpc
        (0xEAEB5F14u32, 0x3D4AF6B9C83E293Bu64, seq![0x3D4AF6B9C83E293Bu64]),  // ChatOpen.rpc
    ]
}

/// Whether each message of `messages` is well formed, checked one by one.
pub open spec fn all_ok(messages: Seq<(u32, u64, Seq<u64>)>) -> bool
    decreases messages.len(),
{
    messages.len() == 0 || (message_ok(messages[0]) && all_ok(messages.drop_first()))
}

/// Whether each id of `messages` is below the next, checked pair by pair.
pub open spec fn each_below_next(messages: Seq<(u32, u64, Seq<u64>)>) -> bool
    decreases messages.len(),
{
    messages.len() < 2 || (messages[0].0 < messages[1].0 && each_below_next(messages.drop_first()))
}

/// Checking one by one, and pair by pair, shows a schema accepted with
/// increasing ids.
pub proof fn lemma_checked_table(messages: Seq<(u32, u64, Seq<u64>)>)
    requires
        all_ok(messages),
        each_below_next(messages),
        messages.len() <= MAX_MESSAGES,
    ensures
        schema_accepts(messages),
        ids_increasing(messages),
    decreases messages.len(),
{
    if messages.len() > 0 {
        let rest = messages.drop_first();
        lemma_checked_table(rest);
        assert forall|i: int| 0 <= i < messages.len() implies #[trigger] message_ok(messages[i]) by {
            if i > 0 {
                assert(messages[i] == rest[i - 1]);
            }
        }
        assert forall|i: int, j: int| 0 <= i < j < messages.len() implies messages[i].0 < messages[j].0 by {
            if i > 0 {
                assert(messages[i] == rest[i - 1]);
                assert(messages[j] == rest[j - 1]);
            } else if j > 1 {
                assert(messages[j] == rest[j - 1]);
                assert(messages[1] == rest[0]);
            }
        }
    }
}

/// The messages of the demo schema, by increasing id.
pub fn messages() -> (entries: Vec<MessageEntry>)
    ensures
        entry_views(entries@) == message_table(),
{
    let mut entries: Vec<MessageEntry> = Vec::new();
    entries.push(MessageEntry { id: 0x0386DCA3, fingerprint: 0x7A9CB5B5480D918A, prefixes: vec![0x7A9CB5B5480D918A] });
    entries.push(MessageEntry { id: 0x109F8C60, fingerprint: 0xD477F0362150CB3D, prefixes: vec![0xD477F0362150CB3D] });
    entries.push(MessageEntry { id: 0x188823FA, fingerprint: 0x12D24DCF758A9769, prefixes: vec![0x12D24DCF758A9769] });
    entries.push(MessageEntry { id: 0x315285E4, fingerprint: 0x46A5DF3127C6E384, prefixes: vec![0x46A5DF3127C6E384] });
    entries.push(MessageEntry { id: 0x35BE4510, fingerprint: 0x820BA1C0FDACDCFC, prefixes: vec![0x820BA1C0FDACDCFC] });
    entries.push(MessageEntry { id: 0x5AE3B9AC, fingerprint: 0x3B43F47205E0362D, prefixes: vec![0x8001ED8EC14681BB, 0x0E639D9A7BA779AE, 0x30DC5256C33F9BC2, 0x2B280600965F971E, 0x98AB443D256795B2, 0xA35FE2811247558B, 0x3B43F47205E0362D] });
    entries.push(MessageEntry { id: 0x5FB691E2, fingerprint: 0xA3A551BBFCF90A6C, prefixes: vec![0xA3A551BBFCF90A6C] });
    entries.push(MessageEntry { id: 0x65DB5549, fingerprint: 0xB28344E68B53BAB6, prefixes: vec![0xB28344E68B53BAB6] });
    entries.push(MessageEntry { id: 0x6D10D388, fingerprint: 0xF0B7D74B8A72541B, prefixes: vec![0x1CFCAACFF8F74D16, 0x40160EB735B6818A, 0x9C5C415004A2F8C1, 0x577AD38C2371DC87, 0x76D63BA5A1D8AA4D, 0xF0B7D74B8A72541B] });
    entries.push(MessageEntry { id: 0x789A010F, fingerprint: 0x9F3D9AEE476F42BD, prefixes: vec![0x9F3D9AEE476F42BD] });
    entries.push(MessageEntry { id: 0x96D79DED, fingerprint: 0x23368E8A5E0FCA18, prefixes: vec![0x23368E8A5E0FCA18] });
    entries.push(MessageEntry { id: 0x9C0C80F3, fingerprint: 0xAAAB56B8165C245B, prefixes: vec![] });
    entries.push(MessageEntry { id: 0xACBEA203, fingerprint: 0xE1399A587A239B43, prefixes: vec![0xE1399A587A239B43] });
    entries.push(MessageEntry { id: 0xBF94ECC4, fingerprint: 0x4A043B62FDC0E07D, prefixes: vec![0xA58EA55F6A679084, 0x4A043B62FDC0E07D] });
    entries.push(MessageEntry { id: 0xD42A8CD7, fingerprint: 0x2A2C539FD24D8B44, prefixes: vec![0xFD550335C35A454B, 0x2A2C539FD24D8B44] });
    entries.push(MessageEntry { id: 0xD4A891C4, fingerprint: 0x2B58FE10F955C833, prefixes: vec![] });
    entries.push(MessageEntry { id: 0xE037CA19, fingerprint: 0xE7F7CA08D16B1A00, prefixes: vec![0xE7F7CA08D16B1A00] });
    entries.push(MessageEntry { id: 0xE96A59D5, fingerprint: 0x68C7B9B2E11A98D3, prefixes: vec![] });
    entries.push(MessageEntry { id: 0xEAEB5F14, fingerprint: 0x3D4AF6B9C83E293B, prefixes: vec![0x3D4AF6B9C83E293B] });
    assert(entry_views(entries@) =~~= message_table());
    entries
}

/// The demo schema as a session is opened with it: this fingerprint, and
/// every message of the table, by increasing id. The table is always
/// accepted.
pub fn schema() -> (schema: Arc<Schema>)
    ensures
        schema_fingerprint(*schema) == SCHEMA_FINGERPRINT,
        schema_messages(*schema).to_multiset() == message_table().to_multiset(),
        ids_increasing(schema_messages(*schema)),
{
    let entries = messages();
    proof {
        let table = message_table();
        assert(all_ok(table)) by {
            reveal_with_fuel(all_ok, 20);
        }
        assert(each_below_next(table)) by {
            reveal_with_fuel(each_below_next, 20);
        }
        lemma_checked_table(message_table());
    }
    let built = build_schema(SCHEMA_FINGERPRINT, &entries);
    Arc::new(built.unwrap())
}

} // verus!
