use fomoxa_interop::schema::{messages, schema, SCHEMA_FINGERPRINT};

#[test]
fn the_schema_is_accepted_by_fomoxa_net() {
    let built = schema();
    assert_eq!(built.fingerprint(), SCHEMA_FINGERPRINT);
    assert_eq!(built.messages().len(), 19);
    let ids: Vec<u32> = built.messages().iter().map(|m| m.id()).collect();
    let mut sorted = ids.clone();
    sorted.sort();
    sorted.dedup();
    assert_eq!(ids, sorted);
}

#[test]
fn every_message_ends_with_its_fingerprint() {
    for entry in messages() {
        if let Some(last) = entry.prefixes.last() {
            assert_eq!(*last, entry.fingerprint);
        }
    }
    let built = schema();
    let ctx = built.message(0x5AE3B9AC).expect("FRpcCtx");
    assert_eq!(ctx.field_count(), 7);
    assert_eq!(ctx.fingerprint(), 0x3B43F47205E0362D);
}
