//! The registries a caller declares its methods in: built with
//! `fomoxa_rpc`'s registry builder, and shown to be accepted by it.
use std::sync::Arc;
use vstd::prelude::*;
use fomoxa_rpc::{Registry, RegistryBuilder};
use crate::interop::{
    declared_methods, is_chat, is_count, is_missing, is_reflect, is_say, is_ticks, is_upload,
};
use crate::methods::{Method, RetrySafety, Shape};
use crate::models::frpc::{FRpcCreditRpcCodec, FRpcErrorRpcCodec, FRpcVoidRpcCodec};

verus! {

/// The most methods one registry may hold (`fomoxa_rpc::descriptor::MAX_METHODS`).
pub const MAX_METHODS: usize = 65_536;

/// A method as a registry holds it: its name, its shape, its request id,
/// the id of the items its caller streams if it does, its reply id, its
/// retry safety, and whether a handler serves it.
pub type MethodEntry = (Seq<char>, Shape, u32, Option<u32>, u32, RetrySafety, bool);

/// A method as a registry holds it once declared: served by no handler.
pub open spec fn method_entry(method: Method) -> MethodEntry {
    (
        method.name@,
        method.shape,
        method.request_id,
        method.request_item_id,
        method.reply_id,
        method.retry_safety,
        false,
    )
}

/// What a registry builder holds: its void, error and credit ids, each
/// method in the order it was added, and whether it also carries reflection
/// or plain message ids, which none of the builder steps here adds. A
/// method's permission and idle limit are not part of it.
pub uninterp spec fn builder_contents(builder: RegistryBuilder) -> (u32, u32, Option<u32>, Seq<MethodEntry>, bool);

/// What a built registry holds: its void, error and credit ids, and each
/// method in the order it was added.
pub uninterp spec fn registry_contents(registry: Registry) -> (u32, u32, Option<u32>, Seq<MethodEntry>);

/// The void, error and credit ids and the methods of a builder's contents.
pub open spec fn held(contents: (u32, u32, Option<u32>, Seq<MethodEntry>, bool)) -> (u32, u32, Option<u32>, Seq<MethodEntry>) {
    (contents.0, contents.1, contents.2, contents.3)
}

/// `fomoxa_rpc::RegistryBuilder`, which collects a registry's methods.
#[verifier::external_type_specification]
#[verifier::external_body]
pub struct ExRegistryBuilder(RegistryBuilder);

/// `fomoxa_rpc::Registry`, the methods a session knows.
#[verifier::external_type_specification]
#[verifier::external_body]
pub struct ExRegistry(Registry);

/// Whether message id `id` is one of the void, error and credit ids.
pub open spec fn is_system_id(contents: (u32, u32, Option<u32>, Seq<MethodEntry>), id: u32) -> bool {
    id == contents.0 || id == contents.1 || contents.2 == Some(id)
}

/// Whether a builder holding `contents` builds: not too many methods, no
/// request id used twice, and no method using a system id.
pub open spec fn registry_accepts(contents: (u32, u32, Option<u32>, Seq<MethodEntry>)) -> bool {
    let methods = contents.3;
    &&& methods.len() <= MAX_METHODS
    &&& forall|i: int, j: int| 0 <= i < j < methods.len() ==> methods[i].2 != methods[j].2
    &&& forall|i: int| 0 <= i < methods.len() ==> {
        let entry = #[trigger] methods[i];
        &&& !is_system_id(contents, entry.2)
        &&& !is_system_id(contents, entry.4)
        &&& entry.3 matches Some(item) ==> !is_system_id(contents, item)
    }
}

/// `fomoxa_rpc::Registry::builder` starts a builder with these
/// void and error ids, no credit id, no methods, no reflection and no plain
/// message ids.
#[verifier::external_body]
fn registry_builder(void_id: u32, error_id: u32) -> (builder: RegistryBuilder)
    ensures
        builder_contents(builder) == (void_id, error_id, None::<u32>, Seq::<MethodEntry>::empty(), false),
{
    Registry::builder(void_id, error_id)
}

/// `fomoxa_rpc::RegistryBuilder::credit` sets the credit id and
/// changes nothing else.
#[verifier::external_body]
fn with_credit(builder: RegistryBuilder, credit_id: u32) -> (next: RegistryBuilder)
    ensures
        ({
            let old = builder_contents(builder);
            builder_contents(next) == (old.0, old.1, Some(credit_id), old.3, old.4)
        }),
{
    builder.credit(credit_id)
}

/// `fomoxa_rpc::RegistryBuilder::declare` appends the method,
/// with no handler, and changes nothing else.
#[verifier::external_body]
fn declare(builder: RegistryBuilder, method: Method) -> (next: RegistryBuilder)
    ensures
        ({
            let old = builder_contents(builder);
            builder_contents(next) == (old.0, old.1, old.2, old.3.push(method_entry(method)), old.4)
        }),
{
    let shape = match method.shape {
        Shape::Unary => fomoxa_rpc::Shape::Unary,
        Shape::ServerStream => fomoxa_rpc::Shape::ServerStream,
        Shape::ClientStream => fomoxa_rpc::Shape::ClientStream,
        Shape::BidiStream => fomoxa_rpc::Shape::BidiStream,
    };
    let retry_safety = match method.retry_safety {
        RetrySafety::Unsafe => fomoxa_rpc::RetrySafety::Unsafe,
        RetrySafety::Idempotent => fomoxa_rpc::RetrySafety::Idempotent,
        RetrySafety::Keyed => fomoxa_rpc::RetrySafety::Keyed,
    };
    let Method { name, request_id, request_item_id, reply_id, .. } = method;
    let (permission, idle_limit) = (None, None);
    builder.declare(fomoxa_rpc::Method { name, shape, request_id, request_item_id, reply_id, permission, retry_safety, idle_limit })
}

/// `fomoxa_rpc::RegistryBuilder::build`: for a builder with no reflection
/// and no plain message ids, it refuses more than `MAX_METHODS`
/// methods, a request id used twice and a method using a system id, and
/// otherwise builds a registry holding what the builder held. Of a builder
/// with reflection, to which it adds the reflection method first, or with
/// plain message ids, nothing is stated.
#[verifier::external_body]
pub(crate) fn build(builder: RegistryBuilder) -> (registry: Option<Registry>)
    ensures
        !builder_contents(builder).4 ==> (registry is Some <==> registry_accepts(held(builder_contents(builder)))),
        !builder_contents(builder).4 ==> (registry matches Some(r) ==> registry_contents(r) == held(builder_contents(builder))),
{
    builder.build().ok()
}

/// A builder with the demo's void, error and credit ids.
fn demo_builder() -> (builder: RegistryBuilder)
    ensures
        builder_contents(builder) == with_methods(demo_contents(Seq::empty())),
{
    with_credit(
        registry_builder(FRpcVoidRpcCodec::MESSAGE_ID, FRpcErrorRpcCodec::MESSAGE_ID),
        FRpcCreditRpcCodec::MESSAGE_ID,
    )
}

/// The demo's void, error and credit ids, with these methods.
pub open spec fn demo_contents(methods: Seq<MethodEntry>) -> (u32, u32, Option<u32>, Seq<MethodEntry>) {
    (FRpcVoidRpcCodec::MESSAGE_ID, FRpcErrorRpcCodec::MESSAGE_ID, Some(FRpcCreditRpcCodec::MESSAGE_ID), methods)
}

/// A builder's contents holding `contents` and nothing else.
pub open spec fn with_methods(contents: (u32, u32, Option<u32>, Seq<MethodEntry>)) -> (u32, u32, Option<u32>, Seq<MethodEntry>, bool) {
    (contents.0, contents.1, contents.2, contents.3, false)
}

/// A demo builder with `methods` declared in order.
pub(crate) fn declare_all(methods: Vec<Method>) -> (builder: RegistryBuilder)
    ensures
        builder_contents(builder) == with_methods(demo_contents(methods@.map_values(|m: Method| method_entry(m)))),
{
    let mut builder = demo_builder();
    let ghost all = methods@;
    let mut rest = methods;
    let mut i: usize = 0;
    let count = rest.len();
    assert(all.skip(0) =~= all);
    assert(all.take(0).map_values(|m: Method| method_entry(m)) =~= Seq::<MethodEntry>::empty());
    while rest.len() > 0
        invariant
            i + rest@.len() == all.len(),
            all.len() == count,
            rest@ == all.skip(i as int),
            builder_contents(builder) == with_methods(demo_contents(all.take(i as int).map_values(|m: Method| method_entry(m)))),
        decreases rest@.len(),
    {
        let method = rest.remove(0);
        assert(method == all[i as int]);
        builder = declare(builder, method);
        assert(all.take(i + 1).map_values(|m: Method| method_entry(m))
            =~= all.take(i as int).map_values(|m: Method| method_entry(m)).push(method_entry(all[i as int])));
        i = i + 1;
        assert(rest@ =~= all.skip(i as int));
    }
    assert(all.take(i as int) =~= all);
    builder
}

/// The methods the driver declares, in order, none of them served.
pub open spec fn driver_methods() -> Seq<MethodEntry> {
    seq![
        ("FRpc.Reflect"@, Shape::Unary, 0x9C0C80F3u32, None::<u32>, 0xD42A8CD7u32, RetrySafety::Unsafe, false),
        ("Echo.Say"@, Shape::Unary, 0x109F8C60u32, None::<u32>, 0x96D79DEDu32, RetrySafety::Unsafe, false),
        ("Echo.Count"@, Shape::ServerStream, 0x188823FAu32, None::<u32>, 0x5FB691E2u32, RetrySafety::Unsafe, false),
        ("Blob.Upload"@, Shape::ClientStream, 0x315285E4u32, Some(0x65DB5549u32), 0x0386DCA3u32, RetrySafety::Unsafe, false),
        ("Room.Chat"@, Shape::BidiStream, 0xEAEB5F14u32, Some(0xACBEA203u32), 0xE037CA19u32, RetrySafety::Unsafe, false),
        ("Clock.Ticks"@, Shape::ServerStream, 0xE96A59D5u32, None::<u32>, 0x35BE4510u32, RetrySafety::Unsafe, false),
        ("Echo.Missing"@, Shape::Unary, 0x5AE3B9ACu32, None::<u32>, 0x96D79DEDu32, RetrySafety::Unsafe, false),
    ]
}

/// The driver's registry: reflection, the five demo methods and
/// `Echo.Missing`, each declared with its name, shape, ids and retry safety
/// and served by no handler, with the demo's void, error and credit ids. It
/// always builds.
pub fn driver_registry() -> (registry: Arc<Registry>)
    ensures
        registry_contents(*registry) == demo_contents(driver_methods()),
{
    let methods = declared_methods();
    proof {
        assert(methods@.map_values(|m: Method| method_entry(m)) =~= driver_methods());
    }
    let builder = declare_all(methods);
    let built = build(builder);
    Arc::new(built.unwrap())
}

} // verus!
