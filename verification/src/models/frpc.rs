//! The fRPC system models: void, error, credit, call context and reflection.
use vstd::prelude::*;
use crate::message::{
    defaults, field_fits, fields_fit, lemma_progress_done, lemma_progress_field,
    lemma_progress_start, message_wire, read_blob_field, read_fields, read_text_field,
    read_u32_field, Field, FieldKind, Scalar, ScalarKind,
    lemma_read_record_used, lemma_records_step, lemma_records_wire_push,
    lemma_scalar_message_fits, lemma_scalar_message_is_record, lemma_scalar_message_wire,
    read_count_field, read_field, read_record, read_records, record_fits, records_wire,
    scalar_field_kinds, scalar_fields, then_records,
};
use crate::wire::{DecodeError, Limits, Reader, Writer, len_wire};

verus! {

/// The empty message.
#[derive(Debug, Clone)]
pub struct FRpcVoid {}

impl FRpcVoid {
    /// The wire types of the fields, in declaration order.
    pub open spec fn kinds() -> Seq<FieldKind> {
        Seq::empty()
    }

    /// The field values, in declaration order.
    pub open spec fn fields(&self) -> Seq<Field> {
        Seq::empty()
    }
}

impl Default for FRpcVoid {
    fn default() -> (value: FRpcVoid)
        ensures
            value.fields() == defaults(FRpcVoid::kinds()),
    {
        let value = FRpcVoid {};
        assert(value.fields() =~= defaults(FRpcVoid::kinds()));
        value
    }
}

/// The `rpc` codec of [`FRpcVoid`].
pub struct FRpcVoidRpcCodec;

impl FRpcVoidRpcCodec {
    /// This message's stable id.
    pub const MESSAGE_ID: u32 = 0xD4A891C4;

    /// This message's wire-contract fingerprint.
    pub const FINGERPRINT: u64 = 0x2B58FE10F955C833;

    /// Writes the fields of `value`, in declaration order.
    pub fn encode(writer: &mut Writer, value: &FRpcVoid)
        requires
            fields_fit(value.fields(), FRpcVoid::kinds(), Limits::spec_unlimited()),
        ensures
            final(writer)@ == old(writer)@ + message_wire(value.fields()),
    {
        proof {
            reveal_with_fuel(message_wire, 1);
            assert(final(writer)@ =~= old(writer)@ + message_wire(value.fields()));
        }
    }

    /// Reads the fields into `value`, in declaration order: a field the stream
    /// ended before takes its zero value, and on an error the fields not reached
    /// are left as they were.
    pub fn decode(reader: &mut Reader<'_>, value: &mut FRpcVoid) -> (r: Result<(), DecodeError>)
        ensures
            ({
                let (fs, used, err) = read_fields(FRpcVoid::kinds(), old(reader).rest(), old(reader).limits_spec());
                &&& old(reader).advanced(final(reader), used)
                &&& final(value).fields() =~= fs + old(value).fields().skip(fs.len() as int)
                &&& err matches Some(e) ==> r == Err::<(), DecodeError>(e)
                &&& err is None ==> r is Ok
            }),
    {
        let ghost start = *reader;
        let ghost kinds = FRpcVoid::kinds();
        let ghost mut done: Seq<Field> = Seq::empty();
        let ghost mut used: int = 0;
        proof {
            lemma_progress_start(kinds, start);
        }
        proof {
            lemma_progress_done(kinds, start, *reader, done, used);
        }
        Ok(())
    }
}

/// The status of a failed call.
#[derive(Debug, Clone)]
pub struct FRpcError {
    pub code: u32,
    pub message: String,
}

impl FRpcError {
    /// The wire types of the fields, in declaration order.
    pub open spec fn kinds() -> Seq<FieldKind> {
        seq![FieldKind::One(ScalarKind::U32), FieldKind::One(ScalarKind::Text)]
    }

    /// The field values, in declaration order.
    pub open spec fn fields(&self) -> Seq<Field> {
        seq![Field::One(Scalar::U32(self.code)), Field::One(Scalar::Text(self.message@))]
    }
}

impl Default for FRpcError {
    fn default() -> (value: FRpcError)
        ensures
            value.fields() == defaults(FRpcError::kinds()),
    {
        let value = FRpcError { code: 0, message: String::new() };
        assert(value.fields() =~= defaults(FRpcError::kinds()));
        value
    }
}

/// The `rpc` codec of [`FRpcError`].
pub struct FRpcErrorRpcCodec;

impl FRpcErrorRpcCodec {
    /// This message's stable id.
    pub const MESSAGE_ID: u32 = 0xBF94ECC4;

    /// This message's wire-contract fingerprint.
    pub const FINGERPRINT: u64 = 0x4A043B62FDC0E07D;

    /// Writes the fields of `value`, in declaration order.
    pub fn encode(writer: &mut Writer, value: &FRpcError)
        requires
            fields_fit(value.fields(), FRpcError::kinds(), Limits::spec_unlimited()),
        ensures
            final(writer)@ == old(writer)@ + message_wire(value.fields()),
    {
        proof {
            assert(field_fits(value.fields()[1], FRpcError::kinds()[1], Limits::spec_unlimited()));
        }
        writer.write_u32(value.code);
        writer.write_string(value.message.as_str());
        proof {
            reveal_with_fuel(message_wire, 3);
            assert(final(writer)@ =~= old(writer)@ + message_wire(value.fields()));
        }
    }

    /// Reads the fields into `value`, in declaration order: a field the stream
    /// ended before takes its zero value, and on an error the fields not reached
    /// are left as they were.
    pub fn decode(reader: &mut Reader<'_>, value: &mut FRpcError) -> (r: Result<(), DecodeError>)
        ensures
            ({
                let (fs, used, err) = read_fields(FRpcError::kinds(), old(reader).rest(), old(reader).limits_spec());
                &&& old(reader).advanced(final(reader), used)
                &&& final(value).fields() =~= fs + old(value).fields().skip(fs.len() as int)
                &&& err matches Some(e) ==> r == Err::<(), DecodeError>(e)
                &&& err is None ==> r is Ok
            }),
    {
        let ghost start = *reader;
        let ghost kinds = FRpcError::kinds();
        let ghost mut done: Seq<Field> = Seq::empty();
        let ghost mut used: int = 0;
        proof {
            lemma_progress_start(kinds, start);
        }
        let ghost before = *reader;
        proof {
            lemma_progress_field(kinds, start, before, before, 0, done, used);
        }
        let x = read_u32_field(reader)?;
        proof {
            lemma_progress_field(kinds, start, before, *reader, 0, done, used);
            done = done.push(Field::One(Scalar::U32(x)));
            used = used + (reader.offset() - before.offset());
        }
        value.code = x;
        let ghost before = *reader;
        proof {
            lemma_progress_field(kinds, start, before, before, 1, done, used);
        }
        let x = read_text_field(reader)?;
        proof {
            lemma_progress_field(kinds, start, before, *reader, 1, done, used);
            done = done.push(Field::One(Scalar::Text(x@)));
            used = used + (reader.offset() - before.offset());
        }
        value.message = x;
        proof {
            lemma_progress_done(kinds, start, *reader, done, used);
        }
        Ok(())
    }
}

/// Flow-control credit: how many more items a receiver accepts.
#[derive(Debug, Clone)]
pub struct FRpcCredit {
    pub items: u32,
}

impl FRpcCredit {
    /// The wire types of the fields, in declaration order.
    pub open spec fn kinds() -> Seq<FieldKind> {
        seq![FieldKind::One(ScalarKind::U32)]
    }

    /// The field values, in declaration order.
    pub open spec fn fields(&self) -> Seq<Field> {
        seq![Field::One(Scalar::U32(self.items))]
    }
}

impl Default for FRpcCredit {
    fn default() -> (value: FRpcCredit)
        ensures
            value.fields() == defaults(FRpcCredit::kinds()),
    {
        let value = FRpcCredit { items: 0 };
        assert(value.fields() =~= defaults(FRpcCredit::kinds()));
        value
    }
}

/// The `rpc` codec of [`FRpcCredit`].
pub struct FRpcCreditRpcCodec;

impl FRpcCreditRpcCodec {
    /// This message's stable id.
    pub const MESSAGE_ID: u32 = 0x789A010F;

    /// This message's wire-contract fingerprint.
    pub const FINGERPRINT: u64 = 0x9F3D9AEE476F42BD;

    /// Writes the fields of `value`, in declaration order.
    pub fn encode(writer: &mut Writer, value: &FRpcCredit)
        requires
            fields_fit(value.fields(), FRpcCredit::kinds(), Limits::spec_unlimited()),
        ensures
            final(writer)@ == old(writer)@ + message_wire(value.fields()),
    {
        writer.write_u32(value.items);
        proof {
            reveal_with_fuel(message_wire, 2);
            assert(final(writer)@ =~= old(writer)@ + message_wire(value.fields()));
        }
    }

    /// Reads the fields into `value`, in declaration order: a field the stream
    /// ended before takes its zero value, and on an error the fields not reached
    /// are left as they were.
    pub fn decode(reader: &mut Reader<'_>, value: &mut FRpcCredit) -> (r: Result<(), DecodeError>)
        ensures
            ({
                let (fs, used, err) = read_fields(FRpcCredit::kinds(), old(reader).rest(), old(reader).limits_spec());
                &&& old(reader).advanced(final(reader), used)
                &&& final(value).fields() =~= fs + old(value).fields().skip(fs.len() as int)
                &&& err matches Some(e) ==> r == Err::<(), DecodeError>(e)
                &&& err is None ==> r is Ok
            }),
    {
        let ghost start = *reader;
        let ghost kinds = FRpcCredit::kinds();
        let ghost mut done: Seq<Field> = Seq::empty();
        let ghost mut used: int = 0;
        proof {
            lemma_progress_start(kinds, start);
        }
        let ghost before = *reader;
        proof {
            lemma_progress_field(kinds, start, before, before, 0, done, used);
        }
        let x = read_u32_field(reader)?;
        proof {
            lemma_progress_field(kinds, start, before, *reader, 0, done, used);
            done = done.push(Field::One(Scalar::U32(x)));
            used = used + (reader.offset() - before.offset());
        }
        value.items = x;
        proof {
            lemma_progress_done(kinds, start, *reader, done, used);
        }
        Ok(())
    }
}

/// The call context a caller may attach to a call.
#[derive(Debug, Clone)]
pub struct FRpcCtx {
    pub deadline_ms: u32,
    pub trace_id: Vec<u8>,
    pub span_id: Vec<u8>,
    pub token: String,
    pub tenant: String,
    pub idempotency_key: Vec<u8>,
    pub initial_credit: u32,
}

impl FRpcCtx {
    /// The wire types of the fields, in declaration order.
    pub open spec fn kinds() -> Seq<FieldKind> {
        seq![FieldKind::One(ScalarKind::U32), FieldKind::One(ScalarKind::Blob), FieldKind::One(ScalarKind::Blob), FieldKind::One(ScalarKind::Text), FieldKind::One(ScalarKind::Text), FieldKind::One(ScalarKind::Blob), FieldKind::One(ScalarKind::U32)]
    }

    /// The field values, in declaration order.
    pub open spec fn fields(&self) -> Seq<Field> {
        seq![Field::One(Scalar::U32(self.deadline_ms)), Field::One(Scalar::Blob(self.trace_id@)), Field::One(Scalar::Blob(self.span_id@)), Field::One(Scalar::Text(self.token@)), Field::One(Scalar::Text(self.tenant@)), Field::One(Scalar::Blob(self.idempotency_key@)), Field::One(Scalar::U32(self.initial_credit))]
    }
}

impl Default for FRpcCtx {
    fn default() -> (value: FRpcCtx)
        ensures
            value.fields() == defaults(FRpcCtx::kinds()),
    {
        let value = FRpcCtx { deadline_ms: 0, trace_id: Vec::new(), span_id: Vec::new(), token: String::new(), tenant: String::new(), idempotency_key: Vec::new(), initial_credit: 0 };
        assert(value.fields() =~= defaults(FRpcCtx::kinds()));
        value
    }
}

/// The `rpc` codec of [`FRpcCtx`].
pub struct FRpcCtxRpcCodec;

impl FRpcCtxRpcCodec {
    /// This message's stable id.
    pub const MESSAGE_ID: u32 = 0x5AE3B9AC;

    /// This message's wire-contract fingerprint.
    pub const FINGERPRINT: u64 = 0x3B43F47205E0362D;

    /// Writes the fields of `value`, in declaration order.
    pub fn encode(writer: &mut Writer, value: &FRpcCtx)
        requires
            fields_fit(value.fields(), FRpcCtx::kinds(), Limits::spec_unlimited()),
        ensures
            final(writer)@ == old(writer)@ + message_wire(value.fields()),
    {
        proof {
            assert(field_fits(value.fields()[1], FRpcCtx::kinds()[1], Limits::spec_unlimited()));
            assert(field_fits(value.fields()[2], FRpcCtx::kinds()[2], Limits::spec_unlimited()));
            assert(field_fits(value.fields()[3], FRpcCtx::kinds()[3], Limits::spec_unlimited()));
            assert(field_fits(value.fields()[4], FRpcCtx::kinds()[4], Limits::spec_unlimited()));
            assert(field_fits(value.fields()[5], FRpcCtx::kinds()[5], Limits::spec_unlimited()));
        }
        writer.write_u32(value.deadline_ms);
        writer.write_bytes(value.trace_id.as_slice());
        writer.write_bytes(value.span_id.as_slice());
        writer.write_string(value.token.as_str());
        writer.write_string(value.tenant.as_str());
        writer.write_bytes(value.idempotency_key.as_slice());
        writer.write_u32(value.initial_credit);
        proof {
            reveal_with_fuel(message_wire, 8);
            assert(final(writer)@ =~= old(writer)@ + message_wire(value.fields()));
        }
    }

    /// Reads the fields into `value`, in declaration order: a field the stream
    /// ended before takes its zero value, and on an error the fields not reached
    /// are left as they were.
    #[verifier::rlimit(50)]
    pub fn decode(reader: &mut Reader<'_>, value: &mut FRpcCtx) -> (r: Result<(), DecodeError>)
        ensures
            ({
                let (fs, used, err) = read_fields(FRpcCtx::kinds(), old(reader).rest(), old(reader).limits_spec());
                &&& old(reader).advanced(final(reader), used)
                &&& final(value).fields() =~= fs + old(value).fields().skip(fs.len() as int)
                &&& err matches Some(e) ==> r == Err::<(), DecodeError>(e)
                &&& err is None ==> r is Ok
            }),
    {
        let ghost start = *reader;
        let ghost kinds = FRpcCtx::kinds();
        let ghost mut done: Seq<Field> = Seq::empty();
        let ghost mut used: int = 0;
        proof {
            lemma_progress_start(kinds, start);
        }
        let ghost before = *reader;
        proof {
            lemma_progress_field(kinds, start, before, before, 0, done, used);
        }
        let x = read_u32_field(reader)?;
        proof {
            lemma_progress_field(kinds, start, before, *reader, 0, done, used);
            done = done.push(Field::One(Scalar::U32(x)));
            used = used + (reader.offset() - before.offset());
        }
        value.deadline_ms = x;
        let ghost before = *reader;
        proof {
            lemma_progress_field(kinds, start, before, before, 1, done, used);
        }
        let x = read_blob_field(reader)?;
        proof {
            lemma_progress_field(kinds, start, before, *reader, 1, done, used);
            done = done.push(Field::One(Scalar::Blob(x@)));
            used = used + (reader.offset() - before.offset());
        }
        value.trace_id = x;
        let ghost before = *reader;
        proof {
            lemma_progress_field(kinds, start, before, before, 2, done, used);
        }
        let x = read_blob_field(reader)?;
        proof {
            lemma_progress_field(kinds, start, before, *reader, 2, done, used);
            done = done.push(Field::One(Scalar::Blob(x@)));
            used = used + (reader.offset() - before.offset());
        }
        value.span_id = x;
        let ghost before = *reader;
        proof {
            lemma_progress_field(kinds, start, before, before, 3, done, used);
        }
        let x = read_text_field(reader)?;
        proof {
            lemma_progress_field(kinds, start, before, *reader, 3, done, used);
            done = done.push(Field::One(Scalar::Text(x@)));
            used = used + (reader.offset() - before.offset());
        }
        value.token = x;
        let ghost before = *reader;
        proof {
            lemma_progress_field(kinds, start, before, before, 4, done, used);
        }
        let x = read_text_field(reader)?;
        proof {
            lemma_progress_field(kinds, start, before, *reader, 4, done, used);
            done = done.push(Field::One(Scalar::Text(x@)));
            used = used + (reader.offset() - before.offset());
        }
        value.tenant = x;
        let ghost before = *reader;
        proof {
            lemma_progress_field(kinds, start, before, before, 5, done, used);
        }
        let x = read_blob_field(reader)?;
        proof {
            lemma_progress_field(kinds, start, before, *reader, 5, done, used);
            done = done.push(Field::One(Scalar::Blob(x@)));
            used = used + (reader.offset() - before.offset());
        }
        value.idempotency_key = x;
        let ghost before = *reader;
        proof {
            lemma_progress_field(kinds, start, before, before, 6, done, used);
        }
        let x = read_u32_field(reader)?;
        proof {
            lemma_progress_field(kinds, start, before, *reader, 6, done, used);
            done = done.push(Field::One(Scalar::U32(x)));
            used = used + (reader.offset() - before.offset());
        }
        value.initial_credit = x;
        proof {
            lemma_progress_done(kinds, start, *reader, done, used);
        }
        Ok(())
    }
}

/// The request of `FRpc.Reflect`.
#[derive(Debug, Clone)]
pub struct FRpcReflectRequest {}

impl FRpcReflectRequest {
    /// The wire types of the fields, in declaration order.
    pub open spec fn kinds() -> Seq<FieldKind> {
        Seq::empty()
    }

    /// The field values, in declaration order.
    pub open spec fn fields(&self) -> Seq<Field> {
        Seq::empty()
    }
}

impl Default for FRpcReflectRequest {
    fn default() -> (value: FRpcReflectRequest)
        ensures
            value.fields() == defaults(FRpcReflectRequest::kinds()),
    {
        let value = FRpcReflectRequest {};
        assert(value.fields() =~= defaults(FRpcReflectRequest::kinds()));
        value
    }
}

/// The `rpc` codec of [`FRpcReflectRequest`].
pub struct FRpcReflectRequestRpcCodec;

impl FRpcReflectRequestRpcCodec {
    /// This message's stable id.
    pub const MESSAGE_ID: u32 = 0x9C0C80F3;

    /// This message's wire-contract fingerprint.
    pub const FINGERPRINT: u64 = 0xAAAB56B8165C245B;

    /// Writes the fields of `value`, in declaration order.
    pub fn encode(writer: &mut Writer, value: &FRpcReflectRequest)
        requires
            fields_fit(value.fields(), FRpcReflectRequest::kinds(), Limits::spec_unlimited()),
        ensures
            final(writer)@ == old(writer)@ + message_wire(value.fields()),
    {
        proof {
            reveal_with_fuel(message_wire, 1);
            assert(final(writer)@ =~= old(writer)@ + message_wire(value.fields()));
        }
    }

    /// Reads the fields into `value`, in declaration order: a field the stream
    /// ended before takes its zero value, and on an error the fields not reached
    /// are left as they were.
    pub fn decode(reader: &mut Reader<'_>, value: &mut FRpcReflectRequest) -> (r: Result<(), DecodeError>)
        ensures
            ({
                let (fs, used, err) = read_fields(FRpcReflectRequest::kinds(), old(reader).rest(), old(reader).limits_spec());
                &&& old(reader).advanced(final(reader), used)
                &&& final(value).fields() =~= fs + old(value).fields().skip(fs.len() as int)
                &&& err matches Some(e) ==> r == Err::<(), DecodeError>(e)
                &&& err is None ==> r is Ok
            }),
    {
        let ghost start = *reader;
        let ghost kinds = FRpcReflectRequest::kinds();
        let ghost mut done: Seq<Field> = Seq::empty();
        let ghost mut used: int = 0;
        proof {
            lemma_progress_start(kinds, start);
        }
        proof {
            lemma_progress_done(kinds, start, *reader, done, used);
        }
        Ok(())
    }
}

/// One method as reflection describes it.
#[derive(Debug, Clone)]
pub struct FRpcMethodInfo {
    pub name: String,
    pub shape: u32,
    pub request_id: u32,
    pub caller_item_id: u32,
    pub reply_id: u32,
    pub retry_safety: u32,
}

impl FRpcMethodInfo {
    /// The wire types of the fields, as the scalars of one record.
    pub open spec fn record_kinds() -> Seq<ScalarKind> {
        seq![ScalarKind::Text, ScalarKind::U32, ScalarKind::U32, ScalarKind::U32, ScalarKind::U32, ScalarKind::U32]
    }

    /// The field values, as the scalars of one record.
    pub open spec fn record(&self) -> Seq<Scalar> {
        seq![Scalar::Text(self.name@), Scalar::U32(self.shape), Scalar::U32(self.request_id), Scalar::U32(self.caller_item_id), Scalar::U32(self.reply_id), Scalar::U32(self.retry_safety)]
    }

    /// The wire types of the fields, in declaration order.
    pub open spec fn kinds() -> Seq<FieldKind> {
        seq![FieldKind::One(ScalarKind::Text), FieldKind::One(ScalarKind::U32), FieldKind::One(ScalarKind::U32), FieldKind::One(ScalarKind::U32), FieldKind::One(ScalarKind::U32), FieldKind::One(ScalarKind::U32)]
    }

    /// The field values, in declaration order.
    pub open spec fn fields(&self) -> Seq<Field> {
        seq![Field::One(Scalar::Text(self.name@)), Field::One(Scalar::U32(self.shape)), Field::One(Scalar::U32(self.request_id)), Field::One(Scalar::U32(self.caller_item_id)), Field::One(Scalar::U32(self.reply_id)), Field::One(Scalar::U32(self.retry_safety))]
    }
}

impl Default for FRpcMethodInfo {
    fn default() -> (value: FRpcMethodInfo)
        ensures
            value.fields() == defaults(FRpcMethodInfo::kinds()),
    {
        let value = FRpcMethodInfo { name: String::new(), shape: 0, request_id: 0, caller_item_id: 0, reply_id: 0, retry_safety: 0 };
        assert(value.fields() =~= defaults(FRpcMethodInfo::kinds()));
        value
    }
}

/// The `rpc` codec of [`FRpcMethodInfo`].
pub struct FRpcMethodInfoRpcCodec;

impl FRpcMethodInfoRpcCodec {
    /// This message's stable id.
    pub const MESSAGE_ID: u32 = 0x6D10D388;

    /// This message's wire-contract fingerprint.
    pub const FINGERPRINT: u64 = 0xF0B7D74B8A72541B;

    /// Writes the fields of `value`, in declaration order.
    pub fn encode(writer: &mut Writer, value: &FRpcMethodInfo)
        requires
            fields_fit(value.fields(), FRpcMethodInfo::kinds(), Limits::spec_unlimited()),
        ensures
            final(writer)@ == old(writer)@ + message_wire(value.fields()),
    {
        proof {
            assert(field_fits(value.fields()[0], FRpcMethodInfo::kinds()[0], Limits::spec_unlimited()));
        }
        writer.write_string(value.name.as_str());
        writer.write_u32(value.shape);
        writer.write_u32(value.request_id);
        writer.write_u32(value.caller_item_id);
        writer.write_u32(value.reply_id);
        writer.write_u32(value.retry_safety);
        proof {
            reveal_with_fuel(message_wire, 7);
            assert(final(writer)@ =~= old(writer)@ + message_wire(value.fields()));
        }
    }

    /// Reads the fields into `value`, in declaration order: a field the stream
    /// ended before takes its zero value, and on an error the fields not reached
    /// are left as they were.
    #[verifier::rlimit(50)]
    pub fn decode(reader: &mut Reader<'_>, value: &mut FRpcMethodInfo) -> (r: Result<(), DecodeError>)
        ensures
            ({
                let (fs, used, err) = read_fields(FRpcMethodInfo::kinds(), old(reader).rest(), old(reader).limits_spec());
                &&& old(reader).advanced(final(reader), used)
                &&& final(value).fields() =~= fs + old(value).fields().skip(fs.len() as int)
                &&& err matches Some(e) ==> r == Err::<(), DecodeError>(e)
                &&& err is None ==> r is Ok
            }),
    {
        let ghost start = *reader;
        let ghost kinds = FRpcMethodInfo::kinds();
        let ghost mut done: Seq<Field> = Seq::empty();
        let ghost mut used: int = 0;
        proof {
            lemma_progress_start(kinds, start);
        }
        let ghost before = *reader;
        proof {
            lemma_progress_field(kinds, start, before, before, 0, done, used);
        }
        let x = read_text_field(reader)?;
        proof {
            lemma_progress_field(kinds, start, before, *reader, 0, done, used);
            done = done.push(Field::One(Scalar::Text(x@)));
            used = used + (reader.offset() - before.offset());
        }
        value.name = x;
        let ghost before = *reader;
        proof {
            lemma_progress_field(kinds, start, before, before, 1, done, used);
        }
        let x = read_u32_field(reader)?;
        proof {
            lemma_progress_field(kinds, start, before, *reader, 1, done, used);
            done = done.push(Field::One(Scalar::U32(x)));
            used = used + (reader.offset() - before.offset());
        }
        value.shape = x;
        let ghost before = *reader;
        proof {
            lemma_progress_field(kinds, start, before, before, 2, done, used);
        }
        let x = read_u32_field(reader)?;
        proof {
            lemma_progress_field(kinds, start, before, *reader, 2, done, used);
            done = done.push(Field::One(Scalar::U32(x)));
            used = used + (reader.offset() - before.offset());
        }
        value.request_id = x;
        let ghost before = *reader;
        proof {
            lemma_progress_field(kinds, start, before, before, 3, done, used);
        }
        let x = read_u32_field(reader)?;
        proof {
            lemma_progress_field(kinds, start, before, *reader, 3, done, used);
            done = done.push(Field::One(Scalar::U32(x)));
            used = used + (reader.offset() - before.offset());
        }
        value.caller_item_id = x;
        let ghost before = *reader;
        proof {
            lemma_progress_field(kinds, start, before, before, 4, done, used);
        }
        let x = read_u32_field(reader)?;
        proof {
            lemma_progress_field(kinds, start, before, *reader, 4, done, used);
            done = done.push(Field::One(Scalar::U32(x)));
            used = used + (reader.offset() - before.offset());
        }
        value.reply_id = x;
        let ghost before = *reader;
        proof {
            lemma_progress_field(kinds, start, before, before, 5, done, used);
        }
        let x = read_u32_field(reader)?;
        proof {
            lemma_progress_field(kinds, start, before, *reader, 5, done, used);
            done = done.push(Field::One(Scalar::U32(x)));
            used = used + (reader.offset() - before.offset());
        }
        value.retry_safety = x;
        proof {
            lemma_progress_done(kinds, start, *reader, done, used);
        }
        Ok(())
    }
}
/// The reply of `FRpc.Reflect`: the methods a responder serves, and its schema.
#[derive(Debug, Clone)]
pub struct FRpcReflectResponse {
    pub methods: Vec<FRpcMethodInfo>,
    pub schema_json: Vec<u8>,
}

/// The records of a list of method descriptions.
pub open spec fn method_records(methods: Seq<FRpcMethodInfo>) -> Seq<Seq<Scalar>> {
    methods.map_values(|m: FRpcMethodInfo| m.record())
}

impl FRpcMethodInfo {
    /// The fields of a method description are the scalars of its record.
    pub proof fn lemma_fields_are_record(&self)
        ensures
            self.fields() == scalar_fields(self.record()),
            FRpcMethodInfo::kinds() == scalar_field_kinds(FRpcMethodInfo::record_kinds()),
    {
        assert(self.fields() =~= scalar_fields(self.record()));
        assert(FRpcMethodInfo::kinds() =~= scalar_field_kinds(FRpcMethodInfo::record_kinds()));
    }
}

impl FRpcReflectResponse {
    /// The wire types of the fields, in declaration order.
    pub open spec fn kinds() -> Seq<FieldKind> {
        seq![FieldKind::Records(FRpcMethodInfo::record_kinds()), FieldKind::One(ScalarKind::Blob)]
    }

    /// The field values, in declaration order.
    pub open spec fn fields(&self) -> Seq<Field> {
        seq![Field::Records(method_records(self.methods@)), Field::One(Scalar::Blob(self.schema_json@))]
    }
}

impl Default for FRpcReflectResponse {
    fn default() -> (value: FRpcReflectResponse)
        ensures
            value.fields() == defaults(FRpcReflectResponse::kinds()),
    {
        let value = FRpcReflectResponse { methods: Vec::new(), schema_json: Vec::new() };
        assert(method_records(value.methods@) =~= Seq::<Seq<Scalar>>::empty());
        assert(value.fields() =~= defaults(FRpcReflectResponse::kinds()));
        value
    }
}

/// The `rpc` codec of [`FRpcReflectResponse`].
pub struct FRpcReflectResponseRpcCodec;

impl FRpcReflectResponseRpcCodec {
    /// This message's stable id.
    pub const MESSAGE_ID: u32 = 0xD42A8CD7;

    /// This message's wire-contract fingerprint.
    pub const FINGERPRINT: u64 = 0x2A2C539FD24D8B44;

    /// Writes the fields of `value`: the method count, each method, then the schema.
    pub fn encode(writer: &mut Writer, value: &FRpcReflectResponse)
        requires
            fields_fit(value.fields(), FRpcReflectResponse::kinds(), Limits::spec_unlimited()),
        ensures
            final(writer)@ == old(writer)@ + message_wire(value.fields()),
    {
        let ghost records = method_records(value.methods@);
        proof {
            assert(field_fits(value.fields()[0], FRpcReflectResponse::kinds()[0], Limits::spec_unlimited()));
            assert(field_fits(value.fields()[1], FRpcReflectResponse::kinds()[1], Limits::spec_unlimited()));
        }
        let n = value.methods.len();
        writer.write_array_count(n);
        let mut i: usize = 0;
        assert(records.take(0) =~= Seq::<Seq<Scalar>>::empty());
        while i < n
            invariant
                n == value.methods@.len(),
                i <= n,
                records == method_records(value.methods@),
                forall|j: int| 0 <= j < records.len() ==> record_fits(
                    #[trigger] records[j],
                    FRpcMethodInfo::record_kinds(),
                    Limits::spec_unlimited(),
                ),
                writer@ == old(writer)@ + len_wire(n as nat) + records_wire(records.take(i as int)),
            decreases n - i,
        {
            let element = &value.methods[i];
            proof {
                element.lemma_fields_are_record();
                assert(records[i as int] == element.record());
                lemma_scalar_message_fits(element.record(), FRpcMethodInfo::record_kinds(), Limits::spec_unlimited());
            }
            FRpcMethodInfoRpcCodec::encode(writer, element);
            proof {
                lemma_scalar_message_wire(element.record());
                lemma_records_wire_push(records.take(i as int), element.record());
                assert(records.take(i + 1) =~= records.take(i as int).push(element.record()));
            }
            i = i + 1;
        }
        writer.write_bytes(value.schema_json.as_slice());
        proof {
            assert(records.take(n as int) =~= records);
            reveal_with_fuel(message_wire, 3);
            assert(final(writer)@ =~= old(writer)@ + message_wire(value.fields()));
        }
    }

    /// Reads the method descriptions: none when the field is absent.
    fn read_methods(reader: &mut Reader<'_>) -> (r: Result<Vec<FRpcMethodInfo>, DecodeError>)
        ensures
            ({
                let (f, n, err) = read_field(
                    FieldKind::Records(FRpcMethodInfo::record_kinds()),
                    old(reader).rest(),
                    old(reader).limits_spec(),
                );
                &&& old(reader).advanced(final(reader), n)
                &&& err matches Some(e) ==> r == Err::<Vec<FRpcMethodInfo>, DecodeError>(e)
                &&& err is None ==> (r matches Ok(ms) && f == Field::Records(method_records(ms@)))
            }),
    {
        let ghost start = *reader;
        let ghost kinds = FRpcMethodInfo::record_kinds();
        let ghost limits = reader.limits_spec();
        let count = match read_count_field(reader) {
            Ok(c) => c,
            Err(e) => {
                proof {
                    start.lemma_unchanged_advanced(&*reader);
                }
                return Err(e);
            },
        };
        let ghost counted = *reader;
        let ghost count_used = reader.offset() - start.offset();
        proof {
            if start.rest().len() == 0 {
                start.lemma_unchanged_advanced(&*reader);
            }
            counted.lemma_unchanged_advanced(&counted);
            let all = read_records(kinds, count as nat, counted.rest(), limits);
            assert(start.rest().len() != 0 ==> counted.rest() == start.rest().skip(count_used));
            assert(read_field(FieldKind::Records(kinds), start.rest(), limits) == (
                Field::Records(all.0),
                count_used + all.1,
                all.2,
            ));
        }
        let mut elements: Vec<FRpcMethodInfo> = Vec::new();
        let mut i: usize = 0;
        let ghost mut used: int = 0;
        proof {
            assert(method_records(elements@) =~= Seq::<Seq<Scalar>>::empty());
            let all = read_records(kinds, count as nat, counted.rest(), limits);
            assert(Seq::<Seq<Scalar>>::empty() + all.0 =~= all.0);
        }
        while i < count
            invariant
                i <= count,
                start == *old(reader),
                counted.advanced(&*reader, used),
                start.advanced(&counted, count_used),
                reader.limits_spec() == limits,
                kinds == FRpcMethodInfo::record_kinds(),
                ({
                    let all = read_records(kinds, count as nat, counted.rest(), limits);
                    read_field(FieldKind::Records(kinds), start.rest(), limits) == (
                        Field::Records(all.0),
                        count_used + all.1,
                        all.2,
                    )
                }),
                read_records(kinds, count as nat, counted.rest(), limits) == then_records(
                    method_records(elements@),
                    used,
                    read_records(kinds, (count - i) as nat, reader.rest(), limits),
                ),
            decreases count - i,
        {
            let ghost before = *reader;
            proof {
                lemma_records_step(kinds, (count - i) as nat, before.rest(), limits, method_records(elements@), used);
                lemma_scalar_message_is_record(kinds, before.rest(), limits);
            }
            let mut element = FRpcMethodInfo::default();
            proof {
                element.lemma_fields_are_record();
            }
            match FRpcMethodInfoRpcCodec::decode(reader, &mut element) {
                Ok(()) => {},
                Err(e) => {
                    proof {
                        let n = read_record(kinds, before.rest(), limits).1;
                        counted.lemma_advanced_trans(&before, &*reader, used, n);
                        start.lemma_advanced_trans(&counted, &*reader, count_used, used + n);
                    }
                    return Err(e);
                },
            }
            proof {
                let (vs, n, err) = read_record(kinds, before.rest(), limits);
                lemma_read_record_used(kinds, before.rest(), limits);
                element.lemma_fields_are_record();
                assert(element.record() =~= vs) by {
                    assert forall|j: int| 0 <= j < vs.len() implies element.record()[j] == vs[j] by {
                        assert(element.fields()[j] == scalar_fields(vs)[j]);
                    }
                }
                counted.lemma_advanced_trans(&before, &*reader, used, n);
                used = used + n;
                assert(method_records(elements@.push(element)) =~= method_records(elements@).push(vs));
            }
            elements.push(element);
            i = i + 1;
        }
        proof {
            let rest = reader.rest();
            assert(method_records(elements@) + Seq::<Seq<Scalar>>::empty() =~= method_records(elements@));
            start.lemma_advanced_trans(&counted, &*reader, count_used, used);
        }
        Ok(elements)
    }

    /// Reads the fields into `value`, in declaration order: a field the stream
    /// ended before takes its zero value, and on an error the fields not reached
    /// are left as they were.
    #[verifier::rlimit(50)]
    pub fn decode(reader: &mut Reader<'_>, value: &mut FRpcReflectResponse) -> (r: Result<(), DecodeError>)
        ensures
            ({
                let (fs, used, err) = read_fields(FRpcReflectResponse::kinds(), old(reader).rest(), old(reader).limits_spec());
                &&& old(reader).advanced(final(reader), used)
                &&& final(value).fields() =~= fs + old(value).fields().skip(fs.len() as int)
                &&& err matches Some(e) ==> r == Err::<(), DecodeError>(e)
                &&& err is None ==> r is Ok
            }),
    {
        let ghost start = *reader;
        let ghost kinds = FRpcReflectResponse::kinds();
        let ghost mut done: Seq<Field> = Seq::empty();
        let ghost mut used: int = 0;
        proof {
            lemma_progress_start(kinds, start);
        }
        let ghost before = *reader;
        let methods = match Self::read_methods(reader) {
            Ok(ms) => ms,
            Err(e) => {
                proof {
                    lemma_progress_field(kinds, start, before, *reader, 0, done, used);
                    start.lemma_advanced_trans(&before, &*reader, used, read_field(kinds[0], before.rest(), start.limits_spec()).1);
                }
                return Err(e);
            },
        };
        proof {
            lemma_progress_field(kinds, start, before, *reader, 0, done, used);
            done = done.push(Field::Records(method_records(methods@)));
            used = used + (reader.offset() - before.offset());
        }
        value.methods = methods;
        let ghost before = *reader;
        proof {
            lemma_progress_field(kinds, start, before, before, 1, done, used);
        }
        let x = read_blob_field(reader)?;
        proof {
            lemma_progress_field(kinds, start, before, *reader, 1, done, used);
            done = done.push(Field::One(Scalar::Blob(x@)));
            used = used + (reader.offset() - before.offset());
        }
        value.schema_json = x;
        proof {
            lemma_progress_done(kinds, start, *reader, done, used);
        }
        Ok(())
    }
}

} // verus!
