//! The models of the streaming methods: `Blob.Upload`, `Room.Chat` and `Clock.Ticks`.
use vstd::prelude::*;
use crate::message::{
    defaults, field_fits, fields_fit, lemma_progress_done, lemma_progress_field,
    lemma_progress_start, message_wire, read_blob_field, read_fields, read_text_field,
    read_u32_field, Field, FieldKind, Scalar, ScalarKind,
};
use crate::wire::{DecodeError, Limits, Reader, Writer};

verus! {

/// Opens an upload: the name of what is uploaded.
#[derive(Debug, Clone)]
pub struct UploadOpen {
    pub name: String,
}

impl UploadOpen {
    /// The wire types of the fields, in declaration order.
    pub open spec fn kinds() -> Seq<FieldKind> {
        seq![FieldKind::One(ScalarKind::Text)]
    }

    /// The field values, in declaration order.
    pub open spec fn fields(&self) -> Seq<Field> {
        seq![Field::One(Scalar::Text(self.name@))]
    }
}

impl Default for UploadOpen {
    fn default() -> (value: UploadOpen)
        ensures
            value.fields() == defaults(UploadOpen::kinds()),
    {
        let value = UploadOpen { name: String::new() };
        assert(value.fields() =~= defaults(UploadOpen::kinds()));
        value
    }
}

/// The `rpc` codec of [`UploadOpen`].
pub struct UploadOpenRpcCodec;

impl UploadOpenRpcCodec {
    /// This message's stable id.
    pub const MESSAGE_ID: u32 = 0x315285E4;

    /// This message's wire-contract fingerprint.
    pub const FINGERPRINT: u64 = 0x46A5DF3127C6E384;

    /// Writes the fields of `value`, in declaration order.
    pub fn encode(writer: &mut Writer, value: &UploadOpen)
        requires
            fields_fit(value.fields(), UploadOpen::kinds(), Limits::spec_unlimited()),
        ensures
            final(writer)@ == old(writer)@ + message_wire(value.fields()),
    {
        proof {
            assert(field_fits(value.fields()[0], UploadOpen::kinds()[0], Limits::spec_unlimited()));
        }
        writer.write_string(value.name.as_str());
        proof {
            reveal_with_fuel(message_wire, 2);
            assert(final(writer)@ =~= old(writer)@ + message_wire(value.fields()));
        }
    }

    /// Reads the fields into `value`, in declaration order: a field the stream
    /// ended before takes its zero value, and on an error the fields not reached
    /// are left as they were.
    pub fn decode(reader: &mut Reader<'_>, value: &mut UploadOpen) -> (r: Result<(), DecodeError>)
        ensures
            ({
                let (fs, used, err) = read_fields(UploadOpen::kinds(), old(reader).rest(), old(reader).limits_spec());
                &&& old(reader).advanced(final(reader), used)
                &&& final(value).fields() =~= fs + old(value).fields().skip(fs.len() as int)
                &&& err matches Some(e) ==> r == Err::<(), DecodeError>(e)
                &&& err is None ==> r is Ok
            }),
    {
        let ghost start = *reader;
        let ghost kinds = UploadOpen::kinds();
        let ghost mut done: Seq<Field> = Seq::empty();
        let ghost mut used: int = 0;
        proof {
            lemma_progress_start(kinds, start);
        }
        let ghost before = *reader;
        proof {
            lemma_progress_field(kinds, start, before, before, 0, done, used);
        }
        let x = read_text_field(reader)?;
        proof {
            lemma_progress_field(kinds, start, before, *reader, 0, done, used);
            done = done.push(Field::One(Scalar::Text(x@)));
            used = used + (reader.offset() - before.offset());
        }
        value.name = x;
        proof {
            lemma_progress_done(kinds, start, *reader, done, used);
        }
        Ok(())
    }
}

/// One chunk of an upload: its size in bytes.
#[derive(Debug, Clone)]
pub struct UploadChunk {
    pub size: u32,
}

impl UploadChunk {
    /// The wire types of the fields, in declaration order.
    pub open spec fn kinds() -> Seq<FieldKind> {
        seq![FieldKind::One(ScalarKind::U32)]
    }

    /// The field values, in declaration order.
    pub open spec fn fields(&self) -> Seq<Field> {
        seq![Field::One(Scalar::U32(self.size))]
    }
}

impl Default for UploadChunk {
    fn default() -> (value: UploadChunk)
        ensures
            value.fields() == defaults(UploadChunk::kinds()),
    {
        let value = UploadChunk { size: 0 };
        assert(value.fields() =~= defaults(UploadChunk::kinds()));
        value
    }
}

/// The `rpc` codec of [`UploadChunk`].
pub struct UploadChunkRpcCodec;

impl UploadChunkRpcCodec {
    /// This message's stable id.
    pub const MESSAGE_ID: u32 = 0x65DB5549;

    /// This message's wire-contract fingerprint.
    pub const FINGERPRINT: u64 = 0xB28344E68B53BAB6;

    /// Writes the fields of `value`, in declaration order.
    pub fn encode(writer: &mut Writer, value: &UploadChunk)
        requires
            fields_fit(value.fields(), UploadChunk::kinds(), Limits::spec_unlimited()),
        ensures
            final(writer)@ == old(writer)@ + message_wire(value.fields()),
    {
        writer.write_u32(value.size);
        proof {
            reveal_with_fuel(message_wire, 2);
            assert(final(writer)@ =~= old(writer)@ + message_wire(value.fields()));
        }
    }

    /// Reads the fields into `value`, in declaration order: a field the stream
    /// ended before takes its zero value, and on an error the fields not reached
    /// are left as they were.
    pub fn decode(reader: &mut Reader<'_>, value: &mut UploadChunk) -> (r: Result<(), DecodeError>)
        ensures
            ({
                let (fs, used, err) = read_fields(UploadChunk::kinds(), old(reader).rest(), old(reader).limits_spec());
                &&& old(reader).advanced(final(reader), used)
                &&& final(value).fields() =~= fs + old(value).fields().skip(fs.len() as int)
                &&& err matches Some(e) ==> r == Err::<(), DecodeError>(e)
                &&& err is None ==> r is Ok
            }),
    {
        let ghost start = *reader;
        let ghost kinds = UploadChunk::kinds();
        let ghost mut done: Seq<Field> = Seq::empty();
        let ghost mut used: int = 0;
        proof {
            lemma_progress_start(kinds, start);
        }
        let ghost before = *reader;
        proof {
            lemma_progress_field(kinds, start, before, before, 0, done, used);
        }
        let x = read_u32_field(reader)?;
        proof {
            lemma_progress_field(kinds, start, before, *reader, 0, done, used);
            done = done.push(Field::One(Scalar::U32(x)));
            used = used + (reader.offset() - before.offset());
        }
        value.size = x;
        proof {
            lemma_progress_done(kinds, start, *reader, done, used);
        }
        Ok(())
    }
}

/// The reply to an upload: a summary of what arrived.
#[derive(Debug, Clone)]
pub struct UploadDone {
    pub summary: String,
}

impl UploadDone {
    /// The wire types of the fields, in declaration order.
    pub open spec fn kinds() -> Seq<FieldKind> {
        seq![FieldKind::One(ScalarKind::Text)]
    }

    /// The field values, in declaration order.
    pub open spec fn fields(&self) -> Seq<Field> {
        seq![Field::One(Scalar::Text(self.summary@))]
    }
}

impl Default for UploadDone {
    fn default() -> (value: UploadDone)
        ensures
            value.fields() == defaults(UploadDone::kinds()),
    {
        let value = UploadDone { summary: String::new() };
        assert(value.fields() =~= defaults(UploadDone::kinds()));
        value
    }
}

/// The `rpc` codec of [`UploadDone`].
pub struct UploadDoneRpcCodec;

impl UploadDoneRpcCodec {
    /// This message's stable id.
    pub const MESSAGE_ID: u32 = 0x0386DCA3;

    /// This message's wire-contract fingerprint.
    pub const FINGERPRINT: u64 = 0x7A9CB5B5480D918A;

    /// Writes the fields of `value`, in declaration order.
    pub fn encode(writer: &mut Writer, value: &UploadDone)
        requires
            fields_fit(value.fields(), UploadDone::kinds(), Limits::spec_unlimited()),
        ensures
            final(writer)@ == old(writer)@ + message_wire(value.fields()),
    {
        proof {
            assert(field_fits(value.fields()[0], UploadDone::kinds()[0], Limits::spec_unlimited()));
        }
        writer.write_string(value.summary.as_str());
        proof {
            reveal_with_fuel(message_wire, 2);
            assert(final(writer)@ =~= old(writer)@ + message_wire(value.fields()));
        }
    }

    /// Reads the fields into `value`, in declaration order: a field the stream
    /// ended before takes its zero value, and on an error the fields not reached
    /// are left as they were.
    pub fn decode(reader: &mut Reader<'_>, value: &mut UploadDone) -> (r: Result<(), DecodeError>)
        ensures
            ({
                let (fs, used, err) = read_fields(UploadDone::kinds(), old(reader).rest(), old(reader).limits_spec());
                &&& old(reader).advanced(final(reader), used)
                &&& final(value).fields() =~= fs + old(value).fields().skip(fs.len() as int)
                &&& err matches Some(e) ==> r == Err::<(), DecodeError>(e)
                &&& err is None ==> r is Ok
            }),
    {
        let ghost start = *reader;
        let ghost kinds = UploadDone::kinds();
        let ghost mut done: Seq<Field> = Seq::empty();
        let ghost mut used: int = 0;
        proof {
            lemma_progress_start(kinds, start);
        }
        let ghost before = *reader;
        proof {
            lemma_progress_field(kinds, start, before, before, 0, done, used);
        }
        let x = read_text_field(reader)?;
        proof {
            lemma_progress_field(kinds, start, before, *reader, 0, done, used);
            done = done.push(Field::One(Scalar::Text(x@)));
            used = used + (reader.offset() - before.offset());
        }
        value.summary = x;
        proof {
            lemma_progress_done(kinds, start, *reader, done, used);
        }
        Ok(())
    }
}

/// Opens a chat: the room to join.
#[derive(Debug, Clone)]
pub struct ChatOpen {
    pub room: String,
}

impl ChatOpen {
    /// The wire types of the fields, in declaration order.
    pub open spec fn kinds() -> Seq<FieldKind> {
        seq![FieldKind::One(ScalarKind::Text)]
    }

    /// The field values, in declaration order.
    pub open spec fn fields(&self) -> Seq<Field> {
        seq![Field::One(Scalar::Text(self.room@))]
    }
}

impl Default for ChatOpen {
    fn default() -> (value: ChatOpen)
        ensures
            value.fields() == defaults(ChatOpen::kinds()),
    {
        let value = ChatOpen { room: String::new() };
        assert(value.fields() =~= defaults(ChatOpen::kinds()));
        value
    }
}

/// The `rpc` codec of [`ChatOpen`].
pub struct ChatOpenRpcCodec;

impl ChatOpenRpcCodec {
    /// This message's stable id.
    pub const MESSAGE_ID: u32 = 0xEAEB5F14;

    /// This message's wire-contract fingerprint.
    pub const FINGERPRINT: u64 = 0x3D4AF6B9C83E293B;

    /// Writes the fields of `value`, in declaration order.
    pub fn encode(writer: &mut Writer, value: &ChatOpen)
        requires
            fields_fit(value.fields(), ChatOpen::kinds(), Limits::spec_unlimited()),
        ensures
            final(writer)@ == old(writer)@ + message_wire(value.fields()),
    {
        proof {
            assert(field_fits(value.fields()[0], ChatOpen::kinds()[0], Limits::spec_unlimited()));
        }
        writer.write_string(value.room.as_str());
        proof {
            reveal_with_fuel(message_wire, 2);
            assert(final(writer)@ =~= old(writer)@ + message_wire(value.fields()));
        }
    }

    /// Reads the fields into `value`, in declaration order: a field the stream
    /// ended before takes its zero value, and on an error the fields not reached
    /// are left as they were.
    pub fn decode(reader: &mut Reader<'_>, value: &mut ChatOpen) -> (r: Result<(), DecodeError>)
        ensures
            ({
                let (fs, used, err) = read_fields(ChatOpen::kinds(), old(reader).rest(), old(reader).limits_spec());
                &&& old(reader).advanced(final(reader), used)
                &&& final(value).fields() =~= fs + old(value).fields().skip(fs.len() as int)
                &&& err matches Some(e) ==> r == Err::<(), DecodeError>(e)
                &&& err is None ==> r is Ok
            }),
    {
        let ghost start = *reader;
        let ghost kinds = ChatOpen::kinds();
        let ghost mut done: Seq<Field> = Seq::empty();
        let ghost mut used: int = 0;
        proof {
            lemma_progress_start(kinds, start);
        }
        let ghost before = *reader;
        proof {
            lemma_progress_field(kinds, start, before, before, 0, done, used);
        }
        let x = read_text_field(reader)?;
        proof {
            lemma_progress_field(kinds, start, before, *reader, 0, done, used);
            done = done.push(Field::One(Scalar::Text(x@)));
            used = used + (reader.offset() - before.offset());
        }
        value.room = x;
        proof {
            lemma_progress_done(kinds, start, *reader, done, used);
        }
        Ok(())
    }
}

/// One line said into a chat.
#[derive(Debug, Clone)]
pub struct ChatSaid {
    pub line: String,
}

impl ChatSaid {
    /// The wire types of the fields, in declaration order.
    pub open spec fn kinds() -> Seq<FieldKind> {
        seq![FieldKind::One(ScalarKind::Text)]
    }

    /// The field values, in declaration order.
    pub open spec fn fields(&self) -> Seq<Field> {
        seq![Field::One(Scalar::Text(self.line@))]
    }
}

impl Default for ChatSaid {
    fn default() -> (value: ChatSaid)
        ensures
            value.fields() == defaults(ChatSaid::kinds()),
    {
        let value = ChatSaid { line: String::new() };
        assert(value.fields() =~= defaults(ChatSaid::kinds()));
        value
    }
}

/// The `rpc` codec of [`ChatSaid`].
pub struct ChatSaidRpcCodec;

impl ChatSaidRpcCodec {
    /// This message's stable id.
    pub const MESSAGE_ID: u32 = 0xACBEA203;

    /// This message's wire-contract fingerprint.
    pub const FINGERPRINT: u64 = 0xE1399A587A239B43;

    /// Writes the fields of `value`, in declaration order.
    pub fn encode(writer: &mut Writer, value: &ChatSaid)
        requires
            fields_fit(value.fields(), ChatSaid::kinds(), Limits::spec_unlimited()),
        ensures
            final(writer)@ == old(writer)@ + message_wire(value.fields()),
    {
        proof {
            assert(field_fits(value.fields()[0], ChatSaid::kinds()[0], Limits::spec_unlimited()));
        }
        writer.write_string(value.line.as_str());
        proof {
            reveal_with_fuel(message_wire, 2);
            assert(final(writer)@ =~= old(writer)@ + message_wire(value.fields()));
        }
    }

    /// Reads the fields into `value`, in declaration order: a field the stream
    /// ended before takes its zero value, and on an error the fields not reached
    /// are left as they were.
    pub fn decode(reader: &mut Reader<'_>, value: &mut ChatSaid) -> (r: Result<(), DecodeError>)
        ensures
            ({
                let (fs, used, err) = read_fields(ChatSaid::kinds(), old(reader).rest(), old(reader).limits_spec());
                &&& old(reader).advanced(final(reader), used)
                &&& final(value).fields() =~= fs + old(value).fields().skip(fs.len() as int)
                &&& err matches Some(e) ==> r == Err::<(), DecodeError>(e)
                &&& err is None ==> r is Ok
            }),
    {
        let ghost start = *reader;
        let ghost kinds = ChatSaid::kinds();
        let ghost mut done: Seq<Field> = Seq::empty();
        let ghost mut used: int = 0;
        proof {
            lemma_progress_start(kinds, start);
        }
        let ghost before = *reader;
        proof {
            lemma_progress_field(kinds, start, before, before, 0, done, used);
        }
        let x = read_text_field(reader)?;
        proof {
            lemma_progress_field(kinds, start, before, *reader, 0, done, used);
            done = done.push(Field::One(Scalar::Text(x@)));
            used = used + (reader.offset() - before.offset());
        }
        value.line = x;
        proof {
            lemma_progress_done(kinds, start, *reader, done, used);
        }
        Ok(())
    }
}

/// One line heard back from a chat.
#[derive(Debug, Clone)]
pub struct ChatHeard {
    pub line: String,
}

impl ChatHeard {
    /// The wire types of the fields, in declaration order.
    pub open spec fn kinds() -> Seq<FieldKind> {
        seq![FieldKind::One(ScalarKind::Text)]
    }

    /// The field values, in declaration order.
    pub open spec fn fields(&self) -> Seq<Field> {
        seq![Field::One(Scalar::Text(self.line@))]
    }
}

impl Default for ChatHeard {
    fn default() -> (value: ChatHeard)
        ensures
            value.fields() == defaults(ChatHeard::kinds()),
    {
        let value = ChatHeard { line: String::new() };
        assert(value.fields() =~= defaults(ChatHeard::kinds()));
        value
    }
}

/// The `rpc` codec of [`ChatHeard`].
pub struct ChatHeardRpcCodec;

impl ChatHeardRpcCodec {
    /// This message's stable id.
    pub const MESSAGE_ID: u32 = 0xE037CA19;

    /// This message's wire-contract fingerprint.
    pub const FINGERPRINT: u64 = 0xE7F7CA08D16B1A00;

    /// Writes the fields of `value`, in declaration order.
    pub fn encode(writer: &mut Writer, value: &ChatHeard)
        requires
            fields_fit(value.fields(), ChatHeard::kinds(), Limits::spec_unlimited()),
        ensures
            final(writer)@ == old(writer)@ + message_wire(value.fields()),
    {
        proof {
            assert(field_fits(value.fields()[0], ChatHeard::kinds()[0], Limits::spec_unlimited()));
        }
        writer.write_string(value.line.as_str());
        proof {
            reveal_with_fuel(message_wire, 2);
            assert(final(writer)@ =~= old(writer)@ + message_wire(value.fields()));
        }
    }

    /// Reads the fields into `value`, in declaration order: a field the stream
    /// ended before takes its zero value, and on an error the fields not reached
    /// are left as they were.
    pub fn decode(reader: &mut Reader<'_>, value: &mut ChatHeard) -> (r: Result<(), DecodeError>)
        ensures
            ({
                let (fs, used, err) = read_fields(ChatHeard::kinds(), old(reader).rest(), old(reader).limits_spec());
                &&& old(reader).advanced(final(reader), used)
                &&& final(value).fields() =~= fs + old(value).fields().skip(fs.len() as int)
                &&& err matches Some(e) ==> r == Err::<(), DecodeError>(e)
                &&& err is None ==> r is Ok
            }),
    {
        let ghost start = *reader;
        let ghost kinds = ChatHeard::kinds();
        let ghost mut done: Seq<Field> = Seq::empty();
        let ghost mut used: int = 0;
        proof {
            lemma_progress_start(kinds, start);
        }
        let ghost before = *reader;
        proof {
            lemma_progress_field(kinds, start, before, before, 0, done, used);
        }
        let x = read_text_field(reader)?;
        proof {
            lemma_progress_field(kinds, start, before, *reader, 0, done, used);
            done = done.push(Field::One(Scalar::Text(x@)));
            used = used + (reader.offset() - before.offset());
        }
        value.line = x;
        proof {
            lemma_progress_done(kinds, start, *reader, done, used);
        }
        Ok(())
    }
}

/// The request of `Clock.Ticks`.
#[derive(Debug, Clone)]
pub struct TicksRequest {}

impl TicksRequest {
    /// The wire types of the fields, in declaration order.
    pub open spec fn kinds() -> Seq<FieldKind> {
        Seq::empty()
    }

    /// The field values, in declaration order.
    pub open spec fn fields(&self) -> Seq<Field> {
        Seq::empty()
    }
}

impl Default for TicksRequest {
    fn default() -> (value: TicksRequest)
        ensures
            value.fields() == defaults(TicksRequest::kinds()),
    {
        let value = TicksRequest {};
        assert(value.fields() =~= defaults(TicksRequest::kinds()));
        value
    }
}

/// The `rpc` codec of [`TicksRequest`].
pub struct TicksRequestRpcCodec;

impl TicksRequestRpcCodec {
    /// This message's stable id.
    pub const MESSAGE_ID: u32 = 0xE96A59D5;

    /// This message's wire-contract fingerprint.
    pub const FINGERPRINT: u64 = 0x68C7B9B2E11A98D3;

    /// Writes the fields of `value`, in declaration order.
    pub fn encode(writer: &mut Writer, value: &TicksRequest)
        requires
            fields_fit(value.fields(), TicksRequest::kinds(), Limits::spec_unlimited()),
        ensures
            final(writer)@ == old(writer)@ + message_wire(value.fields()),
    {
        proof {
            reveal_with_fuel(message_wire, 1);
            assert(final(writer)@ =~= old(writer)@ + message_wire(value.fields()));
        }
    }

    /// Reads the fields into `value`, in declaration order: a field the stream
    /// ended before takes its zero value, and on an error the fields not reached
    /// are left as they were.
    pub fn decode(reader: &mut Reader<'_>, value: &mut TicksRequest) -> (r: Result<(), DecodeError>)
        ensures
            ({
                let (fs, used, err) = read_fields(TicksRequest::kinds(), old(reader).rest(), old(reader).limits_spec());
                &&& old(reader).advanced(final(reader), used)
                &&& final(value).fields() =~= fs + old(value).fields().skip(fs.len() as int)
                &&& err matches Some(e) ==> r == Err::<(), DecodeError>(e)
                &&& err is None ==> r is Ok
            }),
    {
        let ghost start = *reader;
        let ghost kinds = TicksRequest::kinds();
        let ghost mut done: Seq<Field> = Seq::empty();
        let ghost mut used: int = 0;
        proof {
            lemma_progress_start(kinds, start);
        }
        proof {
            lemma_progress_done(kinds, start, *reader, done, used);
        }
        Ok(())
    }
}

/// One tick of `Clock.Ticks`.
#[derive(Debug, Clone)]
pub struct TicksItem {
    pub value: u32,
}

impl TicksItem {
    /// The wire types of the fields, in declaration order.
    pub open spec fn kinds() -> Seq<FieldKind> {
        seq![FieldKind::One(ScalarKind::U32)]
    }

    /// The field values, in declaration order.
    pub open spec fn fields(&self) -> Seq<Field> {
        seq![Field::One(Scalar::U32(self.value))]
    }
}

impl Default for TicksItem {
    fn default() -> (value: TicksItem)
        ensures
            value.fields() == defaults(TicksItem::kinds()),
    {
        let value = TicksItem { value: 0 };
        assert(value.fields() =~= defaults(TicksItem::kinds()));
        value
    }
}

/// The `rpc` codec of [`TicksItem`].
pub struct TicksItemRpcCodec;

impl TicksItemRpcCodec {
    /// This message's stable id.
    pub const MESSAGE_ID: u32 = 0x35BE4510;

    /// This message's wire-contract fingerprint.
    pub const FINGERPRINT: u64 = 0x820BA1C0FDACDCFC;

    /// Writes the fields of `value`, in declaration order.
    pub fn encode(writer: &mut Writer, value: &TicksItem)
        requires
            fields_fit(value.fields(), TicksItem::kinds(), Limits::spec_unlimited()),
        ensures
            final(writer)@ == old(writer)@ + message_wire(value.fields()),
    {
        writer.write_u32(value.value);
        proof {
            reveal_with_fuel(message_wire, 2);
            assert(final(writer)@ =~= old(writer)@ + message_wire(value.fields()));
        }
    }

    /// Reads the fields into `value`, in declaration order: a field the stream
    /// ended before takes its zero value, and on an error the fields not reached
    /// are left as they were.
    pub fn decode(reader: &mut Reader<'_>, value: &mut TicksItem) -> (r: Result<(), DecodeError>)
        ensures
            ({
                let (fs, used, err) = read_fields(TicksItem::kinds(), old(reader).rest(), old(reader).limits_spec());
                &&& old(reader).advanced(final(reader), used)
                &&& final(value).fields() =~= fs + old(value).fields().skip(fs.len() as int)
                &&& err matches Some(e) ==> r == Err::<(), DecodeError>(e)
                &&& err is None ==> r is Ok
            }),
    {
        let ghost start = *reader;
        let ghost kinds = TicksItem::kinds();
        let ghost mut done: Seq<Field> = Seq::empty();
        let ghost mut used: int = 0;
        proof {
            lemma_progress_start(kinds, start);
        }
        let ghost before = *reader;
        proof {
            lemma_progress_field(kinds, start, before, before, 0, done, used);
        }
        let x = read_u32_field(reader)?;
        proof {
            lemma_progress_field(kinds, start, before, *reader, 0, done, used);
            done = done.push(Field::One(Scalar::U32(x)));
            used = used + (reader.offset() - before.offset());
        }
        value.value = x;
        proof {
            lemma_progress_done(kinds, start, *reader, done, used);
        }
        Ok(())
    }
}
} // verus!
