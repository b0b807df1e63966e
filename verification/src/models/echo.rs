//! The models of the `Echo` methods: `Say` and `Count`.
use vstd::prelude::*;
use crate::message::{
    defaults, field_fits, fields_fit, lemma_progress_done, lemma_progress_field,
    lemma_progress_start, message_wire, read_blob_field, read_fields, read_text_field,
    read_u32_field, Field, FieldKind, Scalar, ScalarKind,
};
use crate::wire::{DecodeError, Limits, Reader, Writer};

verus! {

/// The request of `Echo.Say`: the text to echo.
#[derive(Debug, Clone)]
pub struct EchoRequest {
    pub text: String,
}

impl EchoRequest {
    /// The wire types of the fields, in declaration order.
    pub open spec fn kinds() -> Seq<FieldKind> {
        seq![FieldKind::One(ScalarKind::Text)]
    }

    /// The field values, in declaration order.
    pub open spec fn fields(&self) -> Seq<Field> {
        seq![Field::One(Scalar::Text(self.text@))]
    }
}

impl Default for EchoRequest {
    fn default() -> (value: EchoRequest)
        ensures
            value.fields() == defaults(EchoRequest::kinds()),
    {
        let value = EchoRequest { text: String::new() };
        assert(value.fields() =~= defaults(EchoRequest::kinds()));
        value
    }
}

/// The `rpc` codec of [`EchoRequest`].
pub struct EchoRequestRpcCodec;

impl EchoRequestRpcCodec {
    /// This message's stable id.
    pub const MESSAGE_ID: u32 = 0x109F8C60;

    /// This message's wire-contract fingerprint.
    pub const FINGERPRINT: u64 = 0xD477F0362150CB3D;

    /// Writes the fields of `value`, in declaration order.
    pub fn encode(writer: &mut Writer, value: &EchoRequest)
        requires
            fields_fit(value.fields(), EchoRequest::kinds(), Limits::spec_unlimited()),
        ensures
            final(writer)@ == old(writer)@ + message_wire(value.fields()),
    {
        proof {
            assert(field_fits(value.fields()[0], EchoRequest::kinds()[0], Limits::spec_unlimited()));
        }
        writer.write_string(value.text.as_str());
        proof {
            reveal_with_fuel(message_wire, 2);
            assert(final(writer)@ =~= old(writer)@ + message_wire(value.fields()));
        }
    }

    /// Reads the fields into `value`, in declaration order: a field the stream
    /// ended before takes its zero value, and on an error the fields not reached
    /// are left as they were.
    pub fn decode(reader: &mut Reader<'_>, value: &mut EchoRequest) -> (r: Result<(), DecodeError>)
        ensures
            ({
                let (fs, used, err) = read_fields(EchoRequest::kinds(), old(reader).rest(), old(reader).limits_spec());
                &&& old(reader).advanced(final(reader), used)
                &&& final(value).fields() =~= fs + old(value).fields().skip(fs.len() as int)
                &&& err matches Some(e) ==> r == Err::<(), DecodeError>(e)
                &&& err is None ==> r is Ok
            }),
    {
        let ghost start = *reader;
        let ghost kinds = EchoRequest::kinds();
        let ghost mut done: Seq<Field> = Seq::empty();
        let ghost mut used: int = 0;
        proof {
            lemma_progress_start(kinds, start);
        }
        let ghost before = *reader;
        proof {
            lemma_progress_field(kinds, start, before, before, 0, done, used);
        }
        let x = read_text_field(reader)?;
        proof {
            lemma_progress_field(kinds, start, before, *reader, 0, done, used);
            done = done.push(Field::One(Scalar::Text(x@)));
            used = used + (reader.offset() - before.offset());
        }
        value.text = x;
        proof {
            lemma_progress_done(kinds, start, *reader, done, used);
        }
        Ok(())
    }
}

/// The reply of `Echo.Say`: the echoed text.
#[derive(Debug, Clone)]
pub struct EchoResponse {
    pub text: String,
}

impl EchoResponse {
    /// The wire types of the fields, in declaration order.
    pub open spec fn kinds() -> Seq<FieldKind> {
        seq![FieldKind::One(ScalarKind::Text)]
    }

    /// The field values, in declaration order.
    pub open spec fn fields(&self) -> Seq<Field> {
        seq![Field::One(Scalar::Text(self.text@))]
    }
}

impl Default for EchoResponse {
    fn default() -> (value: EchoResponse)
        ensures
            value.fields() == defaults(EchoResponse::kinds()),
    {
        let value = EchoResponse { text: String::new() };
        assert(value.fields() =~= defaults(EchoResponse::kinds()));
        value
    }
}

/// The `rpc` codec of [`EchoResponse`].
pub struct EchoResponseRpcCodec;

impl EchoResponseRpcCodec {
    /// This message's stable id.
    pub const MESSAGE_ID: u32 = 0x96D79DED;

    /// This message's wire-contract fingerprint.
    pub const FINGERPRINT: u64 = 0x23368E8A5E0FCA18;

    /// Writes the fields of `value`, in declaration order.
    pub fn encode(writer: &mut Writer, value: &EchoResponse)
        requires
            fields_fit(value.fields(), EchoResponse::kinds(), Limits::spec_unlimited()),
        ensures
            final(writer)@ == old(writer)@ + message_wire(value.fields()),
    {
        proof {
            assert(field_fits(value.fields()[0], EchoResponse::kinds()[0], Limits::spec_unlimited()));
        }
        writer.write_string(value.text.as_str());
        proof {
            reveal_with_fuel(message_wire, 2);
            assert(final(writer)@ =~= old(writer)@ + message_wire(value.fields()));
        }
    }

    /// Reads the fields into `value`, in declaration order: a field the stream
    /// ended before takes its zero value, and on an error the fields not reached
    /// are left as they were.
    pub fn decode(reader: &mut Reader<'_>, value: &mut EchoResponse) -> (r: Result<(), DecodeError>)
        ensures
            ({
                let (fs, used, err) = read_fields(EchoResponse::kinds(), old(reader).rest(), old(reader).limits_spec());
                &&& old(reader).advanced(final(reader), used)
                &&& final(value).fields() =~= fs + old(value).fields().skip(fs.len() as int)
                &&& err matches Some(e) ==> r == Err::<(), DecodeError>(e)
                &&& err is None ==> r is Ok
            }),
    {
        let ghost start = *reader;
        let ghost kinds = EchoResponse::kinds();
        let ghost mut done: Seq<Field> = Seq::empty();
        let ghost mut used: int = 0;
        proof {
            lemma_progress_start(kinds, start);
        }
        let ghost before = *reader;
        proof {
            lemma_progress_field(kinds, start, before, before, 0, done, used);
        }
        let x = read_text_field(reader)?;
        proof {
            lemma_progress_field(kinds, start, before, *reader, 0, done, used);
            done = done.push(Field::One(Scalar::Text(x@)));
            used = used + (reader.offset() - before.offset());
        }
        value.text = x;
        proof {
            lemma_progress_done(kinds, start, *reader, done, used);
        }
        Ok(())
    }
}

/// The request of `Echo.Count`: how many items to stream.
#[derive(Debug, Clone)]
pub struct CountRequest {
    pub count: u32,
}

impl CountRequest {
    /// The wire types of the fields, in declaration order.
    pub open spec fn kinds() -> Seq<FieldKind> {
        seq![FieldKind::One(ScalarKind::U32)]
    }

    /// The field values, in declaration order.
    pub open spec fn fields(&self) -> Seq<Field> {
        seq![Field::One(Scalar::U32(self.count))]
    }
}

impl Default for CountRequest {
    fn default() -> (value: CountRequest)
        ensures
            value.fields() == defaults(CountRequest::kinds()),
    {
        let value = CountRequest { count: 0 };
        assert(value.fields() =~= defaults(CountRequest::kinds()));
        value
    }
}

/// The `rpc` codec of [`CountRequest`].
pub struct CountRequestRpcCodec;

impl CountRequestRpcCodec {
    /// This message's stable id.
    pub const MESSAGE_ID: u32 = 0x188823FA;

    /// This message's wire-contract fingerprint.
    pub const FINGERPRINT: u64 = 0x12D24DCF758A9769;

    /// Writes the fields of `value`, in declaration order.
    pub fn encode(writer: &mut Writer, value: &CountRequest)
        requires
            fields_fit(value.fields(), CountRequest::kinds(), Limits::spec_unlimited()),
        ensures
            final(writer)@ == old(writer)@ + message_wire(value.fields()),
    {
        writer.write_u32(value.count);
        proof {
            reveal_with_fuel(message_wire, 2);
            assert(final(writer)@ =~= old(writer)@ + message_wire(value.fields()));
        }
    }

    /// Reads the fields into `value`, in declaration order: a field the stream
    /// ended before takes its zero value, and on an error the fields not reached
    /// are left as they were.
    pub fn decode(reader: &mut Reader<'_>, value: &mut CountRequest) -> (r: Result<(), DecodeError>)
        ensures
            ({
                let (fs, used, err) = read_fields(CountRequest::kinds(), old(reader).rest(), old(reader).limits_spec());
                &&& old(reader).advanced(final(reader), used)
                &&& final(value).fields() =~= fs + old(value).fields().skip(fs.len() as int)
                &&& err matches Some(e) ==> r == Err::<(), DecodeError>(e)
                &&& err is None ==> r is Ok
            }),
    {
        let ghost start = *reader;
        let ghost kinds = CountRequest::kinds();
        let ghost mut done: Seq<Field> = Seq::empty();
        let ghost mut used: int = 0;
        proof {
            lemma_progress_start(kinds, start);
        }
        let ghost before = *reader;
        proof {
            lemma_progress_field(kinds, start, before, before, 0, done, used);
        }
        let x = read_u32_field(reader)?;
        proof {
            lemma_progress_field(kinds, start, before, *reader, 0, done, used);
            done = done.push(Field::One(Scalar::U32(x)));
            used = used + (reader.offset() - before.offset());
        }
        value.count = x;
        proof {
            lemma_progress_done(kinds, start, *reader, done, used);
        }
        Ok(())
    }
}

/// One item of `Echo.Count`.
#[derive(Debug, Clone)]
pub struct CountItem {
    pub value: u32,
}

impl CountItem {
    /// The wire types of the fields, in declaration order.
    pub open spec fn kinds() -> Seq<FieldKind> {
        seq![FieldKind::One(ScalarKind::U32)]
    }

    /// The field values, in declaration order.
    pub open spec fn fields(&self) -> Seq<Field> {
        seq![Field::One(Scalar::U32(self.value))]
    }
}

impl Default for CountItem {
    fn default() -> (value: CountItem)
        ensures
            value.fields() == defaults(CountItem::kinds()),
    {
        let value = CountItem { value: 0 };
        assert(value.fields() =~= defaults(CountItem::kinds()));
        value
    }
}

/// The `rpc` codec of [`CountItem`].
pub struct CountItemRpcCodec;

impl CountItemRpcCodec {
    /// This message's stable id.
    pub const MESSAGE_ID: u32 = 0x5FB691E2;

    /// This message's wire-contract fingerprint.
    pub const FINGERPRINT: u64 = 0xA3A551BBFCF90A6C;

    /// Writes the fields of `value`, in declaration order.
    pub fn encode(writer: &mut Writer, value: &CountItem)
        requires
            fields_fit(value.fields(), CountItem::kinds(), Limits::spec_unlimited()),
        ensures
            final(writer)@ == old(writer)@ + message_wire(value.fields()),
    {
        writer.write_u32(value.value);
        proof {
            reveal_with_fuel(message_wire, 2);
            assert(final(writer)@ =~= old(writer)@ + message_wire(value.fields()));
        }
    }

    /// Reads the fields into `value`, in declaration order: a field the stream
    /// ended before takes its zero value, and on an error the fields not reached
    /// are left as they were.
    pub fn decode(reader: &mut Reader<'_>, value: &mut CountItem) -> (r: Result<(), DecodeError>)
        ensures
            ({
                let (fs, used, err) = read_fields(CountItem::kinds(), old(reader).rest(), old(reader).limits_spec());
                &&& old(reader).advanced(final(reader), used)
                &&& final(value).fields() =~= fs + old(value).fields().skip(fs.len() as int)
                &&& err matches Some(e) ==> r == Err::<(), DecodeError>(e)
                &&& err is None ==> r is Ok
            }),
    {
        let ghost start = *reader;
        let ghost kinds = CountItem::kinds();
        let ghost mut done: Seq<Field> = Seq::empty();
        let ghost mut used: int = 0;
        proof {
            lemma_progress_start(kinds, start);
        }
        let ghost before = *reader;
        proof {
            lemma_progress_field(kinds, start, before, before, 0, done, used);
        }
        let x = read_u32_field(reader)?;
        proof {
            lemma_progress_field(kinds, start, before, *reader, 0, done, used);
            done = done.push(Field::One(Scalar::U32(x)));
            used = used + (reader.offset() - before.offset());
        }
        value.value = x;
        proof {
            lemma_progress_done(kinds, start, *reader, done, used);
        }
        Ok(())
    }
}
} // verus!
