//! The shape of a Fomoxa message: an ordered list of fields, each a scalar
//! (`u32`, `string`, `bytes`) or an array of records of scalars, written one
//! after the other in declaration order.
//!
//! Decoding follows the version-skew rule: when nothing at all is left at a
//! field boundary, that field and every one after it are absent and take
//! their zero value; a field the stream ends inside is an error; bytes left
//! over after the last field belong to a newer writer and are ignored.
use vstd::prelude::*;
use vstd::utf8::encode_utf8;
use crate::wire::{
    lemma_blob_roundtrip, lemma_count_roundtrip, lemma_text_roundtrip, lemma_u32_roundtrip,
    blob_wire, fits_u32, len_wire, read_blob_spec, read_count_spec, read_text_spec, read_u32_spec,
    text_wire, u32_wire, DecodeError, Limits, Reader,
};

verus! {

/// The wire type of a scalar field.
pub enum ScalarKind {
    U32,
    Text,
    Blob,
}

/// The value of a scalar field.
pub enum Scalar {
    U32(u32),
    Text(Seq<char>),
    Blob(Seq<u8>),
}

/// The wire type of a message field.
pub enum FieldKind {
    One(ScalarKind),
    Records(Seq<ScalarKind>),
}

/// The value of a message field.
pub enum Field {
    One(Scalar),
    Records(Seq<Seq<Scalar>>),
}

// ---------------------------------------------------------------------------
// Types, defaults and limits
// ---------------------------------------------------------------------------

/// The zero value of a scalar kind.
pub open spec fn scalar_default(kind: ScalarKind) -> Scalar {
    match kind {
        ScalarKind::U32 => Scalar::U32(0),
        ScalarKind::Text => Scalar::Text(Seq::empty()),
        ScalarKind::Blob => Scalar::Blob(Seq::empty()),
    }
}

/// The zero value of a field kind.
pub open spec fn field_default(kind: FieldKind) -> Field {
    match kind {
        FieldKind::One(k) => Field::One(scalar_default(k)),
        FieldKind::Records(_) => Field::Records(Seq::empty()),
    }
}

/// The zero values of a list of field kinds.
pub open spec fn defaults(kinds: Seq<FieldKind>) -> Seq<Field> {
    kinds.map_values(|k: FieldKind| field_default(k))
}

/// Whether a scalar has the given kind and can be read back under `limits`.
pub open spec fn scalar_fits(value: Scalar, kind: ScalarKind, limits: Limits) -> bool {
    match (value, kind) {
        (Scalar::U32(_), ScalarKind::U32) => true,
        (Scalar::Text(t), ScalarKind::Text) => encode_utf8(t).len() <= limits.max_string_len
            && fits_u32(encode_utf8(t).len()),
        (Scalar::Blob(b), ScalarKind::Blob) => b.len() <= limits.max_bytes_len && fits_u32(b.len()),
        _ => false,
    }
}

/// Whether a record has the given kinds and can be read back under `limits`.
pub open spec fn record_fits(values: Seq<Scalar>, kinds: Seq<ScalarKind>, limits: Limits) -> bool {
    &&& values.len() == kinds.len()
    &&& forall|i: int| 0 <= i < values.len() ==> scalar_fits(#[trigger] values[i], kinds[i], limits)
}

/// Whether a field has the given kind and can be read back under `limits`.
pub open spec fn field_fits(value: Field, kind: FieldKind, limits: Limits) -> bool {
    match (value, kind) {
        (Field::One(v), FieldKind::One(k)) => scalar_fits(v, k, limits),
        (Field::Records(rs), FieldKind::Records(ks)) => {
            &&& rs.len() <= limits.max_array_count
            &&& fits_u32(rs.len())
            &&& forall|i: int| 0 <= i < rs.len() ==> record_fits(#[trigger] rs[i], ks, limits)
        },
        _ => false,
    }
}

/// Whether a message has the given field kinds and can be read back under `limits`.
pub open spec fn fields_fit(values: Seq<Field>, kinds: Seq<FieldKind>, limits: Limits) -> bool {
    &&& values.len() == kinds.len()
    &&& forall|i: int| 0 <= i < values.len() ==> field_fits(#[trigger] values[i], kinds[i], limits)
}

// ---------------------------------------------------------------------------
// Encoding
// ---------------------------------------------------------------------------

/// The bytes of one scalar.
pub open spec fn scalar_wire(value: Scalar) -> Seq<u8> {
    match value {
        Scalar::U32(v) => u32_wire(v),
        Scalar::Text(t) => text_wire(t),
        Scalar::Blob(b) => blob_wire(b),
    }
}

/// The bytes of a record: its scalars, in order.
pub open spec fn record_wire(values: Seq<Scalar>) -> Seq<u8>
    decreases values.len(),
{
    if values.len() == 0 {
        Seq::empty()
    } else {
        scalar_wire(values[0]) + record_wire(values.drop_first())
    }
}

/// The bytes of a run of records, one after the other.
pub open spec fn records_wire(records: Seq<Seq<Scalar>>) -> Seq<u8>
    decreases records.len(),
{
    if records.len() == 0 {
        Seq::empty()
    } else {
        record_wire(records[0]) + records_wire(records.drop_first())
    }
}

/// The bytes of one field; an array is its element count, then its records.
pub open spec fn field_wire(value: Field) -> Seq<u8> {
    match value {
        Field::One(v) => scalar_wire(v),
        Field::Records(rs) => len_wire(rs.len()) + records_wire(rs),
    }
}

/// The bytes of a message: its fields, in declaration order.
pub open spec fn message_wire(values: Seq<Field>) -> Seq<u8>
    decreases values.len(),
{
    if values.len() == 0 {
        Seq::empty()
    } else {
        field_wire(values[0]) + message_wire(values.drop_first())
    }
}

// ---------------------------------------------------------------------------
// Decoding
// ---------------------------------------------------------------------------

/// Reads a scalar that is present: the value and the bytes used.
pub open spec fn read_scalar(kind: ScalarKind, rest: Seq<u8>, limits: Limits) -> Result<
    (Scalar, int),
    DecodeError,
> {
    match kind {
        ScalarKind::U32 => match read_u32_spec(rest) {
            Ok((v, n)) => Ok((Scalar::U32(v), n)),
            Err(e) => Err(e),
        },
        ScalarKind::Text => match read_text_spec(rest, limits) {
            Ok((t, n)) => Ok((Scalar::Text(t), n)),
            Err(e) => Err(e),
        },
        ScalarKind::Blob => match read_blob_spec(rest, limits) {
            Ok((b, n)) => Ok((Scalar::Blob(b), n)),
            Err(e) => Err(e),
        },
    }
}

/// Reads a scalar field: absent (its zero value) when nothing is left.
pub open spec fn read_scalar_field(kind: ScalarKind, rest: Seq<u8>, limits: Limits) -> Result<
    (Scalar, int),
    DecodeError,
> {
    if rest.len() == 0 {
        Ok((scalar_default(kind), 0))
    } else {
        read_scalar(kind, rest, limits)
    }
}

/// Reads the scalar fields of a record: the values read before the first
/// error, the bytes used, and that error if there is one.
pub open spec fn read_record(kinds: Seq<ScalarKind>, rest: Seq<u8>, limits: Limits) -> (
    Seq<Scalar>,
    int,
    Option<DecodeError>,
)
    decreases kinds.len(),
{
    if kinds.len() == 0 {
        (Seq::empty(), 0, None)
    } else {
        match read_scalar_field(kinds[0], rest, limits) {
            Err(e) => (Seq::empty(), 0, Some(e)),
            Ok((v, n)) => {
                let (vs, m, err) = read_record(kinds.drop_first(), rest.skip(n), limits);
                (seq![v] + vs, n + m, err)
            },
        }
    }
}

/// Reads `count` records: the complete records read before the first error,
/// the bytes used (a record that failed part way keeps what it consumed),
/// and that error if there is one.
pub open spec fn read_records(kinds: Seq<ScalarKind>, count: nat, rest: Seq<u8>, limits: Limits) -> (
    Seq<Seq<Scalar>>,
    int,
    Option<DecodeError>,
)
    decreases count,
{
    if count == 0 {
        (Seq::empty(), 0, None)
    } else {
        let (vs, n, err) = read_record(kinds, rest, limits);
        match err {
            Some(e) => (Seq::empty(), n, Some(e)),
            None => {
                let (rs, m, err2) = read_records(kinds, (count - 1) as nat, rest.skip(n), limits);
                (seq![vs] + rs, n + m, err2)
            },
        }
    }
}

/// Reads one field: its value (meaningful when there is no error), the bytes
/// used, and the error if there is one.
pub open spec fn read_field(kind: FieldKind, rest: Seq<u8>, limits: Limits) -> (
    Field,
    int,
    Option<DecodeError>,
) {
    match kind {
        FieldKind::One(k) => match read_scalar_field(k, rest, limits) {
            Ok((v, n)) => (Field::One(v), n, None),
            Err(e) => (field_default(kind), 0, Some(e)),
        },
        FieldKind::Records(ks) => if rest.len() == 0 {
            (Field::Records(Seq::empty()), 0, None)
        } else {
            match read_count_spec(rest, limits) {
                Err(e) => (field_default(kind), 0, Some(e)),
                Ok((count, n)) => {
                    let (rs, m, err) = read_records(ks, count as nat, rest.skip(n), limits);
                    (Field::Records(rs), n + m, err)
                },
            }
        },
    }
}

/// Reads the fields of a message: the fields read before the first error,
/// the bytes used, and that error if there is one.
pub open spec fn read_fields(kinds: Seq<FieldKind>, rest: Seq<u8>, limits: Limits) -> (
    Seq<Field>,
    int,
    Option<DecodeError>,
)
    decreases kinds.len(),
{
    if kinds.len() == 0 {
        (Seq::empty(), 0, None)
    } else {
        let (f, n, err) = read_field(kinds[0], rest, limits);
        match err {
            Some(e) => (Seq::empty(), n, Some(e)),
            None => {
                let (fs, m, err2) = read_fields(kinds.drop_first(), rest.skip(n), limits);
                (seq![f] + fs, n + m, err2)
            },
        }
    }
}

/// A message as a value whose fields were `before` ends up after a decode:
/// the fields read, then the fields the decode did not reach, unchanged.
pub open spec fn decoded_over(kinds: Seq<FieldKind>, rest: Seq<u8>, limits: Limits, before: Seq<Field>) -> Seq<Field> {
    let (fs, _, _) = read_fields(kinds, rest, limits);
    fs + before.skip(fs.len() as int)
}

/// The message a fresh, zero-valued value holds after decoding `bytes`.
pub open spec fn decoded(kinds: Seq<FieldKind>, bytes: Seq<u8>, limits: Limits) -> Seq<Field> {
    decoded_over(kinds, bytes, limits, defaults(kinds))
}

// ---------------------------------------------------------------------------
// What a reader gives back of what a writer wrote
// ---------------------------------------------------------------------------

/// A scalar reads back as itself, whatever follows it, and takes at least 4 bytes.
pub proof fn lemma_scalar_roundtrip(value: Scalar, kind: ScalarKind, extra: Seq<u8>, limits: Limits)
    requires
        scalar_fits(value, kind, limits),
    ensures
        read_scalar_field(kind, scalar_wire(value) + extra, limits)
            == Ok::<(Scalar, int), DecodeError>((value, scalar_wire(value).len() as int)),
        scalar_wire(value).len() >= 4,
{
    match value {
        Scalar::U32(v) => {
            lemma_u32_roundtrip(v, extra);
        },
        Scalar::Text(t) => {
            lemma_text_roundtrip(t, extra, limits);
        },
        Scalar::Blob(b) => {
            lemma_blob_roundtrip(b, extra, limits);
        },
    }
}

/// A record reads back as itself, whatever follows it.
pub proof fn lemma_record_roundtrip(values: Seq<Scalar>, kinds: Seq<ScalarKind>, extra: Seq<u8>, limits: Limits)
    requires
        record_fits(values, kinds, limits),
    ensures
        read_record(kinds, record_wire(values) + extra, limits)
            == (values, record_wire(values).len() as int, None::<DecodeError>),
    decreases kinds.len(),
{
    if kinds.len() > 0 {
        let tail = record_wire(values.drop_first()) + extra;
        assert(scalar_fits(values[0], kinds[0], limits));
        lemma_scalar_roundtrip(values[0], kinds[0], tail, limits);
        assert(record_wire(values) + extra =~= scalar_wire(values[0]) + tail);
        assert((scalar_wire(values[0]) + tail).skip(scalar_wire(values[0]).len() as int) =~= tail);
        assert(record_fits(values.drop_first(), kinds.drop_first(), limits)) by {
            assert forall|i: int| 0 <= i < values.drop_first().len() implies scalar_fits(
                #[trigger] values.drop_first()[i],
                kinds.drop_first()[i],
                limits,
            ) by {
                assert(scalar_fits(values[i + 1], kinds[i + 1], limits));
            }
        }
        lemma_record_roundtrip(values.drop_first(), kinds.drop_first(), extra, limits);
        assert(seq![values[0]] + values.drop_first() =~= values);
    } else {
        assert(values =~= Seq::<Scalar>::empty());
    }
}

/// A run of records reads back as itself, whatever follows it.
pub proof fn lemma_records_roundtrip(
    records: Seq<Seq<Scalar>>,
    kinds: Seq<ScalarKind>,
    extra: Seq<u8>,
    limits: Limits,
)
    requires
        forall|i: int| 0 <= i < records.len() ==> record_fits(#[trigger] records[i], kinds, limits),
    ensures
        read_records(kinds, records.len(), records_wire(records) + extra, limits)
            == (records, records_wire(records).len() as int, None::<DecodeError>),
    decreases records.len(),
{
    if records.len() > 0 {
        let tail = records_wire(records.drop_first()) + extra;
        assert(record_fits(records[0], kinds, limits));
        lemma_record_roundtrip(records[0], kinds, tail, limits);
        assert(records_wire(records) + extra =~= record_wire(records[0]) + tail);
        assert((record_wire(records[0]) + tail).skip(record_wire(records[0]).len() as int) =~= tail);
        assert forall|i: int| 0 <= i < records.drop_first().len() implies record_fits(
            #[trigger] records.drop_first()[i],
            kinds,
            limits,
        ) by {
            assert(record_fits(records[i + 1], kinds, limits));
        }
        lemma_records_roundtrip(records.drop_first(), kinds, extra, limits);
        assert(seq![records[0]] + records.drop_first() =~= records);
    } else {
        assert(records =~= Seq::<Seq<Scalar>>::empty());
    }
}

/// A field reads back as itself, whatever follows it, and takes at least 4 bytes.
pub proof fn lemma_field_roundtrip(value: Field, kind: FieldKind, extra: Seq<u8>, limits: Limits)
    requires
        field_fits(value, kind, limits),
    ensures
        read_field(kind, field_wire(value) + extra, limits)
            == (value, field_wire(value).len() as int, None::<DecodeError>),
        field_wire(value).len() >= 4,
{
    match (value, kind) {
        (Field::One(v), FieldKind::One(k)) => {
            lemma_scalar_roundtrip(v, k, extra, limits);
        },
        (Field::Records(rs), FieldKind::Records(ks)) => {
            let tail = records_wire(rs) + extra;
            lemma_count_roundtrip(rs.len(), tail, limits);
            assert(field_wire(value) + extra =~= len_wire(rs.len()) + tail);
            assert((len_wire(rs.len()) + tail).skip(4) =~= tail);
            lemma_records_roundtrip(rs, ks, extra, limits);
        },
        _ => {},
    }
}

/// A message reads back as itself, whatever follows it: bytes a newer writer
/// appended after the last field this reader knows are ignored.
pub proof fn lemma_message_roundtrip(values: Seq<Field>, kinds: Seq<FieldKind>, extra: Seq<u8>, limits: Limits)
    requires
        fields_fit(values, kinds, limits),
    ensures
        read_fields(kinds, message_wire(values) + extra, limits)
            == (values, message_wire(values).len() as int, None::<DecodeError>),
    decreases kinds.len(),
{
    if kinds.len() > 0 {
        let tail = message_wire(values.drop_first()) + extra;
        assert(field_fits(values[0], kinds[0], limits));
        lemma_field_roundtrip(values[0], kinds[0], tail, limits);
        assert(message_wire(values) + extra =~= field_wire(values[0]) + tail);
        assert((field_wire(values[0]) + tail).skip(field_wire(values[0]).len() as int) =~= tail);
        assert forall|i: int| 0 <= i < values.drop_first().len() implies field_fits(
            #[trigger] values.drop_first()[i],
            kinds.drop_first()[i],
            limits,
        ) by {
            assert(field_fits(values[i + 1], kinds[i + 1], limits));
        }
        lemma_message_roundtrip(values.drop_first(), kinds.drop_first(), extra, limits);
        assert(seq![values[0]] + values.drop_first() =~= values);
    } else {
        assert(values =~= Seq::<Field>::empty());
    }
}

/// With nothing left to read, every field is absent and takes its zero value.
pub proof fn lemma_read_nothing(kinds: Seq<FieldKind>, limits: Limits)
    ensures
        read_fields(kinds, Seq::empty(), limits) == (defaults(kinds), 0int, None::<DecodeError>),
    decreases kinds.len(),
{
    if kinds.len() > 0 {
        assert(Seq::<u8>::empty().skip(0) =~= Seq::<u8>::empty());
        lemma_read_nothing(kinds.drop_first(), limits);
        assert(seq![field_default(kinds[0])] + defaults(kinds.drop_first()) =~= defaults(kinds));
    } else {
        assert(defaults(kinds) =~= Seq::<Field>::empty());
    }
}

/// A message written by an older writer, whose model holds only the first
/// fields of the reader's, reads back as those fields followed by the zero
/// values of the fields that writer did not know.
pub proof fn lemma_message_older_writer(values: Seq<Field>, kinds: Seq<FieldKind>, limits: Limits)
    requires
        values.len() <= kinds.len(),
        fields_fit(values, kinds.take(values.len() as int), limits),
    ensures
        read_fields(kinds, message_wire(values), limits) == (
            values + defaults(kinds.skip(values.len() as int)),
            message_wire(values).len() as int,
            None::<DecodeError>,
        ),
    decreases values.len(),
{
    if values.len() == 0 {
        lemma_read_nothing(kinds, limits);
        assert(kinds.skip(0) =~= kinds);
        assert(values + defaults(kinds) =~= defaults(kinds));
    } else {
        let tail = message_wire(values.drop_first());
        assert(field_fits(values[0], kinds.take(values.len() as int)[0], limits));
        lemma_field_roundtrip(values[0], kinds[0], tail, limits);
        assert(message_wire(values) =~= field_wire(values[0]) + tail);
        assert((field_wire(values[0]) + tail).skip(field_wire(values[0]).len() as int) =~= tail);
        assert(kinds.drop_first().take(values.drop_first().len() as int) =~= kinds.take(
            values.len() as int,
        ).drop_first());
        assert forall|i: int| 0 <= i < values.drop_first().len() implies field_fits(
            #[trigger] values.drop_first()[i],
            kinds.drop_first().take(values.drop_first().len() as int)[i],
            limits,
        ) by {
            assert(field_fits(values[i + 1], kinds.take(values.len() as int)[i + 1], limits));
        }
        lemma_message_older_writer(values.drop_first(), kinds.drop_first(), limits);
        assert(kinds.drop_first().skip(values.drop_first().len() as int) =~= kinds.skip(
            values.len() as int,
        ));
        assert(seq![values[0]] + (values.drop_first() + defaults(kinds.skip(values.len() as int)))
            =~= values + defaults(kinds.skip(values.len() as int)));
    }
}

/// A scalar read uses no more bytes than are left.
pub proof fn lemma_read_scalar_used(kind: ScalarKind, rest: Seq<u8>, limits: Limits)
    ensures
        read_scalar_field(kind, rest, limits) matches Ok((_, n)) ==> 0 <= n <= rest.len(),
{
}

/// A record read uses no more bytes than are left.
pub proof fn lemma_read_record_used(kinds: Seq<ScalarKind>, rest: Seq<u8>, limits: Limits)
    ensures
        0 <= read_record(kinds, rest, limits).1 <= rest.len(),
        read_record(kinds, rest, limits).2 is None ==> read_record(kinds, rest, limits).0.len() == kinds.len(),
    decreases kinds.len(),
{
    if kinds.len() > 0 {
        lemma_read_scalar_used(kinds[0], rest, limits);
        if let Ok((_, n)) = read_scalar_field(kinds[0], rest, limits) {
            lemma_read_record_used(kinds.drop_first(), rest.skip(n), limits);
        }
    }
}

/// A run of record reads uses no more bytes than are left.
pub proof fn lemma_read_records_used(kinds: Seq<ScalarKind>, count: nat, rest: Seq<u8>, limits: Limits)
    ensures
        0 <= read_records(kinds, count, rest, limits).1 <= rest.len(),
    decreases count,
{
    if count > 0 {
        lemma_read_record_used(kinds, rest, limits);
        let n = read_record(kinds, rest, limits).1;
        lemma_read_records_used(kinds, (count - 1) as nat, rest.skip(n), limits);
    }
}

/// A field read uses no more bytes than are left.
pub proof fn lemma_read_field_used(kind: FieldKind, rest: Seq<u8>, limits: Limits)
    ensures
        0 <= read_field(kind, rest, limits).1 <= rest.len(),
{
    match kind {
        FieldKind::One(k) => lemma_read_scalar_used(k, rest, limits),
        FieldKind::Records(ks) => {
            if rest.len() > 0 {
                if let Ok((count, n)) = read_count_spec(rest, limits) {
                    lemma_read_records_used(ks, count as nat, rest.skip(n), limits);
                }
            }
        },
    }
}

/// The fields of a message whose every field is a scalar.
pub open spec fn scalar_fields(values: Seq<Scalar>) -> Seq<Field> {
    values.map_values(|v: Scalar| Field::One(v))
}

/// The field kinds of a message whose every field is a scalar.
pub open spec fn scalar_field_kinds(kinds: Seq<ScalarKind>) -> Seq<FieldKind> {
    kinds.map_values(|k: ScalarKind| FieldKind::One(k))
}

/// Reading a message of scalar fields is reading them as one record.
pub proof fn lemma_scalar_message_is_record(kinds: Seq<ScalarKind>, rest: Seq<u8>, limits: Limits)
    ensures
        read_fields(scalar_field_kinds(kinds), rest, limits) == (
            scalar_fields(read_record(kinds, rest, limits).0),
            read_record(kinds, rest, limits).1,
            read_record(kinds, rest, limits).2,
        ),
    decreases kinds.len(),
{
    if kinds.len() > 0 {
        assert(scalar_field_kinds(kinds).drop_first() =~= scalar_field_kinds(kinds.drop_first()));
        if let Ok((v, n)) = read_scalar_field(kinds[0], rest, limits) {
            lemma_scalar_message_is_record(kinds.drop_first(), rest.skip(n), limits);
            let vs = read_record(kinds.drop_first(), rest.skip(n), limits).0;
            assert(scalar_fields(seq![v] + vs) =~= seq![Field::One(v)] + scalar_fields(vs));
        } else {
            assert(scalar_fields(Seq::<Scalar>::empty()) =~= Seq::<Field>::empty());
        }
    } else {
        assert(scalar_fields(Seq::<Scalar>::empty()) =~= Seq::<Field>::empty());
    }
}

// ---------------------------------------------------------------------------
// Reading one field at a time
// ---------------------------------------------------------------------------

/// Reads a `u32` field: `0` when the field is absent.
pub fn read_u32_field(reader: &mut Reader<'_>) -> (r: Result<u32, DecodeError>)
    ensures
        match read_scalar_field(ScalarKind::U32, old(reader).rest(), old(reader).limits_spec()) {
            Ok((v, n)) => r matches Ok(x) && v == Scalar::U32(x) && old(reader).advanced(final(reader), n),
            Err(e) => r == Err::<u32, DecodeError>(e) && old(reader).unchanged(final(reader)),
        },
{
    if reader.field_absent() {
        proof {
            assert(old(reader).rest().skip(0) =~= old(reader).rest());
        }
        Ok(0)
    } else {
        reader.read_u32()
    }
}

/// Reads a `string` field: empty when the field is absent.
pub fn read_text_field(reader: &mut Reader<'_>) -> (r: Result<String, DecodeError>)
    ensures
        match read_scalar_field(ScalarKind::Text, old(reader).rest(), old(reader).limits_spec()) {
            Ok((v, n)) => r matches Ok(s) && v == Scalar::Text(s@) && old(reader).advanced(final(reader), n),
            Err(e) => r == Err::<String, DecodeError>(e) && old(reader).unchanged(final(reader)),
        },
{
    if reader.field_absent() {
        proof {
            assert(old(reader).rest().skip(0) =~= old(reader).rest());
        }
        Ok(String::new())
    } else {
        reader.read_string()
    }
}

/// Reads a `bytes` field: empty when the field is absent.
pub fn read_blob_field(reader: &mut Reader<'_>) -> (r: Result<Vec<u8>, DecodeError>)
    ensures
        match read_scalar_field(ScalarKind::Blob, old(reader).rest(), old(reader).limits_spec()) {
            Ok((v, n)) => r matches Ok(b) && v == Scalar::Blob(b@) && old(reader).advanced(final(reader), n),
            Err(e) => r == Err::<Vec<u8>, DecodeError>(e) && old(reader).unchanged(final(reader)),
        },
{
    if reader.field_absent() {
        proof {
            assert(old(reader).rest().skip(0) =~= old(reader).rest());
        }
        Ok(Vec::new())
    } else {
        reader.read_bytes()
    }
}

/// Reads an array's element count: `0` when the field is absent.
pub fn read_count_field(reader: &mut Reader<'_>) -> (r: Result<usize, DecodeError>)
    ensures
        old(reader).rest().len() == 0 ==> r == Ok::<usize, DecodeError>(0) && old(reader).unchanged(final(reader)),
        old(reader).rest().len() != 0 ==> match read_count_spec(old(reader).rest(), old(reader).limits_spec()) {
            Ok((c, n)) => r == Ok::<usize, DecodeError>(c) && old(reader).advanced(final(reader), n),
            Err(e) => r == Err::<usize, DecodeError>(e) && old(reader).unchanged(final(reader)),
        },
{
    if reader.field_absent() {
        Ok(0)
    } else {
        reader.read_array_count()
    }
}

/// A decode that has read `done` and used `used` bytes, followed by `tail`.
pub open spec fn then(done: Seq<Field>, used: int, tail: (Seq<Field>, int, Option<DecodeError>)) -> (
    Seq<Field>,
    int,
    Option<DecodeError>,
) {
    (done + tail.0, used + tail.1, tail.2)
}

/// Decoding a message from its `i`-th field on: that field, then the rest.
pub proof fn lemma_fields_step(kinds: Seq<FieldKind>, i: int, rest: Seq<u8>, limits: Limits)
    requires
        0 <= i < kinds.len(),
    ensures
        kinds.skip(0) == kinds,
        read_fields(kinds.skip(i), rest, limits) == ({
            let (f, n, err) = read_field(kinds[i], rest, limits);
            match err {
                Some(e) => (Seq::<Field>::empty(), n, Some(e)),
                None => then(seq![f], n, read_fields(kinds.skip(i + 1), rest.skip(n), limits)),
            }
        }),
        i + 1 == kinds.len() ==> read_fields(kinds.skip(i + 1), rest.skip(read_field(kinds[i], rest, limits).1), limits)
            == (Seq::<Field>::empty(), 0int, None::<DecodeError>),
{
    assert(kinds.skip(0) =~= kinds);
    assert(kinds.skip(i).drop_first() =~= kinds.skip(i + 1));
    assert(kinds.skip(i)[0] == kinds[i]);
    if i + 1 == kinds.len() {
        assert(kinds.skip(i + 1) =~= Seq::<FieldKind>::empty());
    }
}

/// Where a field-by-field decode of a message stands: `now` is `start` with
/// `used` bytes read, the first `i` fields read are `done`, and the decode
/// of the whole message is those followed by the decode of the rest.
pub open spec fn progress(
    kinds: Seq<FieldKind>,
    start: Reader<'_>,
    now: Reader<'_>,
    i: int,
    done: Seq<Field>,
    used: int,
) -> bool {
    &&& 0 <= i <= kinds.len()
    &&& done.len() == i
    &&& start.advanced(&now, used)
    &&& read_fields(kinds, start.rest(), start.limits_spec()) == then(
        done,
        used,
        read_fields(kinds.skip(i), now.rest(), start.limits_spec()),
    )
}

/// A decode starts with nothing read.
pub proof fn lemma_progress_start(kinds: Seq<FieldKind>, start: Reader<'_>)
    ensures
        progress(kinds, start, start, 0, Seq::empty(), 0),
{
    assert(kinds.skip(0) =~= kinds);
    assert(start.rest().skip(0) =~= start.rest());
    let r = read_fields(kinds, start.rest(), start.limits_spec());
    assert(Seq::<Field>::empty() + r.0 =~= r.0);
}

/// A decode that has read every field is done.
pub proof fn lemma_progress_done(
    kinds: Seq<FieldKind>,
    start: Reader<'_>,
    now: Reader<'_>,
    done: Seq<Field>,
    used: int,
)
    requires
        progress(kinds, start, now, kinds.len() as int, done, used),
    ensures
        read_fields(kinds, start.rest(), start.limits_spec()) == (done, used, None::<DecodeError>),
{
    assert(kinds.skip(kinds.len() as int) =~= Seq::<FieldKind>::empty());
    assert(done + Seq::<Field>::empty() =~= done);
}

/// One more field read in a field-by-field decode, or the error it met.
pub proof fn lemma_progress_field(
    kinds: Seq<FieldKind>,
    start: Reader<'_>,
    before: Reader<'_>,
    after: Reader<'_>,
    i: int,
    done: Seq<Field>,
    used: int,
)
    requires
        progress(kinds, start, before, i, done, used),
        i < kinds.len(),
    ensures
        ({
            let (f, n, err) = read_field(kinds[i], before.rest(), start.limits_spec());
            &&& err is None && before.advanced(&after, n) ==> progress(
                kinds,
                start,
                after,
                i + 1,
                done.push(f),
                used + n,
            )
            &&& err matches Some(e) ==> read_fields(kinds, start.rest(), start.limits_spec()) == (
                done,
                used + n,
                Some(e),
            )
        }),
{
    lemma_fields_step(kinds, i, before.rest(), start.limits_spec());
    let (f, n, err) = read_field(kinds[i], before.rest(), start.limits_spec());
    let tail = read_fields(kinds.skip(i + 1), before.rest().skip(n), start.limits_spec());
    assert(done + (seq![f] + tail.0) =~= done.push(f) + tail.0);
    assert(done + Seq::<Field>::empty() =~= done);
    lemma_read_field_used(kinds[i], before.rest(), start.limits_spec());
    assert(start.rest().skip(used).skip(n) =~= start.rest().skip(used + n));
}

/// The bytes of a message of scalar fields are the bytes of those scalars as a record.
pub proof fn lemma_scalar_message_wire(values: Seq<Scalar>)
    ensures
        message_wire(scalar_fields(values)) == record_wire(values),
    decreases values.len(),
{
    if values.len() > 0 {
        assert(scalar_fields(values).drop_first() =~= scalar_fields(values.drop_first()));
        lemma_scalar_message_wire(values.drop_first());
    } else {
        assert(scalar_fields(values) =~= Seq::<Field>::empty());
    }
}

/// A record that fits its kinds is a message of scalar fields that fits them.
pub proof fn lemma_scalar_message_fits(values: Seq<Scalar>, kinds: Seq<ScalarKind>, limits: Limits)
    requires
        record_fits(values, kinds, limits),
    ensures
        fields_fit(scalar_fields(values), scalar_field_kinds(kinds), limits),
{
    assert forall|i: int| 0 <= i < scalar_fields(values).len() implies field_fits(
        #[trigger] scalar_fields(values)[i],
        scalar_field_kinds(kinds)[i],
        limits,
    ) by {
        assert(scalar_fits(values[i], kinds[i], limits));
    }
}

/// The bytes of a run of records with one more record at its end.
pub proof fn lemma_records_wire_push(records: Seq<Seq<Scalar>>, record: Seq<Scalar>)
    ensures
        records_wire(records.push(record)) == records_wire(records) + record_wire(record),
    decreases records.len(),
{
    if records.len() == 0 {
        assert(records.push(record).drop_first() =~= Seq::<Seq<Scalar>>::empty());
        assert(records_wire(records.push(record).drop_first()) == Seq::<u8>::empty());
        assert(records_wire(records.push(record)) =~= records_wire(records) + record_wire(record));
    } else {
        assert(records.push(record).drop_first() =~= records.drop_first().push(record));
        assert(records.push(record)[0] == records[0]);
        lemma_records_wire_push(records.drop_first(), record);
        assert(records_wire(records.push(record)) == record_wire(records[0]) + records_wire(
            records.drop_first().push(record),
        ));
        assert(records_wire(records.push(record)) =~= records_wire(records) + record_wire(record));
    }
}

/// A run of record decodes that has produced `done` and used `used` bytes,
/// followed by `tail`.
pub open spec fn then_records(
    done: Seq<Seq<Scalar>>,
    used: int,
    tail: (Seq<Seq<Scalar>>, int, Option<DecodeError>),
) -> (Seq<Seq<Scalar>>, int, Option<DecodeError>) {
    (done + tail.0, used + tail.1, tail.2)
}

/// One more record read in a run of record decodes, or the error it met.
pub proof fn lemma_records_step(
    kinds: Seq<ScalarKind>,
    count: nat,
    rest: Seq<u8>,
    limits: Limits,
    done: Seq<Seq<Scalar>>,
    used: int,
)
    requires
        count > 0,
    ensures
        ({
            let (vs, n, err) = read_record(kinds, rest, limits);
            &&& err is None ==> then_records(done, used, read_records(kinds, count, rest, limits))
                == then_records(done.push(vs), used + n, read_records(kinds, (count - 1) as nat, rest.skip(n), limits))
            &&& err matches Some(e) ==> then_records(done, used, read_records(kinds, count, rest, limits))
                == (done, used + n, Some(e))
            &&& 0 <= n <= rest.len()
        }),
{
    lemma_read_record_used(kinds, rest, limits);
    let (vs, n, err) = read_record(kinds, rest, limits);
    let tail = read_records(kinds, (count - 1) as nat, rest.skip(n), limits);
    assert(done + (seq![vs] + tail.0) =~= done.push(vs) + tail.0);
    assert(done + Seq::<Seq<Scalar>>::empty() =~= done);
}

/// The text of field `i`, or empty when that field is not a text.
pub open spec fn text_at(fields: Seq<Field>, i: int) -> Seq<char> {
    match fields[i] {
        Field::One(Scalar::Text(t)) => t,
        _ => Seq::empty(),
    }
}

/// The `u32` of field `i`, or `0` when that field is not a `u32`.
pub open spec fn u32_at(fields: Seq<Field>, i: int) -> u32 {
    match fields[i] {
        Field::One(Scalar::U32(v)) => v,
        _ => 0,
    }
}

/// The bytes of field `i`, or empty when that field is not a blob.
pub open spec fn blob_at(fields: Seq<Field>, i: int) -> Seq<u8> {
    match fields[i] {
        Field::One(Scalar::Blob(b)) => b,
        _ => Seq::empty(),
    }
}

/// The records of field `i`, or none when that field is not an array.
pub open spec fn records_at(fields: Seq<Field>, i: int) -> Seq<Seq<Scalar>> {
    match fields[i] {
        Field::Records(rs) => rs,
        _ => Seq::empty(),
    }
}

/// The bytes of a message with one text field.
pub open spec fn text_message(text: Seq<char>) -> Seq<u8> {
    message_wire(seq![Field::One(Scalar::Text(text))])
}

/// The bytes of a message with one `u32` field.
pub open spec fn u32_message(value: u32) -> Seq<u8> {
    message_wire(seq![Field::One(Scalar::U32(value))])
}

} // verus!
