//! What holds across the codec and the command line, over every input.
use vstd::prelude::*;
use crate::cli::read_options;
use crate::handlers::{counter_run, counter_step};
use crate::message::{
    blob_at, decoded, defaults, fields_fit, lemma_message_older_writer, lemma_message_roundtrip,
    message_wire, text_at, text_message, u32_at, u32_message, Field, FieldKind, Scalar, ScalarKind,
};
use crate::wire::{fits_u32, Limits};
use vstd::utf8::encode_utf8;

verus! {

/// A message reads back as exactly the values written: decoding the bytes
/// of fields that fit the reader's limits gives those fields.
pub proof fn law_decode_encode(values: Seq<Field>, kinds: Seq<FieldKind>, limits: Limits)
    requires
        fields_fit(values, kinds, limits),
    ensures
        decoded(kinds, message_wire(values), limits) == values,
{
    lemma_message_roundtrip(values, kinds, Seq::empty(), limits);
    assert(message_wire(values) + Seq::<u8>::empty() =~= message_wire(values));
    assert(defaults(kinds).skip(values.len() as int) =~= Seq::<Field>::empty());
    assert(values + Seq::<Field>::empty() =~= values);
}

/// A reader ignores whatever a newer writer appended after the fields it
/// knows: the message still reads back as the values written.
pub proof fn law_newer_writer(values: Seq<Field>, kinds: Seq<FieldKind>, appended: Seq<u8>, limits: Limits)
    requires
        fields_fit(values, kinds, limits),
    ensures
        decoded(kinds, message_wire(values) + appended, limits) == values,
{
    lemma_message_roundtrip(values, kinds, appended, limits);
    assert(defaults(kinds).skip(values.len() as int) =~= Seq::<Field>::empty());
    assert(values + Seq::<Field>::empty() =~= values);
}

/// A reader given the message of an older writer, which knows only its
/// first fields, reads those values and the zero value of every later field.
pub proof fn law_older_writer(values: Seq<Field>, kinds: Seq<FieldKind>, limits: Limits)
    requires
        values.len() <= kinds.len(),
        fields_fit(values, kinds.take(values.len() as int), limits),
    ensures
        decoded(kinds, message_wire(values), limits) == values + defaults(kinds.skip(values.len() as int)),
{
    lemma_message_older_writer(values, kinds, limits);
    let fs = values + defaults(kinds.skip(values.len() as int));
    assert(fs.len() == kinds.len());
    assert(defaults(kinds).skip(fs.len() as int) =~= Seq::<Field>::empty());
    assert(fs + Seq::<Field>::empty() =~= fs);
}

/// The text a message of one text field carries reads back unchanged.
pub proof fn law_text_roundtrip(text: Seq<char>)
    requires
        fits_u32(encode_utf8(text).len()),
    ensures
        text_at(decoded(seq![FieldKind::One(ScalarKind::Text)], text_message(text), Limits::spec_unlimited()), 0)
            == text,
{
    let values = seq![Field::One(Scalar::Text(text))];
    let kinds = seq![FieldKind::One(ScalarKind::Text)];
    assert(fields_fit(values, kinds, Limits::spec_unlimited()));
    law_decode_encode(values, kinds, Limits::spec_unlimited());
}

/// A blob of any length that a `u32` prefix can give reads back whole under
/// the reader's default limits.
pub proof fn law_blob_roundtrip(bytes: Seq<u8>)
    requires
        fits_u32(bytes.len()),
    ensures
        blob_at(
            decoded(seq![FieldKind::One(ScalarKind::Blob)], message_wire(seq![Field::One(Scalar::Blob(bytes))]), Limits::spec_unlimited()),
            0,
        ) == bytes,
{
    let values = seq![Field::One(Scalar::Blob(bytes))];
    let kinds = seq![FieldKind::One(ScalarKind::Blob)];
    assert(fields_fit(values, kinds, Limits::spec_unlimited()));
    law_decode_encode(values, kinds, Limits::spec_unlimited());
}

/// The reader's default limits let through every length that a `u32`
/// prefix can give: any message whose strings, blobs and repeated fields
/// fit those bounds reads back as the values written.
pub proof fn law_default_limits_read_every_message(values: Seq<Field>, kinds: Seq<FieldKind>)
    requires
        fields_fit(
            values,
            kinds,
            (Limits { max_string_len: 0xFFFF_FFFF, max_bytes_len: 0xFFFF_FFFF, max_array_count: 0xFFFF_FFFF }),
        ),
    ensures
        decoded(kinds, message_wire(values), Limits::spec_unlimited()) == values,
{
    assert(Limits::spec_unlimited()
        == (Limits { max_string_len: 0xFFFF_FFFF, max_bytes_len: 0xFFFF_FFFF, max_array_count: 0xFFFF_FFFF }));
    law_decode_encode(values, kinds, Limits::spec_unlimited());
}

/// The `u32` a message of one `u32` field carries reads back unchanged.
pub proof fn law_u32_roundtrip(value: u32)
    ensures
        u32_at(decoded(seq![FieldKind::One(ScalarKind::U32)], u32_message(value), Limits::spec_unlimited()), 0)
            == value,
{
    let values = seq![Field::One(Scalar::U32(value))];
    let kinds = seq![FieldKind::One(ScalarKind::U32)];
    assert(fields_fit(values, kinds, Limits::spec_unlimited()));
    law_decode_encode(values, kinds, Limits::spec_unlimited());
}

/// The Player peer's transport is the one it starts with, `tcp` when it
/// reads its command line, unless `--transport` is given: options that
/// never name `--transport` leave it as it was.
pub proof fn law_transport_unchanged_unless_given(
    args: Seq<Seq<char>>,
    role: Option<Seq<char>>,
    addr: Option<Seq<char>>,
    transport: Seq<char>,
)
    requires
        forall|i: int| 0 <= i < args.len() ==> args[i] != "--transport"@,
    ensures
        read_options(args, role, addr, transport) matches Ok((_, _, t)) ==> t == transport,
    decreases args.len(),
{
    if args.len() > 0 {
        let rest = if args.len() >= 2 { args.skip(2) } else { Seq::empty() };
        assert forall|i: int| 0 <= i < rest.len() implies rest[i] != "--transport"@ by {
            assert(rest[i] == args[i + 2]);
        }
        if args[0] == "--role"@ {
            law_transport_unchanged_unless_given(rest, if args.len() >= 2 { Some(args[1]) } else { None }, addr, transport);
        } else if args[0] == "--addr"@ {
            law_transport_unchanged_unless_given(rest, role, if args.len() >= 2 { Some(args[1]) } else { None }, transport);
        }
    }
}

/// A counter polled until it ends sends every value after the one it
/// stands at, up to its count, in order, and then the end.
pub proof fn law_counter_counts_up(next: u32, count: u32)
    requires
        next <= count,
    ensures
        counter_run(next, count, (count - next + 1) as nat)
            == Seq::new((count - next) as nat, |i: int| Some((next + i + 1) as u32)).push(None::<u32>),
    decreases count - next,
{
    if next == count {
        assert(counter_step(next, count) == (None::<u32>, next));
        assert(counter_run(next, count, 0) == Seq::<Option<u32>>::empty());
        assert(counter_run(next, count, 1) =~= seq![None::<u32>]);
        assert(Seq::new(0, |i: int| Some((next + i + 1) as u32)).push(None::<u32>) =~= seq![None::<u32>]);
    } else {
        let after = (next + 1) as u32;
        law_counter_counts_up(after, count);
        assert(counter_step(next, count) == (Some(after), after));
        assert(counter_run(next, count, (count - next + 1) as nat)
            == seq![Some(after)] + counter_run(after, count, (count - after + 1) as nat));
        assert(seq![Some(after)] + Seq::new((count - after) as nat, |i: int| Some((after + i + 1) as u32)).push(None::<u32>)
            =~= Seq::new((count - next) as nat, |i: int| Some((next + i + 1) as u32)).push(None::<u32>));
    }
}

} // verus!
