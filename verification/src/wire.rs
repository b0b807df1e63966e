//! The Fomoxa runtime: the byte-level `Writer` and `Reader` every codec of this
//! project is built from, with their wire format stated as spec functions.
//!
//! Every multi-byte value is Little Endian, with no padding and no metadata
//! between values. A `string` is a `u32` UTF-8 byte length followed by those
//! bytes; a `bytes` blob is a `u32` length followed by the raw bytes; an array
//! is a `u32` element count followed by its elements.
use vstd::prelude::*;
use vstd::bytes::{
    spec_u16_from_le_bytes, spec_u16_to_le_bytes, spec_u32_from_le_bytes, spec_u32_to_le_bytes,
    spec_u64_from_le_bytes, spec_u64_to_le_bytes, u16_from_le_bytes, u16_to_le_bytes, u32_from_le_bytes,
    u32_to_le_bytes, u64_from_le_bytes, u64_to_le_bytes,
};
use vstd::slice::slice_subrange;
use vstd::utf8::{decode_utf8, encode_utf8, valid_utf8};

verus! {

broadcast use vstd::utf8::encode_utf8_valid_utf8, vstd::utf8::encode_utf8_decode_utf8;

/// A byte stream that does not satisfy the Fomoxa wire format.
#[derive(Debug, Clone, Copy, PartialEq, Eq)]
pub enum DecodeError {
    /// Fewer bytes remain than a value needs, after its read had begun.
    UnexpectedEof { needed: usize, remaining: usize },
    /// A `bool` byte that is neither `0x00` nor `0x01`.
    InvalidBool(u8),
    /// A `string` region that is not valid UTF-8.
    InvalidUtf8,
    /// A length prefix beyond the configured limit.
    LengthOverflow { length: usize, limit: usize },
}

/// Allocation guards applied while decoding. They are not part of the wire
/// format: two readers with different limits may disagree about one stream.
#[derive(Debug, Clone, Copy, PartialEq, Eq)]
pub struct Limits {
    /// Largest accepted UTF-8 byte length of a `string`.
    pub max_string_len: usize,
    /// Largest accepted byte length of a `bytes` blob.
    pub max_bytes_len: usize,
    /// Largest accepted element count of an array.
    pub max_array_count: usize,
}

impl Limits {
    /// The permissive limits: `u32::MAX` for every length.
    pub open spec fn spec_unlimited() -> Limits {
        Limits {
            max_string_len: u32::MAX as usize,
            max_bytes_len: u32::MAX as usize,
            max_array_count: u32::MAX as usize,
        }
    }

    /// The permissive limits: `u32::MAX` for every length.
    pub fn unlimited() -> (limits: Limits)
        ensures
            limits == Limits::spec_unlimited(),
    {
        Limits {
            max_string_len: u32::MAX as usize,
            max_bytes_len: u32::MAX as usize,
            max_array_count: u32::MAX as usize,
        }
    }
}

impl Default for Limits {
    fn default() -> (limits: Limits)
        ensures
            limits == Limits::spec_unlimited(),
    {
        Limits::unlimited()
    }
}

// ---------------------------------------------------------------------------
// The encoding of each wire type
// ---------------------------------------------------------------------------

/// A `u32` on the wire: 4 bytes, Little Endian.
pub open spec fn u32_wire(value: u32) -> Seq<u8> {
    spec_u32_to_le_bytes(value)
}

/// A `bool` on the wire: one byte, `0x01` for true and `0x00` for false.
pub open spec fn bool_wire(value: bool) -> Seq<u8> {
    seq![if value { 1u8 } else { 0u8 }]
}

/// A `u8` on the wire: the byte itself.
pub open spec fn u8_wire(value: u8) -> Seq<u8> {
    seq![value]
}

/// A `u16` on the wire: 2 bytes, Little Endian.
pub open spec fn u16_wire(value: u16) -> Seq<u8> {
    spec_u16_to_le_bytes(value)
}

/// A `u64` on the wire: 8 bytes, Little Endian.
pub open spec fn u64_wire(value: u64) -> Seq<u8> {
    spec_u64_to_le_bytes(value)
}

/// A length prefix on the wire: the length as a `u32`.
pub open spec fn len_wire(len: nat) -> Seq<u8> {
    u32_wire(len as u32)
}

/// A `bytes` blob on the wire: its length, then the bytes themselves.
pub open spec fn blob_wire(blob: Seq<u8>) -> Seq<u8> {
    len_wire(blob.len()) + blob
}

/// A `string` on the wire: its UTF-8 byte length, then those bytes.
pub open spec fn text_wire(text: Seq<char>) -> Seq<u8> {
    blob_wire(encode_utf8(text))
}

/// Whether a length can be written as a `u32` prefix at all.
pub open spec fn fits_u32(len: nat) -> bool {
    len <= u32::MAX
}

// ---------------------------------------------------------------------------
// The decoding of each wire type, from the bytes left in a stream
// ---------------------------------------------------------------------------

/// Reads a `u32` from the front of `rest`: the value and the bytes used.
pub open spec fn read_u32_spec(rest: Seq<u8>) -> Result<(u32, int), DecodeError> {
    if rest.len() < 4 {
        Err(DecodeError::UnexpectedEof { needed: 4, remaining: rest.len() as usize })
    } else {
        Ok((spec_u32_from_le_bytes(rest.take(4)), 4))
    }
}

/// Reads `n` bytes from the front of `rest`.
pub open spec fn read_fixed_spec(rest: Seq<u8>, n: usize) -> Result<Seq<u8>, DecodeError> {
    if rest.len() < n {
        Err(DecodeError::UnexpectedEof { needed: n, remaining: rest.len() as usize })
    } else {
        Ok(rest.take(n as int))
    }
}

/// Reads a `u8` from the front of `rest`: the value and the bytes used.
pub open spec fn read_u8_spec(rest: Seq<u8>) -> Result<(u8, int), DecodeError> {
    match read_fixed_spec(rest, 1) {
        Ok(bytes) => Ok((bytes[0], 1)),
        Err(e) => Err(e),
    }
}

/// Reads a `bool` from the front of `rest`: only `0x00` and `0x01` are
/// booleans.
pub open spec fn read_bool_spec(rest: Seq<u8>) -> Result<(bool, int), DecodeError> {
    match read_u8_spec(rest) {
        Ok((byte, used)) => if byte == 0 {
            Ok((false, used))
        } else if byte == 1 {
            Ok((true, used))
        } else {
            Err(DecodeError::InvalidBool(byte))
        },
        Err(e) => Err(e),
    }
}

/// Reads a `u16` from the front of `rest`: the value and the bytes used.
pub open spec fn read_u16_spec(rest: Seq<u8>) -> Result<(u16, int), DecodeError> {
    match read_fixed_spec(rest, 2) {
        Ok(bytes) => Ok((spec_u16_from_le_bytes(bytes), 2)),
        Err(e) => Err(e),
    }
}

/// Reads a `u64` from the front of `rest`: the value and the bytes used.
pub open spec fn read_u64_spec(rest: Seq<u8>) -> Result<(u64, int), DecodeError> {
    match read_fixed_spec(rest, 8) {
        Ok(bytes) => Ok((spec_u64_from_le_bytes(bytes), 8)),
        Err(e) => Err(e),
    }
}

/// Reads a length prefix and holds it to `limit`.
pub open spec fn read_len_spec(rest: Seq<u8>, limit: usize) -> Result<(usize, int), DecodeError> {
    match read_u32_spec(rest) {
        Err(e) => Err(e),
        Ok((len, used)) => if len as usize > limit {
            Err(DecodeError::LengthOverflow { length: len as usize, limit })
        } else {
            Ok((len as usize, used))
        },
    }
}

/// Reads a length-prefixed region: its bytes and the bytes used in all.
pub open spec fn read_region_spec(rest: Seq<u8>, limit: usize) -> Result<(Seq<u8>, int), DecodeError> {
    match read_len_spec(rest, limit) {
        Err(e) => Err(e),
        Ok((len, used)) => if len > rest.len() - used {
            Err(DecodeError::UnexpectedEof { needed: len, remaining: (rest.len() - used) as usize })
        } else {
            Ok((rest.subrange(used, used + len), used + len))
        },
    }
}

/// Reads a `bytes` blob under `limits`.
pub open spec fn read_blob_spec(rest: Seq<u8>, limits: Limits) -> Result<(Seq<u8>, int), DecodeError> {
    read_region_spec(rest, limits.max_bytes_len)
}

/// Reads a `string` under `limits`: the region must be valid UTF-8.
pub open spec fn read_text_spec(rest: Seq<u8>, limits: Limits) -> Result<(Seq<char>, int), DecodeError> {
    match read_region_spec(rest, limits.max_string_len) {
        Err(e) => Err(e),
        Ok((bytes, used)) => if valid_utf8(bytes) {
            Ok((decode_utf8(bytes), used))
        } else {
            Err(DecodeError::InvalidUtf8)
        },
    }
}

/// Reads an array's element count under `limits`.
pub open spec fn read_count_spec(rest: Seq<u8>, limits: Limits) -> Result<(usize, int), DecodeError> {
    read_len_spec(rest, limits.max_array_count)
}

/// A read of a `u32` that succeeds on the bytes of one gives that value back.
pub proof fn lemma_u32_roundtrip(value: u32, extra: Seq<u8>)
    ensures
        read_u32_spec(u32_wire(value) + extra) == Ok::<(u32, int), DecodeError>((value, 4)),
        u32_wire(value).len() == 4,
{
    vstd::bytes::lemma_auto_spec_u32_to_from_le_bytes();
    assert((u32_wire(value) + extra).take(4) =~= u32_wire(value));
}

/// A `bool`, a `u8`, a `u16` and a `u64` each read back as the value
/// written, whatever follows it.
pub proof fn lemma_small_roundtrips(flag: bool, byte: u8, short: u16, long: u64, extra: Seq<u8>)
    ensures
        read_bool_spec(bool_wire(flag) + extra) == Ok::<(bool, int), DecodeError>((flag, 1)),
        read_u8_spec(u8_wire(byte) + extra) == Ok::<(u8, int), DecodeError>((byte, 1)),
        read_u16_spec(u16_wire(short) + extra) == Ok::<(u16, int), DecodeError>((short, 2)),
        read_u64_spec(u64_wire(long) + extra) == Ok::<(u64, int), DecodeError>((long, 8)),
{
    vstd::bytes::lemma_auto_spec_u16_to_from_le_bytes();
    vstd::bytes::lemma_auto_spec_u64_to_from_le_bytes();
    assert((bool_wire(flag) + extra).take(1) =~= bool_wire(flag));
    assert((u8_wire(byte) + extra).take(1) =~= u8_wire(byte));
    assert((u16_wire(short) + extra).take(2) =~= u16_wire(short));
    assert((u64_wire(long) + extra).take(8) =~= u64_wire(long));
}

/// A length-prefixed region reads back whole, whatever follows it.
pub proof fn lemma_region_roundtrip(bytes: Seq<u8>, extra: Seq<u8>, limit: usize)
    requires
        bytes.len() <= limit,
        fits_u32(bytes.len()),
    ensures
        read_region_spec(blob_wire(bytes) + extra, limit)
            == Ok::<(Seq<u8>, int), DecodeError>((bytes, 4 + bytes.len() as int)),
        blob_wire(bytes).len() == 4 + bytes.len(),
{
    lemma_u32_roundtrip(bytes.len() as u32, bytes + extra);
    assert(blob_wire(bytes) + extra =~= u32_wire(bytes.len() as u32) + (bytes + extra));
    let s = blob_wire(bytes) + extra;
    assert(s.subrange(4, 4 + bytes.len() as int) =~= bytes);
}

/// A `string` reads back as the same text, whatever follows it.
pub proof fn lemma_text_roundtrip(text: Seq<char>, extra: Seq<u8>, limits: Limits)
    requires
        encode_utf8(text).len() <= limits.max_string_len,
        fits_u32(encode_utf8(text).len()),
    ensures
        read_text_spec(text_wire(text) + extra, limits)
            == Ok::<(Seq<char>, int), DecodeError>((text, text_wire(text).len() as int)),
{
    lemma_region_roundtrip(encode_utf8(text), extra, limits.max_string_len);
}

/// A `bytes` blob reads back as the same bytes, whatever follows it.
pub proof fn lemma_blob_roundtrip(blob: Seq<u8>, extra: Seq<u8>, limits: Limits)
    requires
        blob.len() <= limits.max_bytes_len,
        fits_u32(blob.len()),
    ensures
        read_blob_spec(blob_wire(blob) + extra, limits)
            == Ok::<(Seq<u8>, int), DecodeError>((blob, blob_wire(blob).len() as int)),
{
    lemma_region_roundtrip(blob, extra, limits.max_bytes_len);
}

/// An array count reads back as the same count, whatever follows it.
pub proof fn lemma_count_roundtrip(count: nat, extra: Seq<u8>, limits: Limits)
    requires
        count <= limits.max_array_count,
        fits_u32(count),
    ensures
        read_count_spec(len_wire(count) + extra, limits)
            == Ok::<(usize, int), DecodeError>((count as usize, 4)),
        len_wire(count).len() == 4,
{
    lemma_u32_roundtrip(count as u32, extra);
}

// ---------------------------------------------------------------------------
// Writer
// ---------------------------------------------------------------------------

/// Appends Fomoxa-encoded values to a growable buffer.
#[derive(Debug, Clone, Default)]
pub struct Writer {
    buf: Vec<u8>,
}

impl View for Writer {
    type V = Seq<u8>;

    closed spec fn view(&self) -> Seq<u8> {
        self.buf@
    }
}

impl Writer {
    /// Creates an empty writer.
    pub fn new() -> (writer: Writer)
        ensures
            writer@ == Seq::<u8>::empty(),
    {
        Writer { buf: Vec::new() }
    }

    /// Creates an empty writer with room for `capacity` bytes.
    pub fn with_capacity(capacity: usize) -> (writer: Writer)
        ensures
            writer@ == Seq::<u8>::empty(),
    {
        Writer { buf: Vec::with_capacity(capacity) }
    }

    /// The bytes written so far.
    pub fn as_slice(&self) -> (bytes: &[u8])
        ensures
            bytes@ == self@,
    {
        self.buf.as_slice()
    }

    /// Consumes the writer and returns the bytes.
    pub fn into_bytes(self) -> (bytes: Vec<u8>)
        ensures
            bytes@ == self@,
    {
        self.buf
    }

    /// The number of bytes written so far.
    pub fn len(&self) -> (len: usize)
        ensures
            len == self@.len(),
    {
        self.buf.len()
    }

    /// Whether nothing has been written yet.
    pub fn is_empty(&self) -> (empty: bool)
        ensures
            empty == (self@.len() == 0),
    {
        self.buf.len() == 0
    }

    /// Discards everything written.
    pub fn clear(&mut self)
        ensures
            final(self)@ == Seq::<u8>::empty(),
    {
        self.buf.clear();
    }

    /// Appends raw bytes.
    fn push_all(&mut self, bytes: &[u8])
        ensures
            final(self)@ == old(self)@ + bytes@,
    {
        let n = bytes.len();
        let mut i: usize = 0;
        while i < n
            invariant
                0 <= i <= n,
                n == bytes@.len(),
                self@ == old(self)@ + bytes@.take(i as int),
            decreases n - i,
        {
            self.buf.push(bytes[i]);
            assert(bytes@.take(i + 1) =~= bytes@.take(i as int).push(bytes@[i as int]));
            i = i + 1;
        }
        assert(bytes@.take(n as int) =~= bytes@);
    }

    /// Writes a `u32` as 4 bytes, Little Endian.
    pub fn write_u32(&mut self, value: u32)
        ensures
            final(self)@ == old(self)@ + u32_wire(value),
    {
        let bytes = u32_to_le_bytes(value);
        self.push_all(bytes.as_slice());
    }

    /// Writes a `bool` as 1 byte: `0x01` for true, `0x00` for false.
    pub fn write_bool(&mut self, value: bool)
        ensures
            final(self)@ == old(self)@ + bool_wire(value),
    {
        self.buf.push(if value { 1u8 } else { 0u8 });
        assert(final(self)@ =~= old(self)@ + bool_wire(value));
    }

    /// Writes an `i8` as 1 byte.
    pub fn write_i8(&mut self, value: i8)
        ensures
            final(self)@ == old(self)@ + u8_wire(value as u8),
    {
        self.write_u8(value as u8);
    }

    /// Writes a `u8` as 1 byte.
    pub fn write_u8(&mut self, value: u8)
        ensures
            final(self)@ == old(self)@ + u8_wire(value),
    {
        self.buf.push(value);
        assert(final(self)@ =~= old(self)@ + u8_wire(value));
    }

    /// Writes an `i16` as 2 bytes, Little Endian.
    pub fn write_i16(&mut self, value: i16)
        ensures
            final(self)@ == old(self)@ + u16_wire(value as u16),
    {
        self.write_u16(value as u16);
    }

    /// Writes a `u16` as 2 bytes, Little Endian.
    pub fn write_u16(&mut self, value: u16)
        ensures
            final(self)@ == old(self)@ + u16_wire(value),
    {
        let bytes = u16_to_le_bytes(value);
        self.push_all(bytes.as_slice());
    }

    /// Writes an `i32` as 4 bytes, Little Endian.
    pub fn write_i32(&mut self, value: i32)
        ensures
            final(self)@ == old(self)@ + u32_wire(value as u32),
    {
        self.write_u32(value as u32);
    }

    /// Writes an `i64` as 8 bytes, Little Endian.
    pub fn write_i64(&mut self, value: i64)
        ensures
            final(self)@ == old(self)@ + u64_wire(value as u64),
    {
        self.write_u64(value as u64);
    }

    /// Writes a `u64` as 8 bytes, Little Endian.
    pub fn write_u64(&mut self, value: u64)
        ensures
            final(self)@ == old(self)@ + u64_wire(value),
    {
        let bytes = u64_to_le_bytes(value);
        self.push_all(bytes.as_slice());
    }

    /// Writes a length prefix.
    fn write_len(&mut self, len: usize)
        requires
            fits_u32(len as nat),
        ensures
            final(self)@ == old(self)@ + len_wire(len as nat),
    {
        self.write_u32(len as u32);
    }

    /// Writes a `string` as its UTF-8 byte length, then those bytes.
    /// The wire format cannot hold a string longer than `u32::MAX` bytes.
    pub fn write_string(&mut self, value: &str)
        requires
            fits_u32(encode_utf8(value@).len()),
        ensures
            final(self)@ == old(self)@ + text_wire(value@),
    {
        let bytes = value.as_bytes();
        self.write_len(bytes.len());
        self.push_all(bytes);
        assert(final(self)@ =~= old(self)@ + text_wire(value@));
    }

    /// Writes a `bytes` blob as its length, then the raw bytes.
    /// The wire format cannot hold a blob longer than `u32::MAX` bytes.
    pub fn write_bytes(&mut self, value: &[u8])
        requires
            fits_u32(value@.len()),
        ensures
            final(self)@ == old(self)@ + blob_wire(value@),
    {
        self.write_len(value.len());
        self.push_all(value);
        assert(final(self)@ =~= old(self)@ + blob_wire(value@));
    }

    /// Writes an array's element count; the caller writes the elements after it.
    pub fn write_array_count(&mut self, count: usize)
        requires
            fits_u32(count as nat),
        ensures
            final(self)@ == old(self)@ + len_wire(count as nat),
    {
        self.write_len(count);
    }
}

// ---------------------------------------------------------------------------
// Reader
// ---------------------------------------------------------------------------

/// `core::str::from_utf8`: the slice as text when it is well-formed UTF-8,
/// and `None` when it is not. The contract claims that std's notion of
/// well-formed UTF-8 is vstd's `valid_utf8`, and that the text it hands back
/// is made of exactly the given bytes.
#[verifier::external_body]
fn str_from_utf8(bytes: &[u8]) -> (text: Option<&str>)
    ensures
        text is Some <==> valid_utf8(bytes@),
        text matches Some(t) ==> encode_utf8(t@) == bytes@,
{
    core::str::from_utf8(bytes).ok()
}

/// Reads Fomoxa-encoded values from a borrowed buffer. Malformed input is
/// always a `DecodeError`, and a failed read leaves the cursor where it was.
#[derive(Debug)]
pub struct Reader<'a> {
    buf: &'a [u8],
    pos: usize,
    limits: Limits,
}

impl<'a> Clone for Reader<'a> {
    /// Another reader over the same buffer, at the same place, with the
    /// same limits.
    fn clone(&self) -> (copy: Reader<'a>)
        ensures
            copy == *self,
    {
        proof {
            use_type_invariant(self);
        }
        Reader { buf: self.buf, pos: self.pos, limits: self.limits }
    }
}

impl<'a> Reader<'a> {
    #[verifier::type_invariant]
    spec fn cursor_in_bounds(self) -> bool {
        self.pos <= self.buf@.len()
    }

    /// Every byte of the buffer, read or not.
    pub closed spec fn data(&self) -> Seq<u8> {
        self.buf@
    }

    /// The bytes not read yet.
    pub closed spec fn rest(&self) -> Seq<u8> {
        self.buf@.skip(self.pos as int)
    }

    /// The cursor, in bytes from the start.
    pub closed spec fn offset(&self) -> int {
        self.pos as int
    }

    /// The limits this reader enforces.
    pub closed spec fn limits_spec(&self) -> Limits {
        self.limits
    }

    /// Whether `after` is `self` with its cursor `used` bytes further on.
    pub open spec fn advanced(&self, after: &Reader<'a>, used: int) -> bool {
        &&& 0 <= used <= self.rest().len()
        &&& after.rest() == self.rest().skip(used)
        &&& after.offset() == self.offset() + used
        &&& after.limits_spec() == self.limits_spec()
        &&& after.data() == self.data()
    }

    /// Whether `after` is `self` with its cursor where it was.
    pub open spec fn unchanged(&self, after: &Reader<'a>) -> bool {
        &&& after.rest() == self.rest()
        &&& after.offset() == self.offset()
        &&& after.limits_spec() == self.limits_spec()
        &&& after.data() == self.data()
    }

    /// Two advances of a cursor are one advance by both counts.
    pub proof fn lemma_advanced_trans(&self, mid: &Reader<'a>, last: &Reader<'a>, n: int, m: int)
        requires
            self.advanced(mid, n),
            mid.advanced(last, m),
        ensures
            self.advanced(last, n + m),
    {
        assert(self.rest().skip(n).skip(m) =~= self.rest().skip(n + m));
    }

    /// A cursor left where it was has advanced by nothing.
    pub proof fn lemma_unchanged_advanced(&self, after: &Reader<'a>)
        requires
            self.unchanged(after),
        ensures
            self.advanced(after, 0),
    {
        assert(self.rest().skip(0) =~= self.rest());
    }

    /// Creates a reader over `buf` with the permissive limits.
    pub fn new(buf: &'a [u8]) -> (reader: Reader<'a>)
        ensures
            reader.rest() == buf@,
            reader.data() == buf@,
            reader.offset() == 0,
            reader.limits_spec() == Limits::spec_unlimited(),
    {
        let reader = Reader { buf, pos: 0, limits: Limits::unlimited() };
        assert(buf@.skip(0) =~= buf@);
        reader
    }

    /// Creates a reader over `buf` with explicit allocation guards.
    pub fn with_limits(buf: &'a [u8], limits: Limits) -> (reader: Reader<'a>)
        ensures
            reader.rest() == buf@,
            reader.data() == buf@,
            reader.offset() == 0,
            reader.limits_spec() == limits,
    {
        let reader = Reader { buf, pos: 0, limits };
        assert(buf@.skip(0) =~= buf@);
        reader
    }

    /// The cursor position, in bytes from the start.
    pub fn position(&self) -> (pos: usize)
        ensures
            pos == self.offset(),
    {
        self.pos
    }

    /// The number of bytes left to read.
    pub fn remaining(&self) -> (n: usize)
        ensures
            n == self.rest().len(),
    {
        proof {
            use_type_invariant(self);
        }
        self.buf.len() - self.pos
    }

    /// Whether the cursor has reached the end.
    pub fn is_empty(&self) -> (empty: bool)
        ensures
            empty == (self.rest().len() == 0),
    {
        self.remaining() == 0
    }

    /// Whether the field about to be read is absent rather than truncated:
    /// nothing at all is left at this field boundary.
    pub fn field_absent(&self) -> (absent: bool)
        ensures
            absent == (self.rest().len() == 0),
    {
        self.remaining() == 0
    }

    /// The limits this reader enforces.
    pub fn limits(&self) -> (limits: Limits)
        ensures
            limits == self.limits_spec(),
    {
        self.limits
    }

    /// Borrows the next `len` bytes and advances the cursor.
    fn take(&mut self, len: usize) -> (r: Result<&'a [u8], DecodeError>)
        ensures
            len <= old(self).rest().len() ==> {
                &&& r matches Ok(bytes) && bytes@ == old(self).rest().take(len as int)
                &&& old(self).advanced(final(self), len as int)
            },
            len > old(self).rest().len() ==> {
                &&& r == Err::<&[u8], DecodeError>(
                    DecodeError::UnexpectedEof { needed: len, remaining: old(self).rest().len() as usize },
                )
                &&& old(self).unchanged(final(self))
            },
    {
        proof {
            use_type_invariant(&*self);
        }
        let remaining = self.buf.len() - self.pos;
        if len > remaining {
            return Err(DecodeError::UnexpectedEof { needed: len, remaining });
        }
        let bytes = slice_subrange(self.buf, self.pos, self.pos + len);
        let ghost old_rest = self.rest();
        self.pos = self.pos + len;
        assert(bytes@ =~= old_rest.take(len as int));
        assert(self.rest() =~= old_rest.skip(len as int));
        Ok(bytes)
    }

    /// Reads a `u8` from 1 byte.
    pub fn read_u8(&mut self) -> (r: Result<u8, DecodeError>)
        ensures
            match read_u8_spec(old(self).rest()) {
                Ok((value, used)) => r == Ok::<u8, DecodeError>(value) && old(self).advanced(final(self), used),
                Err(e) => r == Err::<u8, DecodeError>(e) && old(self).unchanged(final(self)),
            },
    {
        let bytes = self.take(1)?;
        Ok(bytes[0])
    }

    /// Reads an `i8` from 1 byte.
    pub fn read_i8(&mut self) -> (r: Result<i8, DecodeError>)
        ensures
            match read_u8_spec(old(self).rest()) {
                Ok((value, used)) => r == Ok::<i8, DecodeError>(value as i8) && old(self).advanced(final(self), used),
                Err(e) => r == Err::<i8, DecodeError>(e) && old(self).unchanged(final(self)),
            },
    {
        let byte = self.read_u8()?;
        Ok(byte as i8)
    }

    /// Reads a `bool` from 1 byte: any byte but `0x00` and `0x01` is
    /// refused, and leaves the reader where it was.
    pub fn read_bool(&mut self) -> (r: Result<bool, DecodeError>)
        ensures
            match read_bool_spec(old(self).rest()) {
                Ok((value, used)) => r == Ok::<bool, DecodeError>(value) && old(self).advanced(final(self), used),
                Err(e) => r == Err::<bool, DecodeError>(e) && old(self).unchanged(final(self)),
            },
    {
        proof {
            use_type_invariant(&*self);
        }
        let ghost before = *self;
        let start = self.pos;
        let byte = self.read_u8()?;
        if byte == 0 {
            Ok(false)
        } else if byte == 1 {
            Ok(true)
        } else {
            self.pos = start;
            assert(self.rest() =~= before.rest());
            Err(DecodeError::InvalidBool(byte))
        }
    }

    /// Reads a `u16` from 2 bytes, Little Endian.
    pub fn read_u16(&mut self) -> (r: Result<u16, DecodeError>)
        ensures
            match read_u16_spec(old(self).rest()) {
                Ok((value, used)) => r == Ok::<u16, DecodeError>(value) && old(self).advanced(final(self), used),
                Err(e) => r == Err::<u16, DecodeError>(e) && old(self).unchanged(final(self)),
            },
    {
        let bytes = self.take(2)?;
        Ok(u16_from_le_bytes(bytes))
    }

    /// Reads an `i16` from 2 bytes, Little Endian.
    pub fn read_i16(&mut self) -> (r: Result<i16, DecodeError>)
        ensures
            match read_u16_spec(old(self).rest()) {
                Ok((value, used)) => r == Ok::<i16, DecodeError>(value as i16) && old(self).advanced(final(self), used),
                Err(e) => r == Err::<i16, DecodeError>(e) && old(self).unchanged(final(self)),
            },
    {
        let value = self.read_u16()?;
        Ok(value as i16)
    }

    /// Reads an `i32` from 4 bytes, Little Endian.
    pub fn read_i32(&mut self) -> (r: Result<i32, DecodeError>)
        ensures
            match read_u32_spec(old(self).rest()) {
                Ok((value, used)) => r == Ok::<i32, DecodeError>(value as i32) && old(self).advanced(final(self), used),
                Err(e) => r == Err::<i32, DecodeError>(e) && old(self).unchanged(final(self)),
            },
    {
        let value = self.read_u32()?;
        Ok(value as i32)
    }

    /// Reads a `u64` from 8 bytes, Little Endian.
    pub fn read_u64(&mut self) -> (r: Result<u64, DecodeError>)
        ensures
            match read_u64_spec(old(self).rest()) {
                Ok((value, used)) => r == Ok::<u64, DecodeError>(value) && old(self).advanced(final(self), used),
                Err(e) => r == Err::<u64, DecodeError>(e) && old(self).unchanged(final(self)),
            },
    {
        let bytes = self.take(8)?;
        Ok(u64_from_le_bytes(bytes))
    }

    /// Reads an `i64` from 8 bytes, Little Endian.
    pub fn read_i64(&mut self) -> (r: Result<i64, DecodeError>)
        ensures
            match read_u64_spec(old(self).rest()) {
                Ok((value, used)) => r == Ok::<i64, DecodeError>(value as i64) && old(self).advanced(final(self), used),
                Err(e) => r == Err::<i64, DecodeError>(e) && old(self).unchanged(final(self)),
            },
    {
        let value = self.read_u64()?;
        Ok(value as i64)
    }

    /// Reads a `u32` from 4 bytes, Little Endian.
    pub fn read_u32(&mut self) -> (r: Result<u32, DecodeError>)
        ensures
            match read_u32_spec(old(self).rest()) {
                Ok((value, used)) => r == Ok::<u32, DecodeError>(value) && old(self).advanced(
                    final(self),
                    used,
                ),
                Err(e) => r == Err::<u32, DecodeError>(e) && old(self).unchanged(final(self)),
            },
    {
        let bytes = self.take(4)?;
        Ok(u32_from_le_bytes(bytes))
    }

    /// Reads a length prefix and holds it to `limit`.
    fn read_len(&mut self, limit: usize) -> (r: Result<usize, DecodeError>)
        ensures
            match read_len_spec(old(self).rest(), limit) {
                Ok((len, used)) => r == Ok::<usize, DecodeError>(len) && old(self).advanced(
                    final(self),
                    used,
                ),
                Err(e) => r == Err::<usize, DecodeError>(e) && old(self).unchanged(final(self)),
            },
    {
        proof {
            use_type_invariant(&*self);
        }
        let start = self.pos;
        let ghost before = *self;
        let len = self.read_u32()? as usize;
        if len > limit {
            self.pos = start;
            assert(self.rest() =~= before.rest());
            return Err(DecodeError::LengthOverflow { length: len, limit });
        }
        Ok(len)
    }

    /// Reads a length-prefixed region under `limit`.
    fn read_region(&mut self, limit: usize) -> (r: Result<&'a [u8], DecodeError>)
        ensures
            match read_region_spec(old(self).rest(), limit) {
                Ok((bytes, used)) => r matches Ok(b) && b@ == bytes && old(self).advanced(
                    final(self),
                    used,
                ),
                Err(e) => r == Err::<&[u8], DecodeError>(e) && old(self).unchanged(final(self)),
            },
    {
        proof {
            use_type_invariant(&*self);
        }
        let ghost before = *self;
        let start = self.pos;
        let len = self.read_len(limit)?;
        let ghost mid = *self;
        match self.take(len) {
            Ok(bytes) => {
                assert(before.rest().skip(4).take(len as int) =~= before.rest().subrange(
                    4,
                    4 + len,
                ));
                assert(before.rest().skip(4).skip(len as int) =~= before.rest().skip(4 + len));
                Ok(bytes)
            },
            Err(e) => {
                self.pos = start;
                assert(self.rest() =~= before.rest());
                Err(e)
            },
        }
    }

    /// Reads a `string`: a `u32` UTF-8 byte length, then that many bytes,
    /// which must be valid UTF-8.
    pub fn read_string(&mut self) -> (r: Result<String, DecodeError>)
        ensures
            match read_text_spec(old(self).rest(), old(self).limits_spec()) {
                Ok((text, used)) => r matches Ok(s) && s@ == text && old(self).advanced(
                    final(self),
                    used,
                ),
                Err(e) => r == Err::<String, DecodeError>(e) && old(self).unchanged(final(self)),
            },
    {
        proof {
            use_type_invariant(&*self);
        }
        let ghost before = *self;
        let start = self.pos;
        let limit = self.limits.max_string_len;
        let bytes = self.read_region(limit)?;
        match str_from_utf8(bytes) {
            Some(text) => {
                let owned = text.to_owned();
                assert(decode_utf8(bytes@) == text@);
                Ok(owned)
            },
            None => {
                self.pos = start;
                assert(self.rest() =~= before.rest());
                Err(DecodeError::InvalidUtf8)
            },
        }
    }

    /// Reads a `bytes` blob: a `u32` length, then that many raw bytes.
    pub fn read_bytes(&mut self) -> (r: Result<Vec<u8>, DecodeError>)
        ensures
            match read_blob_spec(old(self).rest(), old(self).limits_spec()) {
                Ok((blob, used)) => r matches Ok(v) && v@ == blob && old(self).advanced(
                    final(self),
                    used,
                ),
                Err(e) => r == Err::<Vec<u8>, DecodeError>(e) && old(self).unchanged(final(self)),
            },
    {
        let limit = self.limits.max_bytes_len;
        let bytes = self.read_region(limit)?;
        Ok(vstd::slice::slice_to_vec(bytes))
    }

    /// Reads an array's element count, held to the array limit before a
    /// single element is read.
    pub fn read_array_count(&mut self) -> (r: Result<usize, DecodeError>)
        ensures
            match read_count_spec(old(self).rest(), old(self).limits_spec()) {
                Ok((count, used)) => r == Ok::<usize, DecodeError>(count) && old(self).advanced(
                    final(self),
                    used,
                ),
                Err(e) => r == Err::<usize, DecodeError>(e) && old(self).unchanged(final(self)),
            },
    {
        let limit = self.limits.max_array_count;
        self.read_len(limit)
    }
}

} // verus!
