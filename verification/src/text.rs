//! Text the peers print and compare: decimal and upper-case hexadecimal
//! numbers, and equality and containment of text and bytes.
use vstd::prelude::*;
use vstd::string::StringExecFns;
use vstd::utf8::{encode_utf8, is_ascii_chars};

verus! {

broadcast use vstd::utf8::encode_utf8_decode_utf8;

/// The digit of value `d`, with `A` to `F` for ten to fifteen.
pub open spec fn digit_char(d: nat) -> char {
    if d < 10 {
        (('0' as nat) + d) as char
    } else {
        (('A' as nat) + d - 10) as char
    }
}

/// `n` in decimal, with no leading zeros.
pub open spec fn decimal(n: nat) -> Seq<char>
    decreases n,
{
    if n < 10 {
        seq![digit_char(n)]
    } else {
        decimal(n / 10).push(digit_char(n % 10))
    }
}

/// The low `width` hexadecimal digits of `n`, upper case, zero-padded.
pub open spec fn hex_digits(n: nat, width: nat) -> Seq<char>
    decreases width,
{
    if width == 0 {
        Seq::empty()
    } else {
        hex_digits(n / 16, (width - 1) as nat).push(digit_char(n % 16))
    }
}

/// The upper-case form of `text`, as Rust's `str::to_uppercase` computes it
/// from the Unicode case tables.
pub uninterp spec fn uppercase(text: Seq<char>) -> Seq<char>;

/// `str::to_uppercase` of std: the upper-case form of `text`. Its result is a
/// function of `text` alone (no locale is consulted), and is named here by
/// `uppercase`; what that function is on given text is not stated.
#[verifier::external_body]
pub(crate) fn to_uppercase(text: &str) -> (upper: String)
    ensures
        upper@ == uppercase(text@),
{
    text.to_uppercase()
}

/// Ten to the power `k`.
pub open spec fn ten_pow(k: nat) -> nat
    decreases k,
{
    if k == 0 {
        1
    } else {
        10 * ten_pow((k - 1) as nat)
    }
}

/// A number below `10^k`, `k >= 1`, has at most `k` decimal digits, and they
/// are all ASCII.
pub proof fn lemma_decimal_len(n: nat, k: nat)
    requires
        1 <= k,
        n < ten_pow(k),
    ensures
        decimal(n).len() <= k,
        is_ascii_chars(decimal(n)),
    decreases n,
{
    if n < 10 {
        assert(decimal(n) =~= seq![digit_char(n)]);
    } else {
        assert(k >= 2) by {
            if k == 1 {
                assert(ten_pow(1) == 10 * ten_pow(0));
            }
        }
        assert(ten_pow(k) == 10 * ten_pow((k - 1) as nat));
        assert(n / 10 < ten_pow((k - 1) as nat));
        lemma_decimal_len(n / 10, (k - 1) as nat);
        let d = decimal(n / 10);
        assert forall|i| 0 <= i < decimal(n).len() implies '\0' <= #[trigger] decimal(n)[i] <= '\u{7f}' by {
            if i < d.len() {
                assert(decimal(n)[i] == d[i]);
            }
        }
    }
}

/// A `u32` has at most ten decimal digits, all ASCII.
pub proof fn lemma_u32_decimal(n: u32)
    ensures
        decimal(n as nat).len() <= 10,
        is_ascii_chars(decimal(n as nat)),
{
    assert(ten_pow(10) == 10000000000) by {
        reveal_with_fuel(ten_pow, 11);
    }
    lemma_decimal_len(n as nat, 10);
}

/// Sixteen to the power `k`.
pub open spec fn sixteen_pow(k: nat) -> nat
    decreases k,
{
    if k == 0 {
        1
    } else {
        16 * sixteen_pow((k - 1) as nat)
    }
}

/// Digits of different values are different, and none is `/`.
pub proof fn lemma_digit_char(a: nat, b: nat)
    requires
        a < 16,
        b < 16,
    ensures
        digit_char(a) == digit_char(b) ==> a == b,
        digit_char(a) != '/',
{
    let ca = digit_char(a);
    let cb = digit_char(b);
    assert(a < 10 ==> ca as int == 48 + a);
    assert(a >= 10 ==> ca as int == 65 + a - 10);
    assert(b < 10 ==> cb as int == 48 + b);
    assert(b >= 10 ==> cb as int == 65 + b - 10);
}

/// A decimal is at least one digit long, and holds no `/`.
pub proof fn lemma_decimal_no_slash(n: nat)
    ensures
        decimal(n).len() >= 1,
        forall|i: int| 0 <= i < decimal(n).len() ==> decimal(n)[i] != '/',
    decreases n,
{
    lemma_digit_char(n % 10, n % 10);
    if n >= 10 {
        lemma_decimal_no_slash(n / 10);
        let d = decimal(n / 10);
        assert forall|i: int| 0 <= i < decimal(n).len() implies decimal(n)[i] != '/' by {
            if i < d.len() {
                assert(decimal(n)[i] == d[i]);
            }
        }
    }
}

/// Different numbers have different decimals.
pub proof fn lemma_decimal_injective(a: nat, b: nat)
    requires
        decimal(a) == decimal(b),
    ensures
        a == b,
    decreases a + b,
{
    lemma_digit_char(a % 10, b % 10);
    if a < 10 && b < 10 {
        assert(decimal(a)[0] == digit_char(a));
        assert(decimal(b)[0] == digit_char(b));
    } else if a >= 10 && b >= 10 {
        let da = decimal(a);
        assert(da.last() == digit_char(a % 10));
        assert(decimal(b).last() == digit_char(b % 10));
        assert(decimal(a / 10) =~= da.drop_last());
        assert(decimal(b / 10) =~= decimal(b).drop_last());
        lemma_decimal_injective(a / 10, b / 10);
    } else if a < 10 {
        lemma_decimal_no_slash(b / 10);
        assert(decimal(a).len() == 1);
        assert(decimal(b).len() == decimal(b / 10).len() + 1);
    } else {
        lemma_decimal_no_slash(a / 10);
        assert(decimal(b).len() == 1);
        assert(decimal(a).len() == decimal(a / 10).len() + 1);
    }
}

/// Zero-padded hexadecimals of a width are that wide, hold no `/`, and
/// differ for different numbers below sixteen to that power.
pub proof fn lemma_hex_digits(a: nat, b: nat, width: nat)
    ensures
        hex_digits(a, width).len() == width,
        forall|i: int| 0 <= i < width ==> hex_digits(a, width)[i] != '/',
        a < sixteen_pow(width) && b < sixteen_pow(width) && hex_digits(a, width) == hex_digits(b, width) ==> a == b,
    decreases width,
{
    if width > 0 {
        let w = (width - 1) as nat;
        lemma_hex_digits(a / 16, b / 16, w);
        lemma_digit_char(a % 16, b % 16);
        let ha = hex_digits(a, width);
        assert forall|i: int| 0 <= i < width implies ha[i] != '/' by {
            if i < w {
                assert(ha[i] == hex_digits(a / 16, w)[i]);
            }
        }
        if a < sixteen_pow(width) && b < sixteen_pow(width) && ha == hex_digits(b, width) {
            assert(ha.last() == digit_char(a % 16));
            assert(hex_digits(b, width).last() == digit_char(b % 16));
            assert(hex_digits(a / 16, w) =~= ha.drop_last());
            assert(hex_digits(b / 16, w) =~= hex_digits(b, width).drop_last());
            assert(a / 16 < sixteen_pow(w));
            assert(b / 16 < sixteen_pow(w));
        }
    }
}

/// Sixteen to the eighth is two to the thirty-second.
pub proof fn lemma_sixteen_pow_eight()
    ensures
        sixteen_pow(8) == 0x1_0000_0000,
{
    reveal_with_fuel(sixteen_pow, 9);
}

/// The one-character text of digit `d`.
fn digit_str(d: u64) -> (s: &'static str)
    requires
        d < 16,
    ensures
        s@ == seq![digit_char(d as nat)],
{
    proof {
        reveal_strlit("0");
        reveal_strlit("1");
        reveal_strlit("2");
        reveal_strlit("3");
        reveal_strlit("4");
        reveal_strlit("5");
        reveal_strlit("6");
        reveal_strlit("7");
        reveal_strlit("8");
        reveal_strlit("9");
        reveal_strlit("A");
        reveal_strlit("B");
        reveal_strlit("C");
        reveal_strlit("D");
        reveal_strlit("E");
        reveal_strlit("F");
    }
    let s = if d == 0 {
        "0"
    } else if d == 1 {
        "1"
    } else if d == 2 {
        "2"
    } else if d == 3 {
        "3"
    } else if d == 4 {
        "4"
    } else if d == 5 {
        "5"
    } else if d == 6 {
        "6"
    } else if d == 7 {
        "7"
    } else if d == 8 {
        "8"
    } else if d == 9 {
        "9"
    } else if d == 10 {
        "A"
    } else if d == 11 {
        "B"
    } else if d == 12 {
        "C"
    } else if d == 13 {
        "D"
    } else if d == 14 {
        "E"
    } else {
        "F"
    };
    assert(s@ =~= seq![digit_char(d as nat)]);
    s
}

/// Appends `n` in decimal.
pub fn push_decimal(out: &mut String, n: u64)
    ensures
        final(out)@ == old(out)@ + decimal(n as nat),
    decreases n,
{
    if n >= 10 {
        push_decimal(out, n / 10);
    }
    out.append(digit_str(n % 10));
    proof {
        if n >= 10 {
            assert(final(out)@ =~= old(out)@ + decimal(n as nat));
        } else {
            assert(final(out)@ =~= old(out)@ + decimal(n as nat));
        }
    }
}

/// Appends the low `width` hexadecimal digits of `n`, upper case, zero-padded.
pub fn push_hex(out: &mut String, n: u64, width: u64)
    ensures
        final(out)@ == old(out)@ + hex_digits(n as nat, width as nat),
    decreases width,
{
    if width > 0 {
        push_hex(out, n / 16, width - 1);
        out.append(digit_str(n % 16));
        assert(final(out)@ =~= old(out)@ + hex_digits(n as nat, width as nat));
    } else {
        assert(final(out)@ =~= old(out)@ + hex_digits(n as nat, width as nat));
    }
}

/// `n` in decimal.
pub fn decimal_string(n: u64) -> (s: String)
    ensures
        s@ == decimal(n as nat),
{
    let mut s = String::new();
    push_decimal(&mut s, n);
    assert(s@ =~= decimal(n as nat));
    s
}

/// The byte length of `text` in UTF-8.
pub fn utf8_len(text: &str) -> (len: usize)
    ensures
        len == encode_utf8(text@).len(),
{
    text.as_bytes().len()
}

/// `bytes` in upper-case hexadecimal, two digits a byte.
pub open spec fn bytes_hex(bytes: Seq<u8>) -> Seq<char>
    decreases bytes.len(),
{
    if bytes.len() == 0 {
        Seq::empty()
    } else {
        bytes_hex(bytes.drop_last()) + hex_digits(bytes.last() as nat, 2)
    }
}

/// The hexadecimal of bytes is two digits a byte, the high digit first:
/// characters `2k` and `2k + 1` are the digits of byte `k` divided by 16
/// and of its remainder.
pub proof fn law_bytes_hex_digits(bytes: Seq<u8>)
    ensures
        bytes_hex(bytes).len() == 2 * bytes.len(),
        forall|k: int| 0 <= k < bytes.len() ==> {
            &&& #[trigger] bytes_hex(bytes)[2 * k] == digit_char((bytes[k] / 16) as nat)
            &&& bytes_hex(bytes)[2 * k + 1] == digit_char((bytes[k] % 16) as nat)
        },
    decreases bytes.len(),
{
    if bytes.len() > 0 {
        let front = bytes.drop_last();
        law_bytes_hex_digits(front);
        let n = bytes.last() as nat;
        assert(hex_digits(n, 2) =~= seq![digit_char((n / 16) % 16), digit_char(n % 16)]) by {
            reveal_with_fuel(hex_digits, 3);
            assert(hex_digits(n / 16 / 16, 0) =~= Seq::<char>::empty());
        }
        assert((n / 16) % 16 == n / 16);
        let h = bytes_hex(bytes);
        let tail = hex_digits(n, 2);
        assert(h == bytes_hex(front) + tail);
        assert(h.len() == 2 * bytes.len());
        assert forall|k: int| 0 <= k < bytes.len() implies {
            &&& #[trigger] bytes_hex(bytes)[2 * k] == digit_char((bytes[k] / 16) as nat)
            &&& bytes_hex(bytes)[2 * k + 1] == digit_char((bytes[k] % 16) as nat)
        } by {
            if k < front.len() {
                assert(front[k] == bytes[k]);
                assert(h[2 * k] == bytes_hex(front)[2 * k]);
                assert(h[2 * k + 1] == bytes_hex(front)[2 * k + 1]);
                assert(bytes_hex(front)[2 * k] == digit_char((front[k] / 16) as nat));
                assert(bytes_hex(front)[2 * k + 1] == digit_char((front[k] % 16) as nat));
            } else {
                assert(k == front.len());
                assert(bytes[k] == bytes.last());
                assert(h[2 * k] == tail[0]);
                assert(h[2 * k + 1] == tail[1]);
            }
        }
    }
}

/// Different payloads print differently: the hexadecimal of bytes gives
/// the bytes back.
pub proof fn law_bytes_hex_injective(a: Seq<u8>, b: Seq<u8>)
    requires
        bytes_hex(a) == bytes_hex(b),
    ensures
        a == b,
{
    law_bytes_hex_digits(a);
    law_bytes_hex_digits(b);
    assert(a.len() == b.len());
    assert forall|k: int| 0 <= k < a.len() implies a[k] == b[k] by {
        let x = a[k];
        let y = b[k];
        assert(bytes_hex(a)[2 * k] == digit_char((x / 16) as nat));
        assert(bytes_hex(b)[2 * k] == digit_char((y / 16) as nat));
        assert(bytes_hex(a)[2 * k + 1] == digit_char((x % 16) as nat));
        assert(bytes_hex(b)[2 * k + 1] == digit_char((y % 16) as nat));
        lemma_digit_char((x / 16) as nat, (y / 16) as nat);
        lemma_digit_char((x % 16) as nat, (y % 16) as nat);
        assert(x / 16 == y / 16);
        assert(x % 16 == y % 16);
        assert(x == 16 * (x / 16) + x % 16);
        assert(y == 16 * (y / 16) + y % 16);
    }
    assert(a =~= b);
}

/// Appends `bytes` in upper-case hexadecimal, two digits a byte.
pub fn push_bytes_hex(out: &mut String, bytes: &[u8])
    ensures
        final(out)@ == old(out)@ + bytes_hex(bytes@),
{
    let mut i: usize = 0;
    while i < bytes.len()
        invariant
            i <= bytes@.len(),
            out@ == old(out)@ + bytes_hex(bytes@.take(i as int)),
        decreases bytes@.len() - i,
    {
        push_hex(out, bytes[i] as u64, 2);
        assert(bytes@.take(i + 1).drop_last() =~= bytes@.take(i as int));
        assert(out@ =~= old(out)@ + bytes_hex(bytes@.take(i + 1)));
        i = i + 1;
    }
    assert(bytes@.take(bytes@.len() as int) =~= bytes@);
}

/// Whether two byte strings are equal.
pub fn bytes_equal(a: &[u8], b: &[u8]) -> (same: bool)
    ensures
        same == (a@ == b@),
{
    if a.len() != b.len() {
        return false;
    }
    let n = a.len();
    let mut i: usize = 0;
    while i < n
        invariant
            n == a@.len(),
            n == b@.len(),
            i <= n,
            a@.take(i as int) == b@.take(i as int),
        decreases n - i,
    {
        if a[i] != b[i] {
            assert(a@[i as int] != b@[i as int]);
            return false;
        }
        assert(a@.take(i + 1) =~= a@.take(i as int).push(a@[i as int]));
        assert(b@.take(i + 1) =~= b@.take(i as int).push(b@[i as int]));
        i = i + 1;
    }
    assert(a@.take(n as int) =~= a@);
    assert(b@.take(n as int) =~= b@);
    true
}

/// Whether two texts are equal.
pub fn text_equal(a: &str, b: &str) -> (same: bool)
    ensures
        same == (a@ == b@),
{
    let same = bytes_equal(a.as_bytes(), b.as_bytes());
    proof {
        if same {
            assert(encode_utf8(a@) == encode_utf8(b@));
            assert(vstd::utf8::decode_utf8(encode_utf8(a@)) == a@);
            assert(vstd::utf8::decode_utf8(encode_utf8(b@)) == b@);
        }
    }
    same
}

/// Whether `needle` occurs in `haystack` at index `i`.
pub open spec fn occurs_at(haystack: Seq<u8>, needle: Seq<u8>, i: int) -> bool {
    0 <= i && i + needle.len() <= haystack.len() && haystack.subrange(i, i + needle.len()) == needle
}

/// Whether `needle` occurs anywhere in `haystack`.
pub open spec fn contains_bytes(haystack: Seq<u8>, needle: Seq<u8>) -> bool {
    exists|i: int| occurs_at(haystack, needle, i)
}

/// Whether `needle` occurs at index `i` of `haystack`.
fn matches_at(haystack: &[u8], needle: &[u8], i: usize) -> (found: bool)
    requires
        i + needle@.len() <= haystack@.len(),
    ensures
        found == occurs_at(haystack@, needle@, i as int),
{
    let n = needle.len();
    let h = haystack.len();
    let mut j: usize = 0;
    while j < n
        invariant
            n == needle@.len(),
            h == haystack@.len(),
            i + n <= h,
            j <= n,
            forall|k: int| 0 <= k < j ==> haystack@[i + k] == needle@[k],
        decreases n - j,
    {
        if haystack[i + j] != needle[j] {
            assert(haystack@.subrange(i as int, i + n)[j as int] != needle@[j as int]);
            return false;
        }
        j = j + 1;
    }
    assert(haystack@.subrange(i as int, i + n) =~= needle@);
    true
}

/// Whether `needle` occurs anywhere in `haystack`.
pub fn find_bytes(haystack: &[u8], needle: &[u8]) -> (found: bool)
    ensures
        found == contains_bytes(haystack@, needle@),
{
    if needle.len() > haystack.len() {
        assert forall|i: int| !occurs_at(haystack@, needle@, i) by {}
        return false;
    }
    if needle.len() == 0 {
        assert(haystack@.subrange(0, 0) =~= needle@);
        assert(occurs_at(haystack@, needle@, 0));
        return true;
    }
    let count = haystack.len() - needle.len() + 1;
    let mut i: usize = 0;
    while i < count
        invariant
            count + needle@.len() == haystack@.len() + 1,
            i <= count,
            forall|k: int| 0 <= k < i ==> !occurs_at(haystack@, needle@, k),
        decreases count - i,
    {
        if matches_at(haystack, needle, i) {
            return true;
        }
        i = i + 1;
    }
    false
}

} // verus!
