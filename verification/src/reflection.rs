//! What a caller checks of a reflection reply: the methods it lists, each
//! described in one line, against the methods expected, in any order; and
//! the schema fingerprint its schema text carries.
use vstd::prelude::*;
use vstd::multiset::Multiset;
use vstd::seq_lib::{group_to_multiset_ensures, lemma_multiset_commutative};
use vstd::string::StringExecFns;
use vstd::utf8::{decode_utf8, encode_utf8, valid_utf8};
use crate::methods::{retry_code, retry_code_spec, shape_code, shape_code_spec, Method};
use crate::models::frpc::FRpcMethodInfo;
use crate::text::{
    contains_bytes, decimal, find_bytes, hex_digits, lemma_decimal_injective, lemma_decimal_no_slash,
    lemma_hex_digits, lemma_sixteen_pow_eight, push_decimal, push_hex, text_equal,
};

verus! {

broadcast use {group_to_multiset_ensures, vstd::multiset::group_multiset_axioms};

/// The views of a list of strings.
pub open spec fn texts(strings: Seq<String>) -> Seq<Seq<char>> {
    strings.map_values(|s: String| s@)
}

/// One method in one line: its name, its shape code, its request, caller
/// item and reply ids in eight upper-case hexadecimal digits, and its retry
/// code, separated by `/`.
pub open spec fn description(
    name: Seq<char>,
    shape: u32,
    request_id: u32,
    caller_item_id: u32,
    reply_id: u32,
    retry: u32,
) -> Seq<char> {
    name + "/"@ + decimal(shape as nat) + "/"@ + hex_digits(request_id as nat, 8) + "/"@
        + hex_digits(caller_item_id as nat, 8) + "/"@ + hex_digits(reply_id as nat, 8) + "/"@
        + decimal(retry as nat)
}

/// The line describing a method with these parts.
pub fn describe(name: &str, shape: u32, ids: [u32; 3], retry: u32) -> (line: String)
    ensures
        line@ == description(name@, shape, ids@[0], ids@[1], ids@[2], retry),
{
    let mut line = String::new();
    line.append(name);
    line.append("/");
    push_decimal(&mut line, shape as u64);
    line.append("/");
    push_hex(&mut line, ids[0] as u64, 8);
    line.append("/");
    push_hex(&mut line, ids[1] as u64, 8);
    line.append("/");
    push_hex(&mut line, ids[2] as u64, 8);
    line.append("/");
    push_decimal(&mut line, retry as u64);
    assert(line@ =~= description(name@, shape, ids@[0], ids@[1], ids@[2], retry));
    line
}

/// A text ending in `/` and a part with no `/` splits back into that text
/// and that part.
proof fn lemma_split_last_slash(a1: Seq<char>, r1: Seq<char>, a2: Seq<char>, r2: Seq<char>)
    requires
        a1 + "/"@ + r1 == a2 + "/"@ + r2,
        forall|i: int| 0 <= i < r1.len() ==> r1[i] != '/',
        forall|i: int| 0 <= i < r2.len() ==> r2[i] != '/',
    ensures
        a1 == a2,
        r1 == r2,
{
    reveal_strlit("/");
    let s = a1 + "/"@ + r1;
    let t = a2 + "/"@ + r2;
    assert(s[a1.len() as int] == '/');
    assert(t[a2.len() as int] == '/');
    assert(s.len() == t.len());
    if r1.len() < r2.len() {
        let k = a1.len() as int;
        let p2 = a2 + "/"@;
        assert(p2.len() == a2.len() + 1);
        assert(k >= p2.len());
        assert(t[k] == r2[k - p2.len()]);
        assert(r2[k - p2.len()] != '/');
    } else if r2.len() < r1.len() {
        let k = a2.len() as int;
        let p1 = a1 + "/"@;
        assert(p1.len() == a1.len() + 1);
        assert(k >= p1.len());
        assert(s[k] == r1[k - p1.len()]);
        assert(r1[k - p1.len()] != '/');
    }
    assert(a1 =~= s.take(a1.len() as int));
    assert(a2 =~= t.take(a2.len() as int));
    assert(r1 =~= s.skip(a1.len() as int + 1));
    assert(r2 =~= t.skip(a2.len() as int + 1));
}

/// Two texts that end in parts of one length split back into the same parts.
proof fn lemma_split_fixed(a1: Seq<char>, h1: Seq<char>, a2: Seq<char>, h2: Seq<char>)
    requires
        a1 + h1 == a2 + h2,
        h1.len() == h2.len(),
    ensures
        a1 == a2,
        h1 == h2,
{
    let s = a1 + h1;
    assert(a1 =~= s.take(a1.len() as int));
    assert(a2 =~= (a2 + h2).take(a2.len() as int));
    assert(h1 =~= s.skip(a1.len() as int));
    assert(h2 =~= (a2 + h2).skip(a2.len() as int));
}

/// Different methods are described by different lines: the name, the
/// shape, each id and the retry code can all be read back from the line.
pub proof fn law_description_distinguishes(
    name1: Seq<char>, shape1: u32, request1: u32, item1: u32, reply1: u32, retry1: u32,
    name2: Seq<char>, shape2: u32, request2: u32, item2: u32, reply2: u32, retry2: u32,
)
    requires
        description(name1, shape1, request1, item1, reply1, retry1)
            == description(name2, shape2, request2, item2, reply2, retry2),
    ensures
        name1 == name2,
        shape1 == shape2,
        request1 == request2,
        item1 == item2,
        reply1 == reply2,
        retry1 == retry2,
{
    reveal_strlit("/");
    lemma_sixteen_pow_eight();
    lemma_decimal_no_slash(shape1 as nat);
    lemma_decimal_no_slash(shape2 as nat);
    lemma_decimal_no_slash(retry1 as nat);
    lemma_decimal_no_slash(retry2 as nat);
    lemma_hex_digits(request1 as nat, request2 as nat, 8);
    lemma_hex_digits(item1 as nat, item2 as nat, 8);
    lemma_hex_digits(reply1 as nat, reply2 as nat, 8);
    lemma_hex_digits(request2 as nat, request1 as nat, 8);
    lemma_hex_digits(item2 as nat, item1 as nat, 8);
    lemma_hex_digits(reply2 as nat, reply1 as nat, 8);
    let slash = "/"@;
    let v1 = name1 + slash + decimal(shape1 as nat);
    let v2 = name2 + slash + decimal(shape2 as nat);
    let w1 = v1 + slash + hex_digits(request1 as nat, 8);
    let w2 = v2 + slash + hex_digits(request2 as nat, 8);
    let x1 = w1 + slash + hex_digits(item1 as nat, 8);
    let x2 = w2 + slash + hex_digits(item2 as nat, 8);
    let y1 = x1 + slash + hex_digits(reply1 as nat, 8);
    let y2 = x2 + slash + hex_digits(reply2 as nat, 8);
    lemma_split_last_slash(y1, decimal(retry1 as nat), y2, decimal(retry2 as nat));
    lemma_decimal_injective(retry1 as nat, retry2 as nat);
    lemma_split_fixed(x1 + slash, hex_digits(reply1 as nat, 8), x2 + slash, hex_digits(reply2 as nat, 8));
    lemma_split_fixed(x1, slash, x2, slash);
    lemma_split_fixed(w1 + slash, hex_digits(item1 as nat, 8), w2 + slash, hex_digits(item2 as nat, 8));
    lemma_split_fixed(w1, slash, w2, slash);
    lemma_split_fixed(v1 + slash, hex_digits(request1 as nat, 8), v2 + slash, hex_digits(request2 as nat, 8));
    lemma_split_fixed(v1, slash, v2, slash);
    lemma_split_last_slash(name1, decimal(shape1 as nat), name2, decimal(shape2 as nat));
    lemma_decimal_injective(shape1 as nat, shape2 as nat);
}

/// The line describing a declared method, with the codes reflection gives
/// its shape and retry safety.
pub open spec fn method_description(method: Method) -> Seq<char> {
    description(
        method.name@,
        shape_code_spec(method.shape),
        method.request_id,
        method.caller_item_id_spec(),
        method.reply_id,
        retry_code_spec(method.retry_safety),
    )
}

/// The line describing a method as a reflection reply lists it.
pub open spec fn info_description(info: FRpcMethodInfo) -> Seq<char> {
    description(info.name@, info.shape, info.request_id, info.caller_item_id, info.reply_id, info.retry_safety)
}

/// The line describing a declared method.
pub fn describe_method(method: &Method) -> (line: String)
    ensures
        line@ == method_description(*method),
{
    describe(
        method.name.as_str(),
        shape_code(method.shape),
        [method.request_id, method.caller_item_id(), method.reply_id],
        retry_code(method.retry_safety),
    )
}

/// The line describing a listed method.
pub fn describe_info(info: &FRpcMethodInfo) -> (line: String)
    ensures
        line@ == info_description(*info),
{
    describe(
        info.name.as_str(),
        info.shape,
        [info.request_id, info.caller_item_id, info.reply_id],
        info.retry_safety,
    )
}

/// The lines describing declared methods, in order.
pub fn describe_methods(methods: &Vec<Method>) -> (lines: Vec<String>)
    ensures
        texts(lines@) == methods@.map_values(|m: Method| method_description(m)),
{
    let mut lines: Vec<String> = Vec::new();
    let mut i: usize = 0;
    while i < methods.len()
        invariant
            i <= methods@.len(),
            texts(lines@) == methods@.take(i as int).map_values(|m: Method| method_description(m)),
        decreases methods@.len() - i,
    {
        let line = describe_method(&methods[i]);
        let ghost before = lines@;
        lines.push(line);
        assert(texts(lines@) =~= texts(before).push(method_description(methods@[i as int])));
        assert(methods@.take(i + 1) =~= methods@.take(i as int).push(methods@[i as int]));
        assert(methods@.take(i + 1).map_values(|m: Method| method_description(m))
            =~= methods@.take(i as int).map_values(|m: Method| method_description(m)).push(method_description(methods@[i as int])));
        i = i + 1;
    }
    assert(methods@.take(methods@.len() as int) =~= methods@);
    lines
}

/// The lines describing listed methods, in order.
pub fn describe_infos(infos: &Vec<FRpcMethodInfo>) -> (lines: Vec<String>)
    ensures
        texts(lines@) == infos@.map_values(|info: FRpcMethodInfo| info_description(info)),
{
    let mut lines: Vec<String> = Vec::new();
    let mut i: usize = 0;
    while i < infos.len()
        invariant
            i <= infos@.len(),
            texts(lines@) == infos@.take(i as int).map_values(|info: FRpcMethodInfo| info_description(info)),
        decreases infos@.len() - i,
    {
        let line = describe_info(&infos[i]);
        let ghost before = lines@;
        lines.push(line);
        assert(texts(lines@) =~= texts(before).push(info_description(infos@[i as int])));
        assert(infos@.take(i + 1) =~= infos@.take(i as int).push(infos@[i as int]));
        assert(infos@.take(i + 1).map_values(|info: FRpcMethodInfo| info_description(info))
            =~= infos@.take(i as int).map_values(|info: FRpcMethodInfo| info_description(info)).push(info_description(infos@[i as int])));
        i = i + 1;
    }
    assert(infos@.take(infos@.len() as int) =~= infos@);
    lines
}

/// The texts of `strings` at the positions `at`, in that order.
pub open spec fn picked(strings: Seq<String>, at: Seq<usize>) -> Seq<Seq<char>> {
    at.map_values(|k: usize| strings[k as int]@)
}

/// Whether two lists hold the same lines, each as often, in any order.
pub fn same_listing(expected: &Vec<String>, listed: &Vec<String>) -> (same: bool)
    ensures
        same == (texts(expected@).to_multiset() == texts(listed@).to_multiset()),
{
    let ghost e = texts(expected@);
    let ghost l = texts(listed@);
    // The positions of `listed` not yet matched.
    let mut rest: Vec<usize> = Vec::new();
    let mut k: usize = 0;
    while k < listed.len()
        invariant
            k <= listed@.len(),
            rest@.len() == k,
            forall|j: int| 0 <= j < k ==> rest@[j] == j,
        decreases listed@.len() - k,
    {
        rest.push(k);
        k = k + 1;
    }
    assert(picked(listed@, rest@) =~= l);
    let mut i: usize = 0;
    while i < expected.len()
        invariant
            e == texts(expected@),
            l == texts(listed@),
            i <= expected@.len(),
            forall|j: int| 0 <= j < rest@.len() ==> rest@[j] < listed@.len(),
            e.take(i as int).to_multiset().add(picked(listed@, rest@).to_multiset()) == l.to_multiset(),
        decreases expected@.len() - i,
    {
        let want = expected[i].as_str();
        let mut j: usize = 0;
        let mut found = false;
        while j < rest.len()
            invariant_except_break
                !found,
            invariant
                j <= rest@.len(),
                forall|m: int| 0 <= m < rest@.len() ==> rest@[m] < listed@.len(),
                forall|m: int| 0 <= m < j ==> listed@[rest@[m] as int]@ != want@,
            ensures
                found ==> j < rest@.len() && listed@[rest@[j as int] as int]@ == want@,
                !found ==> j == rest@.len(),
            decreases rest@.len() - j,
        {
            if text_equal(listed[rest[j]].as_str(), want) {
                found = true;
                break;
            }
            j = j + 1;
        }
        let ghost p = picked(listed@, rest@);
        if !found {
            proof {
                assert(e[i as int] == want@);
                assert forall|m: int| 0 <= m < p.len() implies p[m] != want@ by {
                    assert(p[m] == listed@[rest@[m] as int]@);
                }
                assert(!p.contains(want@));
                assert(p.to_multiset().count(want@) == 0);
                let front = e.take(i as int).push(want@);
                assert(e.take(i + 1) =~= front);
                assert(front.to_multiset() =~= e.take(i as int).to_multiset().insert(want@));
                assert(e =~= front + e.skip(i + 1));
                lemma_multiset_commutative(front, e.skip(i + 1));
                assert(e.to_multiset().count(want@) >= e.take(i as int).to_multiset().count(want@) + 1);
                assert(l.to_multiset().count(want@) == e.take(i as int).to_multiset().count(want@));
            }
            return false;
        }
        proof {
            assert(p[j as int] == want@);
            assert(picked(listed@, rest@.remove(j as int)) =~= p.remove(j as int));
            assert(e.take(i + 1) =~= e.take(i as int).push(e[i as int]));
        }
        rest.remove(j);
        i = i + 1;
    }
    proof {
        assert(e.take(e.len() as int) =~= e);
    }
    let ghost p = picked(listed@, rest@);
    if rest.len() == 0 {
        proof {
            assert forall|x: Seq<char>| p.to_multiset().count(x) == 0 by {
                assert(!p.contains(x));
            }
            assert(p.to_multiset() =~= Multiset::empty());
            assert(e.to_multiset().add(p.to_multiset()) =~= e.to_multiset());
        }
        true
    } else {
        proof {
            assert(p.len() == rest@.len());
            assert(e.to_multiset().len() == e.len());
            assert(p.to_multiset().len() == p.len());
            assert(l.to_multiset().len() == e.to_multiset().len() + p.to_multiset().len());
        }
        false
    }
}

/// Rust's `String::from_utf8_lossy`: the text of `bytes` with every invalid
/// sequence replaced by U+FFFD.
pub uninterp spec fn utf8_lossy(bytes: Seq<u8>) -> Seq<char>;

/// `String::from_utf8_lossy` of std: the text of `bytes`, where each
/// maximal invalid sequence becomes U+FFFD. Stated here: the result is
/// named by `utf8_lossy`, and valid UTF-8 comes back unchanged; the
/// replacement of invalid sequences is not stated.
#[verifier::external_body]
fn lossy_text(bytes: &[u8]) -> (text: String)
    ensures
        text@ == utf8_lossy(bytes@),
        valid_utf8(bytes@) ==> text@ == decode_utf8(bytes@),
{
    String::from_utf8_lossy(bytes).into_owned()
}

/// The JSON member that carries a schema fingerprint, in sixteen upper-case
/// hexadecimal digits.
pub open spec fn fingerprint_member(fingerprint: u64) -> Seq<char> {
    "\"fingerprint_u64\": \"0x"@ + hex_digits(fingerprint as nat, 16) + "\""@
}

/// Whether the schema text of a reflection reply carries `fingerprint`.
pub fn carries_fingerprint(schema_json: &[u8], fingerprint: u64) -> (found: bool)
    ensures
        found == contains_bytes(encode_utf8(utf8_lossy(schema_json@)), encode_utf8(fingerprint_member(fingerprint))),
{
    let text = lossy_text(schema_json);
    let mut wanted = String::new();
    wanted.append("\"fingerprint_u64\": \"0x");
    push_hex(&mut wanted, fingerprint, 16);
    wanted.append("\"");
    assert(wanted@ =~= fingerprint_member(fingerprint));
    find_bytes(text.as_str().as_bytes(), wanted.as_str().as_bytes())
}

} // verus!
