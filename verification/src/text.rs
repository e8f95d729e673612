//! Byte-level text: ASCII literals, decimal and hexadecimal numerals, and
//! JSON string literals, each with the exact bytes it produces.
use vstd::prelude::*;
use vstd::string::is_ascii;
use crate::u256::U256;
use ethers_core::types::U256 as EthU256;

verus! {

broadcast use vstd::string::is_ascii_spec_bytes;

/// The bytes of an ASCII text.
pub open spec fn ascii_bytes(s: Seq<char>) -> Seq<u8> {
    Seq::new(s.len(), |i: int| s[i] as u8)
}

/// Appends the bytes of an ASCII string.
pub fn append_ascii(out: &mut Vec<u8>, s: &str)
    requires
        is_ascii(s),
    ensures
        final(out)@ == old(out)@ + ascii_bytes(s@),
{
    let bytes = s.as_bytes();
    let n = bytes.len();
    let ghost start = out@;
    for i in 0..n
        invariant
            n == bytes@.len(),
            bytes@ == ascii_bytes(s@),
            out@ == start + bytes@.take(i as int),
    {
        out.push(bytes[i]);
        assert(bytes@.take(i as int).push(bytes@[i as int]) =~= bytes@.take(i + 1));
    }
    assert(bytes@.take(n as int) =~= bytes@);
}

/// Appends a sequence of bytes.
pub fn append_bytes(out: &mut Vec<u8>, bytes: &[u8])
    ensures
        final(out)@ == old(out)@ + bytes@,
{
    let n = bytes.len();
    let ghost start = out@;
    for i in 0..n
        invariant
            n == bytes@.len(),
            out@ == start + bytes@.take(i as int),
    {
        out.push(bytes[i]);
        assert(bytes@.take(i as int).push(bytes@[i as int]) =~= bytes@.take(i + 1));
    }
    assert(bytes@.take(n as int) =~= bytes@);
}

/// The ASCII code of a decimal digit.
pub open spec fn decimal_digit(d: nat) -> u8 {
    (48 + d) as u8
}

/// The decimal numeral of `n`, without leading zeros ("0" for zero).
pub open spec fn decimal(n: nat) -> Seq<u8>
    decreases n,
{
    if n < 10 {
        seq![decimal_digit(n)]
    } else {
        decimal(n / 10).push(decimal_digit(n % 10))
    }
}

/// Appends the decimal numeral of `n`.
pub fn append_decimal(out: &mut Vec<u8>, n: u128)
    ensures
        final(out)@ == old(out)@ + decimal(n as nat),
    decreases n,
{
    if n >= 10 {
        append_decimal(out, n / 10);
    }
    out.push((48 + n % 10) as u8);
    assert(decimal(n as nat) =~= (if n < 10 {
        Seq::<u8>::empty()
    } else {
        decimal((n / 10) as nat)
    }).push(decimal_digit((n % 10) as nat)));
}

/// The ASCII code of a lowercase hexadecimal digit.
pub open spec fn hex_digit(d: nat) -> u8 {
    if d < 10 {
        (48 + d) as u8
    } else {
        (87 + d) as u8
    }
}

/// The lowercase hexadecimal numeral of `n`, without leading zeros ("0" for zero).
pub open spec fn hex_numeral(n: nat) -> Seq<u8>
    decreases n,
{
    if n < 16 {
        seq![hex_digit(n)]
    } else {
        hex_numeral(n / 16).push(hex_digit(n % 16))
    }
}

/// `0x` followed by the lowercase hexadecimal numeral of `n`: the form in
/// which JSON-RPC writes a quantity.
pub open spec fn hex_quantity(n: nat) -> Seq<u8> {
    seq![48u8, 120u8] + hex_numeral(n)
}

/// The two lowercase hexadecimal digits of each byte, in order.
pub open spec fn hex_of_bytes(b: Seq<u8>) -> Seq<u8>
    decreases b.len(),
{
    if b.len() == 0 {
        Seq::empty()
    } else {
        hex_of_bytes(b.drop_last()) + seq![
            hex_digit((b.last() / 16) as nat),
            hex_digit((b.last() % 16) as nat),
        ]
    }
}

/// `ethers_core::utils::hex::encode` (`const_hex`): two lowercase hex
/// digits per byte, most significant first. Claims exactly that.
#[verifier::external_body]
fn hex_encode(bytes: &[u8]) -> (r: Vec<u8>)
    ensures
        r@ == hex_of_bytes(bytes@),
{
    ethers_core::utils::hex::encode(bytes).into_bytes()
}

/// `serde_json::to_vec` of an `ethers_core` `U256` (its `impl-serde`
/// serialization): a string of `0x` and the lowercase hex numeral without
/// leading zeros. Claims exactly that.
#[verifier::external_body]
fn u256_json(v: U256) -> (r: Vec<u8>)
    ensures
        r@ == seq![34u8] + hex_quantity(v@) + seq![34u8],
{
    serde_json::to_vec(&EthU256(v.words())).unwrap()
}

/// Appends the JSON string of a 256-bit value: `"0x…"`, as serde_json
/// writes an `ethers_core` `U256`.
pub fn append_u256_json(out: &mut Vec<u8>, v: U256)
    ensures
        final(out)@ == old(out)@ + seq![34u8] + hex_quantity(v@) + seq![34u8],
{
    let json = u256_json(v);
    append_bytes(out, json.as_slice());
    assert(old(out)@ + json@ =~= old(out)@ + seq![34u8] + hex_quantity(v@) + seq![34u8]);
}

/// Appends two lowercase hexadecimal digits for each byte.
pub fn append_hex_of_bytes(out: &mut Vec<u8>, bytes: &[u8])
    ensures
        final(out)@ == old(out)@ + hex_of_bytes(bytes@),
{
    let hex = hex_encode(bytes);
    append_bytes(out, hex.as_slice());
}

/// How serde_json writes one byte inside a string literal: `"` and `\` get
/// a backslash, the control bytes below 0x20 become `\b`, `\t`, `\n`, `\f`,
/// `\r` or `\u00XX`, and every other byte stands as it is.
pub open spec fn json_escape_byte(b: u8) -> Seq<u8> {
    if b == 34 {
        seq![92u8, 34u8]
    } else if b == 92 {
        seq![92u8, 92u8]
    } else if b == 8 {
        seq![92u8, 98u8]
    } else if b == 9 {
        seq![92u8, 116u8]
    } else if b == 10 {
        seq![92u8, 110u8]
    } else if b == 12 {
        seq![92u8, 102u8]
    } else if b == 13 {
        seq![92u8, 114u8]
    } else if b < 32 {
        seq![92u8, 117u8, 48u8, 48u8, hex_digit((b / 16) as nat), hex_digit((b % 16) as nat)]
    } else {
        seq![b]
    }
}

/// The escaped body of a JSON string literal for the given UTF-8 bytes.
pub open spec fn json_escape(b: Seq<u8>) -> Seq<u8>
    decreases b.len(),
{
    if b.len() == 0 {
        Seq::empty()
    } else {
        json_escape(b.drop_last()) + json_escape_byte(b.last())
    }
}

/// The JSON string literal of a text: quoted and escaped.
pub open spec fn json_string(s: Seq<char>) -> Seq<u8> {
    seq![34u8] + json_escape(vstd::utf8::encode_utf8(s)) + seq![34u8]
}

/// `serde_json::to_vec` of a string: the literal with `"` and `\`
/// escaped by a backslash, the control bytes below 0x20 as `\b`, `\t`,
/// `\n`, `\f`, `\r` or `\u00XX` (lowercase hex), every other byte as it
/// is. Claims the bytes are `json_string` of the text.
#[verifier::external_body]
fn json_string_bytes(s: &str) -> (r: Vec<u8>)
    ensures
        r@ == json_string(s@),
{
    serde_json::to_vec(s).unwrap()
}

/// Appends the JSON string literal of a text, as serde_json writes it.
pub fn append_json_string(out: &mut Vec<u8>, s: &str)
    ensures
        final(out)@ == old(out)@ + json_string(s@),
{
    let json = json_string_bytes(s);
    append_bytes(out, json.as_slice());
}

/// The items separated by commas.
pub open spec fn comma_join(items: Seq<Seq<u8>>) -> Seq<u8>
    decreases items.len(),
{
    if items.len() == 0 {
        Seq::empty()
    } else if items.len() == 1 {
        items[0]
    } else {
        comma_join(items.drop_last()) + seq![44u8] + items.last()
    }
}

/// A JSON array whose elements have the given JSON texts, written compactly.
pub open spec fn json_array(items: Seq<Seq<u8>>) -> Seq<u8> {
    seq![91u8] + comma_join(items) + seq![93u8]
}

/// The JSON texts of the string literals of the given texts.
pub open spec fn json_strings(strs: Seq<Seq<char>>) -> Seq<Seq<u8>> {
    strs.map_values(|s: Seq<char>| json_string(s))
}

/// Appends a compact JSON array of the given element texts.
pub fn append_json_array(out: &mut Vec<u8>, items: &Vec<Vec<u8>>)
    ensures
        final(out)@ == old(out)@ + json_array(items@.map_values(|v: Vec<u8>| v@)),
{
    let ghost views = items@.map_values(|v: Vec<u8>| v@);
    let ghost start = out@;
    out.push(91);
    let n = items.len();
    for i in 0..n
        invariant
            n == items.len(),
            views == items@.map_values(|v: Vec<u8>| v@),
            out@ == start.push(91u8) + comma_join(views.take(i as int)),
    {
        if i > 0 {
            out.push(44);
        }
        append_bytes(out, items[i].as_slice());
        assert(views.take(i + 1).drop_last() =~= views.take(i as int));
        if i == 0 {
            assert(views.take(1) =~= seq![views[0]]);
        }
        assert(out@ =~= start.push(91u8) + comma_join(views.take(i + 1)));
    }
    assert(views.take(n as int) =~= views);
    out.push(93);
    assert(out@ =~= start + json_array(views));
}

/// Appends a compact JSON array of the string literals of the given texts.
pub fn append_json_string_array(out: &mut Vec<u8>, strs: &Vec<String>)
    ensures
        final(out)@ == old(out)@ + json_array(json_strings(strs@.map_values(|s: String| s@))),
{
    let ghost views = json_strings(strs@.map_values(|s: String| s@));
    let ghost start = out@;
    out.push(91);
    let n = strs.len();
    for i in 0..n
        invariant
            n == strs.len(),
            views == json_strings(strs@.map_values(|s: String| s@)),
            out@ == start.push(91u8) + comma_join(views.take(i as int)),
    {
        if i > 0 {
            out.push(44);
        }
        append_json_string(out, strs[i].as_str());
        assert(views.take(i + 1).drop_last() =~= views.take(i as int));
        if i == 0 {
            assert(views.take(1) =~= seq![views[0]]);
        }
        assert(out@ =~= start.push(91u8) + comma_join(views.take(i + 1)));
    }
    assert(views.take(n as int) =~= views);
    out.push(93);
    assert(out@ =~= start + json_array(views));
}

/// Whether two byte strings are equal.
pub fn bytes_eq(a: &[u8], b: &[u8]) -> (r: bool)
    ensures
        r == (a@ == b@),
{
    if a.len() != b.len() {
        return false;
    }
    let n = a.len();
    let mut i: usize = 0;
    while i < n
        invariant
            n == a@.len(),
            n == b@.len(),
            i <= n,
            forall|j: int| 0 <= j < i ==> a@[j] == b@[j],
        decreases n - i,
    {
        if a[i] != b[i] {
            return false;
        }
        i = i + 1;
    }
    assert(a@ =~= b@);
    true
}

/// Whether two texts are equal, compared by their UTF-8 bytes.
pub fn str_eq(a: &str, b: &str) -> (r: bool)
    ensures
        r == (a@ == b@),
{
    proof {
        vstd::utf8::encode_utf8_decode_utf8(a@);
        vstd::utf8::encode_utf8_decode_utf8(b@);
    }
    bytes_eq(a.as_bytes(), b.as_bytes())
}


proof fn lemma_decimal_nonempty(n: nat)
    ensures
        decimal(n).len() >= 1,
        n >= 10 ==> decimal(n).len() >= 2,
    decreases n,
{
    if n >= 10 {
        lemma_decimal_nonempty(n / 10);
    }
}

/// Different numbers have different decimal numerals.
pub proof fn lemma_decimal_injective(a: nat, b: nat)
    requires
        decimal(a) == decimal(b),
    ensures
        a == b,
    decreases a,
{
    lemma_decimal_nonempty(a);
    lemma_decimal_nonempty(b);
    if a < 10 && b < 10 {
        assert(decimal(a) == seq![decimal_digit(a)]);
        assert(decimal(b) == seq![decimal_digit(b)]);
        assert(seq![decimal_digit(a)][0] == decimal_digit(a));
        assert(seq![decimal_digit(b)][0] == decimal_digit(b));
        assert(decimal_digit(a) == decimal_digit(b));
    } else if a >= 10 && b >= 10 {
        assert(decimal(a) == decimal(a / 10).push(decimal_digit(a % 10)));
        assert(decimal(b) == decimal(b / 10).push(decimal_digit(b % 10)));
        assert(decimal(a).last() == decimal_digit(a % 10));
        assert(decimal(b).last() == decimal_digit(b % 10));
        assert(decimal_digit(a % 10) == decimal_digit(b % 10));
        assert(a % 10 == b % 10);
        assert(decimal(a).drop_last() =~= decimal(a / 10));
        assert(decimal(b).drop_last() =~= decimal(b / 10));
        lemma_decimal_injective(a / 10, b / 10);
        assert(a == 10 * (a / 10) + a % 10);
        assert(b == 10 * (b / 10) + b % 10);
    } else {
        lemma_decimal_nonempty(a / 10);
        lemma_decimal_nonempty(b / 10);
    }
}


/// A digit of a decimal or lowercase hexadecimal numeral.
pub open spec fn is_numeral_byte(b: u8) -> bool {
    (48 <= b <= 57) || (97 <= b <= 102)
}

pub proof fn lemma_decimal_bytes(n: nat)
    ensures
        forall|i: int| 0 <= i < decimal(n).len() ==> is_numeral_byte(#[trigger] decimal(n)[i]),
    decreases n,
{
    if n >= 10 {
        lemma_decimal_bytes(n / 10);
        assert(decimal(n) == decimal(n / 10).push(decimal_digit(n % 10)));
    } else {
        assert(decimal(n) == seq![decimal_digit(n)]);
    }
}

pub proof fn lemma_hex_numeral_bytes(n: nat)
    ensures
        forall|i: int| 0 <= i < hex_numeral(n).len() ==> is_numeral_byte(#[trigger] hex_numeral(n)[i]),
        hex_numeral(n).len() >= 1,
        n >= 16 ==> hex_numeral(n).len() >= 2,
    decreases n,
{
    if n >= 16 {
        lemma_hex_numeral_bytes(n / 16);
        assert(hex_numeral(n) == hex_numeral(n / 16).push(hex_digit(n % 16)));
    } else {
        assert(hex_numeral(n) == seq![hex_digit(n)]);
    }
}

/// Different numbers have different hexadecimal numerals.
pub proof fn lemma_hex_numeral_injective(a: nat, b: nat)
    requires
        hex_numeral(a) == hex_numeral(b),
    ensures
        a == b,
    decreases a,
{
    lemma_hex_numeral_bytes(a);
    lemma_hex_numeral_bytes(b);
    if a < 16 && b < 16 {
        assert(hex_numeral(a) == seq![hex_digit(a)]);
        assert(hex_numeral(b) == seq![hex_digit(b)]);
        assert(seq![hex_digit(a)][0] == hex_digit(a));
        assert(seq![hex_digit(b)][0] == hex_digit(b));
        assert(hex_digit(a) == hex_digit(b));
    } else if a >= 16 && b >= 16 {
        assert(hex_numeral(a) == hex_numeral(a / 16).push(hex_digit(a % 16)));
        assert(hex_numeral(b) == hex_numeral(b / 16).push(hex_digit(b % 16)));
        assert(hex_numeral(a).last() == hex_digit(a % 16));
        assert(hex_numeral(b).last() == hex_digit(b % 16));
        assert(hex_digit(a % 16) == hex_digit(b % 16));
        assert(a % 16 == b % 16);
        assert(hex_numeral(a).drop_last() =~= hex_numeral(a / 16));
        assert(hex_numeral(b).drop_last() =~= hex_numeral(b / 16));
        lemma_hex_numeral_injective(a / 16, b / 16);
        assert(a == 16 * (a / 16) + a % 16);
        assert(b == 16 * (b / 16) + b % 16);
    }
}

/// A numeral followed by a byte that is no numeral digit ends where that
/// byte stands, so two such texts that are equal have equal numerals.
pub proof fn lemma_split_numeral(a: Seq<u8>, b: Seq<u8>, c: Seq<u8>, d: Seq<u8>)
    requires
        forall|i: int| 0 <= i < a.len() ==> is_numeral_byte(#[trigger] a[i]),
        forall|i: int| 0 <= i < c.len() ==> is_numeral_byte(#[trigger] c[i]),
        b.len() > 0 && !is_numeral_byte(b[0]),
        d.len() > 0 && !is_numeral_byte(d[0]),
        a + b == c + d,
    ensures
        a == c,
        b == d,
{
    if a.len() < c.len() {
        assert((a + b)[a.len() as int] == b[0]);
        assert((c + d)[a.len() as int] == c[a.len() as int]);
    } else if c.len() < a.len() {
        assert((c + d)[c.len() as int] == d[0]);
        assert((a + b)[c.len() as int] == a[c.len() as int]);
    }
    assert(a =~= (a + b).take(a.len() as int));
    assert(c =~= (c + d).take(c.len() as int));
    assert(b =~= (a + b).skip(a.len() as int));
    assert(d =~= (c + d).skip(c.len() as int));
}

/// Equal texts after the same prefix are equal.
pub proof fn lemma_cancel_prefix(p: Seq<u8>, x: Seq<u8>, y: Seq<u8>)
    requires
        p + x == p + y,
    ensures
        x == y,
{
    assert(x =~= (p + x).skip(p.len() as int));
    assert(y =~= (p + y).skip(p.len() as int));
}


/// The number a numeral in base `radix` writes, its digits given by
/// `digit_value`.
pub open spec fn numeral_value(s: Seq<u8>, radix: nat) -> nat
    decreases s.len(),
{
    if s.len() == 0 {
        0
    } else {
        numeral_value(s.drop_last(), radix) * radix + digit_value(s.last())
    }
}

/// The value of an ASCII decimal or lowercase hex digit.
pub open spec fn digit_value(b: u8) -> nat {
    if 48 <= b <= 57 {
        (b - 48) as nat
    } else if 97 <= b <= 102 {
        (b - 87) as nat
    } else {
        0
    }
}

/// The decimal numeral of `n` reads back as `n`.
pub proof fn lemma_decimal_reads_back(n: nat)
    ensures
        numeral_value(decimal(n), 10) == n,
    decreases n,
{
    let d = decimal(n);
    if n >= 10 {
        lemma_decimal_reads_back(n / 10);
        assert(d == decimal(n / 10).push(decimal_digit(n % 10)));
        assert(d.drop_last() =~= decimal(n / 10));
        assert(d.last() == decimal_digit(n % 10));
        assert(digit_value(decimal_digit(n % 10)) == n % 10);
        assert(numeral_value(d, 10) == numeral_value(d.drop_last(), 10) * 10 + digit_value(d.last()));
        assert(n == (n / 10) * 10 + n % 10);
    } else {
        assert(d == seq![decimal_digit(n)]);
        assert(d.drop_last() =~= Seq::<u8>::empty());
        assert(d.last() == decimal_digit(n));
        assert(numeral_value(d, 10) == numeral_value(d.drop_last(), 10) * 10 + digit_value(d.last()));
        assert(numeral_value(Seq::<u8>::empty(), 10) == 0);
    }
}

/// The hexadecimal numeral of `n` reads back as `n`.
pub proof fn lemma_hex_numeral_reads_back(n: nat)
    ensures
        numeral_value(hex_numeral(n), 16) == n,
    decreases n,
{
    let h = hex_numeral(n);
    if n >= 16 {
        lemma_hex_numeral_reads_back(n / 16);
        assert(h == hex_numeral(n / 16).push(hex_digit(n % 16)));
        assert(h.drop_last() =~= hex_numeral(n / 16));
        assert(h.last() == hex_digit(n % 16));
        assert(digit_value(hex_digit(n % 16)) == n % 16);
        assert(numeral_value(h, 16) == numeral_value(h.drop_last(), 16) * 16 + digit_value(h.last()));
        assert(n == (n / 16) * 16 + n % 16);
    } else {
        assert(h == seq![hex_digit(n)]);
        assert(h.drop_last() =~= Seq::<u8>::empty());
        assert(h.last() == hex_digit(n));
        assert(numeral_value(h, 16) == numeral_value(h.drop_last(), 16) * 16 + digit_value(h.last()));
        assert(numeral_value(Seq::<u8>::empty(), 16) == 0);
    }
}

} // verus!
