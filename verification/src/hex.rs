//! Ethereum addresses as text: parsing the way `H160::from_str` does, and
//! writing them `0x`-prefixed in lowercase.
use vstd::prelude::*;
use crate::text::{hex_digit, hex_of_bytes};
use ethers_core::types::H160;
use ethers_core::utils::hex::ToHexExt;
use vstd::string::StringSliceAdditionalSpecFns;

verus! {

/// Whether a byte is skipped between hex digits: space, `\r`, `\n`, `\t`.
pub open spec fn is_hex_space(b: u8) -> bool {
    b == 32 || b == 13 || b == 10 || b == 9
}

/// The value of a hex digit (either case).
pub open spec fn hex_value(b: u8) -> Option<nat> {
    if 48 <= b <= 57 {
        Some((b - 48) as nat)
    } else if 97 <= b <= 102 {
        Some((b - 87) as nat)
    } else if 65 <= b <= 70 {
        Some((b - 55) as nat)
    } else {
        None
    }
}

/// The digit values of a hex text whose spaces are skipped, or `None` when
/// it holds any other byte that is not a hex digit.
pub open spec fn nibbles(b: Seq<u8>) -> Option<Seq<u8>>
    decreases b.len(),
{
    if b.len() == 0 {
        Some(Seq::empty())
    } else {
        match nibbles(b.drop_last()) {
            None => None,
            Some(ns) => if is_hex_space(b.last()) {
                Some(ns)
            } else {
                match hex_value(b.last()) {
                    Some(v) => Some(ns.push(v as u8)),
                    None => None,
                }
            },
        }
    }
}

/// The text without one leading `0x`.
pub open spec fn strip_0x(b: Seq<u8>) -> Seq<u8> {
    if b.len() >= 2 && b[0] == 48 && b[1] == 120 {
        b.skip(2)
    } else {
        b
    }
}

/// The address a text names: after an optional `0x`, exactly 40 hex digits
/// (of either case, with spaces, `\r`, `\n` and `\t` skipped anywhere),
/// two per byte, most significant first.
pub open spec fn parse_address_spec(b: Seq<u8>) -> Option<Seq<u8>> {
    match nibbles(strip_0x(b)) {
        Some(ns) => if ns.len() == 40 {
            Some(Seq::new(20, |i: int| (ns[2 * i] * 16 + ns[2 * i + 1]) as u8))
        } else {
            None
        },
        None => None,
    }
}

/// `H160::from_str` (`fixed-hash` over `rustc-hex`): an optional leading
/// `0x` is stripped, spaces, `\r`, `\n` and `\t` are skipped, and exactly
/// 40 hex digits of either case must remain, read two per byte. Claims the
/// result is `parse_address_spec` of the text.
#[verifier::external_body]
fn h160_from_str(s: &str) -> (r: Option<[u8; 20]>)
    ensures
        match r {
            Some(a) => parse_address_spec(s.spec_bytes()) == Some(a@),
            None => parse_address_spec(s.spec_bytes()) is None,
        },
{
    s.parse::<H160>().ok().map(|a| a.0)
}

/// Parses an address as `ethers_core`'s `Address::from_str` does.
pub fn parse_address(s: &str) -> (r: Option<[u8; 20]>)
    ensures
        match r {
            Some(a) => parse_address_spec(s.spec_bytes()) == Some(a@),
            None => parse_address_spec(s.spec_bytes()) is None,
        },
{
    h160_from_str(s)
}

/// `0x` and two lowercase hex digits per byte: how `encode_hex_with_prefix`
/// writes bytes.
pub open spec fn hex_with_prefix(b: Seq<u8>) -> Seq<u8> {
    seq![48u8, 120u8] + hex_of_bytes(b)
}

/// `encode_hex_with_prefix` (`ToHexExt` of `const_hex`, re-exported as
/// `ethers_core::utils::hex`): `0x` and two lowercase hex digits per byte.
/// Claims exactly that.
#[verifier::external_body]
fn encode_hex_with_prefix(bytes: &[u8]) -> (r: Vec<u8>)
    ensures
        r@ == hex_with_prefix(bytes@),
{
    bytes.encode_hex_with_prefix().into_bytes()
}

/// Writes an address `0x`-prefixed in lowercase hex.
pub fn address_hex(address: &[u8; 20]) -> (r: Vec<u8>)
    ensures
        r@ == hex_with_prefix(address@),
{
    encode_hex_with_prefix(address.as_slice())
}

proof fn lemma_hex_digit_value(d: nat)
    requires
        d < 16,
    ensures
        hex_value(hex_digit(d)) == Some(d),
        !is_hex_space(hex_digit(d)),
{
}

proof fn lemma_nibbles_of_hex(b: Seq<u8>)
    ensures
        nibbles(hex_of_bytes(b)) == Some(
            Seq::new(2 * b.len(), |k: int| if k % 2 == 0 { b[k / 2] / 16 } else { b[k / 2] % 16 }),
        ),
    decreases b.len(),
{
    let f = |b: Seq<u8>| Seq::new(2 * b.len(), |k: int| if k % 2 == 0 { b[k / 2] / 16 } else { b[k / 2] % 16 });
    if b.len() > 0 {
        let p = b.drop_last();
        lemma_nibbles_of_hex(p);
        let hi = (b.last() / 16) as nat;
        let lo = (b.last() % 16) as nat;
        lemma_hex_digit_value(hi);
        lemma_hex_digit_value(lo);
        let h = hex_of_bytes(b);
        assert(h =~= hex_of_bytes(p) + seq![hex_digit(hi), hex_digit(lo)]);
        assert(h.drop_last() =~= hex_of_bytes(p).push(hex_digit(hi)));
        assert(h.drop_last().drop_last() =~= hex_of_bytes(p));
        assert(h.drop_last().last() == hex_digit(hi));
        assert(h.last() == hex_digit(lo));
        assert(nibbles(h.drop_last()) == Some(f(p).push(hi as u8)));
        assert(nibbles(h) == Some(f(p).push(hi as u8).push(lo as u8)));
        assert forall|k: int| 0 <= k < 2 * p.len() implies #[trigger] f(b)[k] == f(p)[k] by {
            assert(k / 2 < p.len());
            assert(b[k / 2] == p[k / 2]);
        }
        assert(f(b)[2 * p.len() as int] == hi as u8);
        assert(f(b)[2 * p.len() as int + 1] == lo as u8);
        assert(f(b) =~= f(p).push(hi as u8).push(lo as u8));
    } else {
        assert(f(b) =~= Seq::<u8>::empty());
    }
}

/// What `address_hex` writes, `parse_address` reads back.
pub proof fn lemma_address_hex_round_trip(a: Seq<u8>)
    requires
        a.len() == 20,
    ensures
        parse_address_spec(hex_with_prefix(a)) == Some(a),
{
    let h = hex_with_prefix(a);
    assert(strip_0x(h) =~= hex_of_bytes(a));
    lemma_nibbles_of_hex(a);
    let ns = Seq::new(40, |k: int| if k % 2 == 0 { a[k / 2] / 16 } else { a[k / 2] % 16 });
    assert forall|i: int| 0 <= i < 20 implies (ns[2 * i] * 16 + ns[2 * i + 1]) as u8 == a[i] by {
        assert((2 * i) % 2 == 0);
        assert((2 * i + 1) % 2 == 1);
        assert((2 * i) / 2 == i);
        assert((2 * i + 1) / 2 == i);
    }
    assert(Seq::new(20, |i: int| (ns[2 * i] * 16 + ns[2 * i + 1]) as u8) =~= a);
}

} // verus!
