//! 256-bit unsigned integers, held as four little-endian 64-bit words
//! (the layout `ethers_core::types::U256` uses), with checked arithmetic.
use vstd::prelude::*;

verus! {

/// 2^64
pub open spec fn pow64() -> nat {
    0x1_0000_0000_0000_0000nat
}

/// 2^128
pub open spec fn pow128() -> nat {
    0x1_0000_0000_0000_0000_0000_0000_0000_0000nat
}

/// 2^192
pub open spec fn pow192() -> nat {
    0x1_0000_0000_0000_0000_0000_0000_0000_0000_0000_0000_0000_0000nat
}

/// 2^256: one more than the largest value a `U256` holds.
pub open spec fn pow256() -> nat {
    0x1_0000_0000_0000_0000_0000_0000_0000_0000_0000_0000_0000_0000_0000_0000_0000_0000nat
}

/// An unsigned 256-bit integer: `w0` is the least significant word.
#[derive(Clone, Copy, Debug, PartialEq, Eq, Structural)]
pub struct U256 {
    pub w0: u64,
    pub w1: u64,
    pub w2: u64,
    pub w3: u64,
}

impl View for U256 {
    type V = nat;

    open spec fn view(&self) -> nat {
        self.w0 as nat + self.w1 as nat * pow64() + self.w2 as nat * pow128() + self.w3 as nat
            * pow192()
    }
}

proof fn lemma_view_bounds(x: U256)
    ensures
        x@ < pow256(),
{
    assert(x.w1 as nat * pow64() <= (pow64() - 1) * pow64()) by (nonlinear_arith)
        requires
            x.w1 < pow64(),
    ;
    assert(x.w2 as nat * pow128() <= (pow64() - 1) * pow128()) by (nonlinear_arith)
        requires
            x.w2 < pow64(),
    ;
    assert(x.w3 as nat * pow192() <= (pow64() - 1) * pow192()) by (nonlinear_arith)
        requires
            x.w3 < pow64(),
    ;
}

/// Two `U256` with the same value are the same.
proof fn lemma_view_injective(x: U256, y: U256)
    requires
        x@ == y@,
    ensures
        x == y,
{
    let a = x.w1 as int + x.w2 as int * pow64() + x.w3 as int * pow128();
    let b = y.w1 as int + y.w2 as int * pow64() + y.w3 as int * pow128();
    assert(x@ == x.w0 + a * pow64());
    assert(y@ == y.w0 + b * pow64());
    lemma_digit_unique(x.w0 as int, a, y.w0 as int, b);
    let c = x.w2 as int + x.w3 as int * pow64();
    let d = y.w2 as int + y.w3 as int * pow64();
    assert(a == x.w1 + c * pow64());
    assert(b == y.w1 + d * pow64());
    lemma_digit_unique(x.w1 as int, c, y.w1 as int, d);
    lemma_digit_unique(x.w2 as int, x.w3 as int, y.w2 as int, y.w3 as int);
}

proof fn lemma_digit_unique(lo1: int, hi1: int, lo2: int, hi2: int)
    requires
        0 <= lo1 < pow64(),
        0 <= lo2 < pow64(),
        lo1 + hi1 * pow64() == lo2 + hi2 * pow64(),
    ensures
        lo1 == lo2,
        hi1 == hi2,
{
    assert(lo1 - lo2 == (hi2 - hi1) * pow64()) by (nonlinear_arith)
        requires
            lo1 + hi1 * pow64() == lo2 + hi2 * pow64(),
    ;
    if hi1 != hi2 {
        assert((hi2 - hi1) * pow64() >= pow64() || (hi2 - hi1) * pow64() <= -pow64())
            by (nonlinear_arith)
            requires
                hi1 != hi2,
        ;
    }
}

/// One step of a long multiplication by a word: `w * k + carry` splits into a
/// new word and a new carry.
proof fn lemma_mul_step(w: u64, k: u64, carry: u64)
    ensures
        (w as int) * (k as int) + (carry as int) < pow128(),
        (w as int) * (k as int) + (carry as int) == ((w as int) * (k as int) + (carry as int))
            % (pow64() as int) + (((w as int) * (k as int) + (carry as int)) / (pow64() as int))
            * pow64(),
        ((w as int) * (k as int) + (carry as int)) / (pow64() as int) < pow64(),
{
    assert((w as int) * (k as int) <= (pow64() - 1) * (pow64() - 1)) by (nonlinear_arith)
        requires
            w < pow64(),
            k < pow64(),
    ;
}

proof fn lemma_mul_distributes(k: int, a: int, b: int, c: int, d: int)
    ensures
        k * (a + b * pow64() + c * pow128() + d * pow192()) == k * a + (k * b) * pow64() + (k
            * c) * pow128() + (k * d) * pow192(),
{
    assert(k * (a + b * pow64() + c * pow128() + d * pow192()) == k * a + (k * b) * pow64() + (k
        * c) * pow128() + (k * d) * pow192()) by (nonlinear_arith);
}

/// One step of a long division by a word: the running remainder shifted up
/// a word, plus the next word, divided by `d`.
proof fn lemma_div_step(r: nat, w: nat, d: nat)
    requires
        0 < d < pow64(),
        r < d,
        w < pow64(),
    ensures
        r * pow64() + w < pow128(),
        (r * pow64() + w) / d < pow64(),
        r * pow64() + w == d * ((r * pow64() + w) / d) + (r * pow64() + w) % d,
        (r * pow64() + w) % d < d,
{
    let c = r * pow64() + w;
    assert(c < d * pow64()) by (nonlinear_arith)
        requires
            r < d,
            w < pow64(),
            c == r * pow64() + w,
    ;
    assert(d * pow64() <= pow128()) by (nonlinear_arith)
        requires
            d < pow64(),
    ;
    vstd::arithmetic::div_mod::lemma_fundamental_div_mod(c as int, d as int);
    assert(c / d < pow64()) by (nonlinear_arith)
        requires
            c < d * pow64(),
            0 < d,
    ;
}

proof fn lemma_div_combine(
    w0: int,
    w1: int,
    w2: int,
    w3: int,
    d: int,
    q0: int,
    q1: int,
    q2: int,
    q3: int,
    r0: int,
    r1: int,
    r2: int,
    r3: int,
)
    requires
        w3 == d * q3 + r3,
        r3 * pow64() + w2 == d * q2 + r2,
        r2 * pow64() + w1 == d * q1 + r1,
        r1 * pow64() + w0 == d * q0 + r0,
    ensures
        w0 + w1 * pow64() + w2 * pow128() + w3 * pow192() == d * (q0 + q1 * pow64() + q2 * pow128()
            + q3 * pow192()) + r0,
{
    lemma_mul_distributes(d, q0, q1, q2, q3);
    assert(w3 * pow192() == (d * q3) * pow192() + r3 * pow192()) by (nonlinear_arith)
        requires
            w3 == d * q3 + r3,
    ;
    assert(r3 * pow192() + w2 * pow128() == (d * q2) * pow128() + r2 * pow128())
        by (nonlinear_arith)
        requires
            r3 * pow64() + w2 == d * q2 + r2,
    ;
    assert(r2 * pow128() + w1 * pow64() == (d * q1) * pow64() + r1 * pow64()) by (nonlinear_arith)
        requires
            r2 * pow64() + w1 == d * q1 + r1,
    ;
}

proof fn lemma_mul_combine(
    w0: int,
    w1: int,
    w2: int,
    w3: int,
    k: int,
    p0: int,
    p1: int,
    p2: int,
    p3: int,
    c0: int,
    c1: int,
    c2: int,
    c3: int,
)
    requires
        p0 + c0 * pow64() == w0 * k,
        p1 + c1 * pow64() == w1 * k + c0,
        p2 + c2 * pow64() == w2 * k + c1,
        p3 + c3 * pow64() == w3 * k + c2,
    ensures
        p0 + p1 * pow64() + p2 * pow128() + p3 * pow192() + c3 * pow256() == (w0 + w1 * pow64()
            + w2 * pow128() + w3 * pow192()) * k,
{
    assert((w0 + w1 * pow64() + w2 * pow128() + w3 * pow192()) * k == w0 * k + (w1 * k) * pow64()
        + (w2 * k) * pow128() + (w3 * k) * pow192()) by (nonlinear_arith);
    assert(p1 * pow64() + c1 * pow128() == (w1 * k) * pow64() + c0 * pow64()) by (nonlinear_arith)
        requires
            p1 + c1 * pow64() == w1 * k + c0,
    ;
    assert(p2 * pow128() + c2 * pow192() == (w2 * k) * pow128() + c1 * pow128())
        by (nonlinear_arith)
        requires
            p2 + c2 * pow64() == w2 * k + c1,
    ;
    assert(p3 * pow192() + c3 * pow256() == (w3 * k) * pow192() + c2 * pow192())
        by (nonlinear_arith)
        requires
            p3 + c3 * pow64() == w3 * k + c2,
    ;
}

impl U256 {
    /// The value zero.
    pub fn zero() -> (r: U256)
        ensures
            r@ == 0,
    {
        U256 { w0: 0, w1: 0, w2: 0, w3: 0 }
    }

    /// The value of a `u64`.
    pub fn from_u64(v: u64) -> (r: U256)
        ensures
            r@ == v,
    {
        U256 { w0: v, w1: 0, w2: 0, w3: 0 }
    }

    /// The largest value, 2^256 - 1.
    pub fn max_value() -> (r: U256)
        ensures
            r@ == pow256() - 1,
    {
        U256 { w0: u64::MAX, w1: u64::MAX, w2: u64::MAX, w3: u64::MAX }
    }

    /// Builds a value from its words, least significant first.
    pub fn from_words(words: [u64; 4]) -> (r: U256)
        ensures
            r.w0 == words@[0],
            r.w1 == words@[1],
            r.w2 == words@[2],
            r.w3 == words@[3],
    {
        U256 { w0: words[0], w1: words[1], w2: words[2], w3: words[3] }
    }

    /// The words of the value, least significant first.
    pub fn words(&self) -> (r: [u64; 4])
        ensures
            r@ == seq![self.w0, self.w1, self.w2, self.w3],
    {
        [self.w0, self.w1, self.w2, self.w3]
    }

    /// Whether two values are equal.
    pub fn equals(&self, other: &U256) -> (r: bool)
        ensures
            r == (self@ == other@),
    {
        proof {
            if self@ == other@ {
                lemma_view_injective(*self, *other);
            }
        }
        self.w0 == other.w0 && self.w1 == other.w1 && self.w2 == other.w2 && self.w3 == other.w3
    }

    /// The value as a `u64`; it must fit.
    pub fn as_u64(&self) -> (r: u64)
        requires
            self@ <= u64::MAX,
        ensures
            r == self@,
    {
        proof {
            if self.w1 != 0 || self.w2 != 0 || self.w3 != 0 {
                assert(self.w1 as nat * pow64() + self.w2 as nat * pow128() + self.w3 as nat
                    * pow192() >= pow64()) by (nonlinear_arith)
                    requires
                        self.w1 != 0 || self.w2 != 0 || self.w3 != 0,
                ;
            }
        }
        self.w0
    }

    /// Whether the value fits in a `u64`.
    pub fn fits_u64(&self) -> (r: bool)
        ensures
            r == (self@ <= u64::MAX),
    {
        proof {
            if self.w1 != 0 || self.w2 != 0 || self.w3 != 0 {
                assert(self.w1 as nat * pow64() + self.w2 as nat * pow128() + self.w3 as nat
                    * pow192() >= pow64()) by (nonlinear_arith)
                    requires
                        self.w1 != 0 || self.w2 != 0 || self.w3 != 0,
                ;
            }
        }
        self.w1 == 0 && self.w2 == 0 && self.w3 == 0
    }

    /// `self + other`, or `None` where the sum does not fit in 256 bits.
    pub fn checked_add(&self, other: &U256) -> (r: Option<U256>)
        ensures
            match r {
                Some(s) => s@ == self@ + other@,
                None => self@ + other@ >= pow256(),
            },
    {
        let t0: u128 = self.w0 as u128 + other.w0 as u128;
        let s0: u64 = (t0 % 0x1_0000_0000_0000_0000u128) as u64;
        let c0: u128 = t0 / 0x1_0000_0000_0000_0000u128;
        let t1: u128 = self.w1 as u128 + other.w1 as u128 + c0;
        let s1: u64 = (t1 % 0x1_0000_0000_0000_0000u128) as u64;
        let c1: u128 = t1 / 0x1_0000_0000_0000_0000u128;
        let t2: u128 = self.w2 as u128 + other.w2 as u128 + c1;
        let s2: u64 = (t2 % 0x1_0000_0000_0000_0000u128) as u64;
        let c2: u128 = t2 / 0x1_0000_0000_0000_0000u128;
        let t3: u128 = self.w3 as u128 + other.w3 as u128 + c2;
        let s3: u64 = (t3 % 0x1_0000_0000_0000_0000u128) as u64;
        let c3: u128 = t3 / 0x1_0000_0000_0000_0000u128;
        let s = U256 { w0: s0, w1: s1, w2: s2, w3: s3 };
        assert(s@ + c3 * pow256() == self@ + other@);
        if c3 == 0 {
            Some(s)
        } else {
            proof {
                lemma_view_bounds(s);
            }
            None
        }
    }

    /// `self + 1`; the sum must fit in 256 bits.
    pub fn add_one(&self) -> (r: U256)
        requires
            self@ + 1 < pow256(),
        ensures
            r@ == self@ + 1,
    {
        let one = U256::from_u64(1);
        match self.checked_add(&one) {
            Some(s) => s,
            None => {
                assert(false);
                U256::zero()
            },
        }
    }

    /// `self * k`, or `None` where the product does not fit in 256 bits.
    pub fn checked_mul_u64(&self, k: u64) -> (r: Option<U256>)
        ensures
            match r {
                Some(p) => p@ == self@ * k,
                None => self@ * k >= pow256(),
            },
    {
        proof {
            lemma_mul_step(self.w0, k, 0);
        }
        let t0: u128 = self.w0 as u128 * k as u128;
        let p0: u64 = (t0 % 0x1_0000_0000_0000_0000u128) as u64;
        let c0: u64 = (t0 / 0x1_0000_0000_0000_0000u128) as u64;
        proof {
            lemma_mul_step(self.w1, k, c0);
        }
        let t1: u128 = self.w1 as u128 * k as u128 + c0 as u128;
        let p1: u64 = (t1 % 0x1_0000_0000_0000_0000u128) as u64;
        let c1: u64 = (t1 / 0x1_0000_0000_0000_0000u128) as u64;
        proof {
            lemma_mul_step(self.w2, k, c1);
        }
        let t2: u128 = self.w2 as u128 * k as u128 + c1 as u128;
        let p2: u64 = (t2 % 0x1_0000_0000_0000_0000u128) as u64;
        let c2: u64 = (t2 / 0x1_0000_0000_0000_0000u128) as u64;
        proof {
            lemma_mul_step(self.w3, k, c2);
        }
        let t3: u128 = self.w3 as u128 * k as u128 + c2 as u128;
        let p3: u64 = (t3 % 0x1_0000_0000_0000_0000u128) as u64;
        let c3: u64 = (t3 / 0x1_0000_0000_0000_0000u128) as u64;
        let p = U256 { w0: p0, w1: p1, w2: p2, w3: p3 };
        proof {
            assert(p0 + c0 * pow64() == self.w0 as int * k as int);
            assert(p1 + c1 * pow64() == self.w1 as int * k as int + c0);
            assert(p2 + c2 * pow64() == self.w2 as int * k as int + c1);
            assert(p3 + c3 * pow64() == self.w3 as int * k as int + c2);
            lemma_mul_combine(
                self.w0 as int,
                self.w1 as int,
                self.w2 as int,
                self.w3 as int,
                k as int,
                p0 as int,
                p1 as int,
                p2 as int,
                p3 as int,
                c0 as int,
                c1 as int,
                c2 as int,
                c3 as int,
            );
            assert(p@ + c3 * pow256() == self@ * k);
        }
        if c3 == 0 {
            Some(p)
        } else {
            proof {
                lemma_view_bounds(p);
            }
            None
        }
    }

    /// `self / d` rounded down, or `None` where `d` is zero.
    pub fn checked_div_u64(&self, d: u64) -> (r: Option<U256>)
        ensures
            match r {
                Some(q) => d != 0 && q@ == self@ / (d as nat),
                None => d == 0,
            },
    {
        if d == 0 {
            return None;
        }
        let dd: u128 = d as u128;
        proof {
            lemma_div_step(0, self.w3 as nat, d as nat);
        }
        let n3: u128 = self.w3 as u128;
        let q3: u64 = (n3 / dd) as u64;
        let r3: u64 = (n3 % dd) as u64;
        proof {
            lemma_div_step(r3 as nat, self.w2 as nat, d as nat);
        }
        let n2: u128 = r3 as u128 * 0x1_0000_0000_0000_0000u128 + self.w2 as u128;
        let q2: u64 = (n2 / dd) as u64;
        let r2: u64 = (n2 % dd) as u64;
        proof {
            lemma_div_step(r2 as nat, self.w1 as nat, d as nat);
        }
        let n1: u128 = r2 as u128 * 0x1_0000_0000_0000_0000u128 + self.w1 as u128;
        let q1: u64 = (n1 / dd) as u64;
        let r1: u64 = (n1 % dd) as u64;
        proof {
            lemma_div_step(r1 as nat, self.w0 as nat, d as nat);
        }
        let n0: u128 = r1 as u128 * 0x1_0000_0000_0000_0000u128 + self.w0 as u128;
        let q0: u64 = (n0 / dd) as u64;
        let r0: u64 = (n0 % dd) as u64;
        let q = U256 { w0: q0, w1: q1, w2: q2, w3: q3 };
        proof {
            lemma_div_combine(
                self.w0 as int,
                self.w1 as int,
                self.w2 as int,
                self.w3 as int,
                d as int,
                q0 as int,
                q1 as int,
                q2 as int,
                q3 as int,
                r0 as int,
                r1 as int,
                r2 as int,
                r3 as int,
            );
            assert(self@ == q@ * d + r0) by (nonlinear_arith)
                requires
                    self@ == d * q@ + r0,
            ;
            vstd::arithmetic::div_mod::lemma_fundamental_div_mod_converse(
                self@ as int,
                d as int,
                q@ as int,
                r0 as int,
            );
        }
        Some(q)
    }
}

/// The value of bytes read as a big-endian number.
pub open spec fn be_value(b: Seq<u8>) -> nat
    decreases b.len(),
{
    if b.len() == 0 {
        0
    } else {
        be_value(b.drop_last()) * 256 + b.last() as nat
    }
}

/// 256 to the power `n`.
pub open spec fn pow_256(n: nat) -> nat
    decreases n,
{
    if n == 0 {
        1
    } else {
        256 * pow_256((n - 1) as nat)
    }
}

proof fn lemma_be_value_bound(b: Seq<u8>)
    ensures
        be_value(b) < pow_256(b.len()),
    decreases b.len(),
{
    if b.len() > 0 {
        lemma_be_value_bound(b.drop_last());
        let p = pow_256(b.drop_last().len());
        let v = be_value(b.drop_last());
        assert(v * 256 + b.last() < 256 * p) by (nonlinear_arith)
            requires
                v < p,
                b.last() < 256,
        ;
    }
}

proof fn lemma_pow_256_32()
    ensures
        pow_256(32) == pow256(),
{
    reveal_with_fuel(pow_256, 33);
}

impl U256 {
    /// The value of 32 bytes read as a big-endian number, as
    /// `U256::from_big_endian` reads them.
    pub fn from_be_bytes32(bytes: &[u8]) -> (r: U256)
        requires
            bytes@.len() == 32,
        ensures
            r@ == be_value(bytes@),
    {
        let mut acc = U256::zero();
        let mut i: usize = 0;
        while i < 32
            invariant
                bytes@.len() == 32,
                i <= 32,
                acc@ == be_value(bytes@.take(i as int)),
            decreases 32 - i,
        {
            proof {
                assert(bytes@.take(i + 1).drop_last() =~= bytes@.take(i as int));
                lemma_be_value_bound(bytes@.take(i + 1));
                assert(pow_256((i + 1) as nat) <= pow_256(32)) by {
                    lemma_pow_256_monotone((i + 1) as nat, 32);
                }
                lemma_pow_256_32();
            }
            let shifted = match acc.checked_mul_u64(256) {
                Some(v) => v,
                None => vstd::pervasive::unreached(),
            };
            acc = match shifted.checked_add(&U256::from_u64(bytes[i] as u64)) {
                Some(v) => v,
                None => vstd::pervasive::unreached(),
            };
            i = i + 1;
        }
        assert(bytes@.take(32) =~= bytes@);
        acc
    }
}

proof fn lemma_pow_256_monotone(a: nat, b: nat)
    requires
        a <= b,
    ensures
        pow_256(a) <= pow_256(b),
    decreases b,
{
    if a < b {
        lemma_pow_256_monotone(a, (b - 1) as nat);
    }
}

} // verus!
