//! Natural numbers of any size, held as base-2^64 limbs with the least
//! significant limb first.
//!
//! A limb vector need not be trimmed: limbs above the last non-zero one are
//! zero and add nothing to the value.

use vstd::prelude::*;
use vstd::arithmetic::div_mod::lemma_div_denominator;
use vstd::arithmetic::power::{lemma_pow0, lemma_pow_positive, pow};
use crate::rounding::lemma_pow_next;

verus! {

/// The base of the limb representation, 2^64.
pub open spec fn limb_base() -> nat {
    0x1_0000_0000_0000_0000
}

/// The weight of limb `k`: `limb_base()` to the power `k`.
pub open spec fn weight(k: nat) -> nat
    decreases k,
{
    if k == 0 {
        1
    } else {
        limb_base() * weight((k - 1) as nat)
    }
}

/// Limb `i` of `limbs`, or zero where the vector has no such limb.
pub open spec fn limb_at(limbs: Seq<u64>, i: int) -> nat {
    if 0 <= i < limbs.len() {
        limbs[i] as nat
    } else {
        0
    }
}

/// The number held by the lowest `k` limbs: the sum of
/// `limb_at(limbs, j) * weight(j)` over `j < k`.
pub open spec fn low_value(limbs: Seq<u64>, k: nat) -> nat
    decreases k,
{
    if k == 0 {
        0
    } else {
        low_value(limbs, (k - 1) as nat) + limb_at(limbs, k - 1) * weight((k - 1) as nat)
    }
}

/// The number that a limb vector holds.
pub open spec fn limbs_value(limbs: Seq<u64>) -> nat {
    low_value(limbs, limbs.len())
}

/// Every limb weighs at least one.
proof fn lemma_weight_positive(k: nat)
    ensures
        weight(k) >= 1,
    decreases k,
{
    if k > 0 {
        lemma_weight_positive((k - 1) as nat);
        assert(limb_base() * weight((k - 1) as nat) >= 1) by (nonlinear_arith)
            requires
                limb_base() >= 1,
                weight((k - 1) as nat) >= 1,
        ;
    }
}

/// Vectors that agree on their lowest `k` limbs hold the same number there.
proof fn lemma_low_value_agree(a: Seq<u64>, b: Seq<u64>, k: nat)
    requires
        forall|j: int| 0 <= j < k ==> limb_at(a, j) == limb_at(b, j),
    ensures
        low_value(a, k) == low_value(b, k),
    decreases k,
{
    if k > 0 {
        lemma_low_value_agree(a, b, (k - 1) as nat);
        assert(limb_at(a, k - 1) == limb_at(b, k - 1));
    }
}

/// Zero limbs from `lo` up to `k` add nothing.
proof fn lemma_low_value_zeros(limbs: Seq<u64>, lo: nat, k: nat)
    requires
        lo <= k,
        forall|j: int| lo <= j < k ==> limb_at(limbs, j) == 0,
    ensures
        low_value(limbs, k) == low_value(limbs, lo),
    decreases k,
{
    if k > lo {
        lemma_low_value_zeros(limbs, lo, (k - 1) as nat);
        assert(limb_at(limbs, k - 1) == 0);
        assert(limb_at(limbs, k - 1) * weight((k - 1) as nat) == 0) by (nonlinear_arith)
            requires
                limb_at(limbs, k - 1) == 0,
        ;
    }
}

/// The lowest `k` limbs hold a number below `weight(k)`.
proof fn lemma_low_value_bound(limbs: Seq<u64>, k: nat)
    ensures
        low_value(limbs, k) < weight(k),
    decreases k,
{
    if k > 0 {
        let j = (k - 1) as nat;
        lemma_low_value_bound(limbs, j);
        let x = limb_at(limbs, k - 1);
        assert(x <= limb_base() - 1);
        assert(low_value(limbs, j) + x * weight(j) < limb_base() * weight(j)) by (nonlinear_arith)
            requires
                low_value(limbs, j) < weight(j),
                x <= limb_base() - 1,
        ;
    }
}

/// Taking more limbs never gives a smaller number.
proof fn lemma_low_value_monotone(limbs: Seq<u64>, k1: nat, k2: nat)
    requires
        k1 <= k2,
    ensures
        low_value(limbs, k1) <= low_value(limbs, k2),
    decreases k2,
{
    if k1 < k2 {
        lemma_low_value_monotone(limbs, k1, (k2 - 1) as nat);
    }
}

/// Writing `v` over a zero limb at `idx` adds `v * weight(idx)` to every
/// prefix that reaches past `idx`.
proof fn lemma_low_value_update(limbs: Seq<u64>, idx: int, v: u64, k: nat)
    requires
        0 <= idx < limbs.len(),
        limbs[idx] == 0,
    ensures
        low_value(limbs.update(idx, v), k) == low_value(limbs, k) + (if k > idx {
            v * weight(idx as nat)
        } else {
            0
        }),
    decreases k,
{
    let after = limbs.update(idx, v);
    if k > 0 {
        lemma_low_value_update(limbs, idx, v, (k - 1) as nat);
        if k - 1 == idx {
            assert(limb_at(after, k - 1) == v);
            assert(limb_at(limbs, k - 1) * weight((k - 1) as nat) == 0) by (nonlinear_arith)
                requires
                    limb_at(limbs, k - 1) == 0,
            ;
        } else {
            assert(limb_at(after, k - 1) == limb_at(limbs, k - 1));
        }
    }
}

/// Zero times anything is zero.
proof fn lemma_zero_product(x: int)
    ensures
        0 * x == 0,
        x * 0 == 0,
{
    assert(0 * x == 0 && x * 0 == 0) by (nonlinear_arith);
}

/// A vector holds at least what any one of its limbs counts for.
proof fn lemma_limb_counts(limbs: Seq<u64>, i: int)
    requires
        0 <= i < limbs.len(),
    ensures
        limbs_value(limbs) >= limbs[i] * weight(i as nat),
{
    lemma_low_value_monotone(limbs, (i + 1) as nat, limbs.len());
}

/// A natural number of any size.
#[derive(Debug)]
pub struct Natural {
    limbs: Vec<u64>,
}

impl View for Natural {
    type V = nat;

    closed spec fn view(&self) -> nat {
        limbs_value(self.limbs@)
    }
}

impl Natural {
    /// The number zero.
    pub fn zero() -> (out: Natural)
        ensures
            out@ == 0,
    {
        Natural { limbs: Vec::new() }
    }

    /// The number `x`.
    pub fn from_u64(x: u64) -> (out: Natural)
        ensures
            out@ == x,
    {
        let mut limbs: Vec<u64> = Vec::new();
        limbs.push(x);
        proof {
            reveal_with_fuel(low_value, 2);
            reveal_with_fuel(weight, 1);
            assert(limb_at(limbs@, 0) * weight(0) == x) by (nonlinear_arith)
                requires
                    limb_at(limbs@, 0) == x,
                    weight(0) == 1,
            ;
        }
        Natural { limbs }
    }

    /// The limbs of this number, the least significant first.
    pub fn limbs(&self) -> (limbs: &Vec<u64>)
        ensures
            limbs_value(limbs@) == self@,
    {
        &self.limbs
    }

    /// Limb `i`, zero above the last stored limb.
    fn limb(&self, i: usize) -> (x: u64)
        ensures
            x == limb_at(self.limbs@, i as int),
    {
        if i < self.limbs.len() {
            self.limbs[i]
        } else {
            0
        }
    }

    /// The product of this number and `factor`.
    pub fn scaled(&self, factor: u64) -> (out: Natural)
        ensures
            out@ == self@ * factor,
    {
        let n: usize = self.limbs.len();
        let mut limbs: Vec<u64> = Vec::new();
        let mut carry: u64 = 0;
        let mut i: usize = 0;
        proof {
            lemma_zero_product(weight(0) as int);
            lemma_zero_product(factor as int);
        }
        while i < n
            invariant
                n == self.limbs@.len(),
                i <= n,
                limbs@.len() == i,
                low_value(limbs@, i as nat) + carry * weight(i as nat) == low_value(
                    self.limbs@,
                    i as nat,
                ) * factor,
            decreases n - i,
        {
            let x: u64 = self.limbs[i];
            assert(x * factor + carry <= 0xffff_ffff_ffff_ffff * 0x1_0000_0000_0000_0000)
                by (nonlinear_arith)
                requires
                    x <= 0xffff_ffff_ffff_ffff,
                    factor <= 0xffff_ffff_ffff_ffff,
                    carry <= 0xffff_ffff_ffff_ffff,
            ;
            let t: u128 = x as u128 * factor as u128 + carry as u128;
            let lo: u64 = (t % 0x1_0000_0000_0000_0000u128) as u64;
            let hi: u64 = (t / 0x1_0000_0000_0000_0000u128) as u64;
            proof {
                let ghost before = limbs@;
                let ghost after = limbs@.push(lo);
                lemma_low_value_agree(before, after, i as nat);
                assert(limb_at(after, i as int) == lo);
                assert(limb_at(self.limbs@, i as int) == x);
                let w = weight(i as nat);
                assert(weight((i + 1) as nat) == limb_base() * w);
                assert(low_value(before, i as nat) + lo * w + hi * (limb_base() * w) == (low_value(
                    self.limbs@,
                    i as nat,
                ) + x * w) * factor) by (nonlinear_arith)
                    requires
                        low_value(before, i as nat) + carry * w == low_value(
                            self.limbs@,
                            i as nat,
                        ) * factor,
                        lo + hi * limb_base() == x * factor + carry,
                ;
            }
            limbs.push(lo);
            carry = hi;
            i += 1;
        }
        if carry != 0 {
            proof {
                lemma_low_value_agree(limbs@, limbs@.push(carry), n as nat);
            }
            limbs.push(carry);
        } else {
            assert(carry * weight(n as nat) == 0) by (nonlinear_arith)
                requires
                    carry == 0,
            ;
        }
        Natural { limbs }
    }

    /// The sum of this number and `other`.
    pub fn plus(&self, other: &Natural) -> (out: Natural)
        ensures
            out@ == self@ + other@,
    {
        let n: usize = if self.limbs.len() >= other.limbs.len() {
            self.limbs.len()
        } else {
            other.limbs.len()
        };
        let mut limbs: Vec<u64> = Vec::new();
        let mut carry: u64 = 0;
        let mut i: usize = 0;
        proof {
            lemma_zero_product(weight(0) as int);
        }
        while i < n
            invariant
                i <= n,
                limbs@.len() == i,
                carry <= 1,
                low_value(limbs@, i as nat) + carry * weight(i as nat) == low_value(
                    self.limbs@,
                    i as nat,
                ) + low_value(other.limbs@, i as nat),
            decreases n - i,
        {
            let x: u64 = self.limb(i);
            let y: u64 = other.limb(i);
            let t: u128 = x as u128 + y as u128 + carry as u128;
            let lo: u64 = (t % 0x1_0000_0000_0000_0000u128) as u64;
            let hi: u64 = (t / 0x1_0000_0000_0000_0000u128) as u64;
            proof {
                let ghost before = limbs@;
                let ghost after = limbs@.push(lo);
                lemma_low_value_agree(before, after, i as nat);
                assert(limb_at(after, i as int) == lo);
                let w = weight(i as nat);
                assert(weight((i + 1) as nat) == limb_base() * w);
                assert(low_value(before, i as nat) + lo * w + hi * (limb_base() * w) == (low_value(
                    self.limbs@,
                    i as nat,
                ) + x * w) + (low_value(other.limbs@, i as nat) + y * w)) by (nonlinear_arith)
                    requires
                        low_value(before, i as nat) + carry * w == low_value(
                            self.limbs@,
                            i as nat,
                        ) + low_value(other.limbs@, i as nat),
                        lo + hi * limb_base() == x + y + carry,
                ;
            }
            limbs.push(lo);
            carry = hi;
            i += 1;
        }
        proof {
            lemma_low_value_zeros(self.limbs@, self.limbs@.len(), n as nat);
            lemma_low_value_zeros(other.limbs@, other.limbs@.len(), n as nat);
        }
        if carry != 0 {
            proof {
                lemma_low_value_agree(limbs@, limbs@.push(carry), n as nat);
            }
            limbs.push(carry);
        } else {
            assert(carry * weight(n as nat) == 0) by (nonlinear_arith)
                requires
                    carry == 0,
            ;
        }
        Natural { limbs }
    }

    /// Whether this number is at least `other`.
    pub fn at_least(&self, other: &Natural) -> (yes: bool)
        ensures
            yes == (self@ >= other@),
    {
        let n: usize = if self.limbs.len() >= other.limbs.len() {
            self.limbs.len()
        } else {
            other.limbs.len()
        };
        let mut yes: bool = true;
        let mut i: usize = 0;
        while i < n
            invariant
                i <= n,
                yes == (low_value(self.limbs@, i as nat) >= low_value(other.limbs@, i as nat)),
            decreases n - i,
        {
            let x: u64 = self.limb(i);
            let y: u64 = other.limb(i);
            proof {
                let w = weight(i as nat);
                let a = low_value(self.limbs@, i as nat);
                let b = low_value(other.limbs@, i as nat);
                lemma_low_value_bound(self.limbs@, i as nat);
                lemma_low_value_bound(other.limbs@, i as nat);
                if x > y {
                    assert(a + x * w >= b + y * w) by (nonlinear_arith)
                        requires
                            x >= y + 1,
                            b < w,
                            a >= 0,
                    ;
                } else if x < y {
                    assert(a + x * w < b + y * w) by (nonlinear_arith)
                        requires
                            y >= x + 1,
                            a < w,
                            b >= 0,
                    ;
                }
            }
            if x > y {
                yes = true;
            } else if x < y {
                yes = false;
            }
            i += 1;
        }
        proof {
            lemma_low_value_zeros(self.limbs@, self.limbs@.len(), n as nat);
            lemma_low_value_zeros(other.limbs@, other.limbs@.len(), n as nat);
        }
        yes
    }

    /// The difference of this number and `other`, which may not be larger.
    pub fn minus(&self, other: &Natural) -> (out: Natural)
        requires
            self@ >= other@,
        ensures
            out@ == self@ - other@,
    {
        let n: usize = if self.limbs.len() >= other.limbs.len() {
            self.limbs.len()
        } else {
            other.limbs.len()
        };
        let mut limbs: Vec<u64> = Vec::new();
        let mut borrow: u64 = 0;
        let mut i: usize = 0;
        proof {
            lemma_zero_product(weight(0) as int);
        }
        while i < n
            invariant
                i <= n,
                limbs@.len() == i,
                borrow <= 1,
                low_value(limbs@, i as nat) + low_value(other.limbs@, i as nat) == low_value(
                    self.limbs@,
                    i as nat,
                ) + borrow * weight(i as nat),
            decreases n - i,
        {
            let x: u64 = self.limb(i);
            let y: u64 = other.limb(i);
            let taken: u128 = y as u128 + borrow as u128;
            let lend: u64 = if x as u128 >= taken {
                0
            } else {
                1
            };
            let t: u128 = if lend == 0 {
                x as u128 - taken
            } else {
                x as u128 + 0x1_0000_0000_0000_0000u128 - taken
            };
            let lo: u64 = t as u64;
            proof {
                let ghost before = limbs@;
                let ghost after = limbs@.push(lo);
                lemma_low_value_agree(before, after, i as nat);
                assert(limb_at(after, i as int) == lo);
                let w = weight(i as nat);
                assert(weight((i + 1) as nat) == limb_base() * w);
                assert(low_value(before, i as nat) + lo * w + (low_value(other.limbs@, i as nat) + y
                    * w) == (low_value(self.limbs@, i as nat) + x * w) + lend * (limb_base() * w))
                    by (nonlinear_arith)
                    requires
                        low_value(before, i as nat) + low_value(other.limbs@, i as nat)
                            == low_value(self.limbs@, i as nat) + borrow * w,
                        lo + y + borrow == x + lend * limb_base(),
                ;
            }
            limbs.push(lo);
            borrow = lend;
            i += 1;
        }
        proof {
            lemma_low_value_zeros(self.limbs@, self.limbs@.len(), n as nat);
            lemma_low_value_zeros(other.limbs@, other.limbs@.len(), n as nat);
            lemma_low_value_bound(limbs@, n as nat);
            if borrow != 0 {
                assert(borrow * weight(n as nat) == weight(n as nat)) by (nonlinear_arith)
                    requires
                        borrow == 1,
                ;
                assert(false);
            }
            assert(borrow * weight(n as nat) == 0) by (nonlinear_arith)
                requires
                    borrow == 0,
            ;
        }
        Natural { limbs }
    }

    /// The quotient of this number by `divisor`, rounded down.
    pub fn quotient(&self, divisor: u64) -> (out: Natural)
        requires
            divisor > 0,
        ensures
            out@ == self@ / (divisor as nat),
    {
        let n: usize = self.limbs.len();
        let mut limbs: Vec<u64> = Vec::new();
        let mut k: usize = 0;
        while k < n
            invariant
                k <= n,
                limbs@.len() == k,
                forall|j: int| 0 <= j < k ==> limbs@[j] == 0,
            decreases n - k,
        {
            limbs.push(0);
            k += 1;
        }
        proof {
            lemma_low_value_zeros(limbs@, 0, n as nat);
        }
        let mut rest: u64 = 0;
        let mut i: usize = n;
        proof {
            lemma_zero_product(weight(n as nat) as int);
            lemma_zero_product(divisor as int);
        }
        while i > 0
            invariant
                n == self.limbs@.len(),
                i <= n,
                limbs@.len() == n,
                forall|j: int| 0 <= j < i ==> limbs@[j] == 0,
                divisor > 0,
                rest < divisor,
                low_value(self.limbs@, n as nat) == divisor * low_value(limbs@, n as nat) + rest
                    * weight(i as nat) + low_value(self.limbs@, i as nat),
            decreases i,
        {
            i -= 1;
            let x: u64 = self.limbs[i];
            assert(rest * 0x1_0000_0000_0000_0000 + x < divisor * 0x1_0000_0000_0000_0000)
                by (nonlinear_arith)
                requires
                    rest + 1 <= divisor,
                    x < 0x1_0000_0000_0000_0000,
            ;
            let t: u128 = rest as u128 * 0x1_0000_0000_0000_0000u128 + x as u128;
            let d: u128 = divisor as u128;
            assert(t / d < 0x1_0000_0000_0000_0000 && t == d * (t / d) + t % d) by (nonlinear_arith)
                requires
                    t < d * 0x1_0000_0000_0000_0000,
                    d > 0,
            ;
            let q: u64 = (t / d) as u64;
            let r: u64 = (t % d) as u64;
            proof {
                let w = weight(i as nat);
                assert(weight((i + 1) as nat) == limb_base() * w);
                assert(limb_at(self.limbs@, i as int) == x);
                lemma_low_value_update(limbs@, i as int, q, n as nat);
                assert(divisor * (low_value(limbs@, n as nat) + q * w) + r * w + low_value(
                    self.limbs@,
                    i as nat,
                ) == divisor * low_value(limbs@, n as nat) + rest * (limb_base() * w) + (low_value(
                    self.limbs@,
                    i as nat,
                ) + x * w)) by (nonlinear_arith)
                    requires
                        rest * limb_base() + x == divisor * q + r,
                ;
            }
            limbs.set(i, q);
            rest = r;
        }
        proof {
            assert(rest * weight(0) == rest) by (nonlinear_arith)
                requires
                    weight(0) == 1,
            ;
            let whole = low_value(self.limbs@, n as nat) as int;
            let part = low_value(limbs@, n as nat) as int;
            assert(whole == part * divisor + rest) by (nonlinear_arith)
                requires
                    whole == divisor * part + rest,
            ;
            vstd::arithmetic::div_mod::lemma_fundamental_div_mod_converse_div(
                whole,
                divisor as int,
                part,
                rest as int,
            );
        }
        Natural { limbs }
    }

    /// Whether this number is zero.
    pub fn is_zero(&self) -> (yes: bool)
        ensures
            yes == (self@ == 0),
    {
        let n: usize = self.limbs.len();
        let mut i: usize = 0;
        while i < n
            invariant
                n == self.limbs@.len(),
                i <= n,
                forall|j: int| 0 <= j < i ==> self.limbs@[j] == 0,
            decreases n - i,
        {
            if self.limbs[i] != 0 {
                proof {
                    lemma_limb_counts(self.limbs@, i as int);
                    lemma_weight_positive(i as nat);
                    assert(self.limbs@[i as int] * weight(i as nat) >= 1) by (nonlinear_arith)
                        requires
                            self.limbs@[i as int] >= 1,
                            weight(i as nat) >= 1,
                    ;
                }
                return false;
            }
            i += 1;
        }
        proof {
            lemma_low_value_zeros(self.limbs@, 0, n as nat);
        }
        true
    }

    /// This number as a `u64`, where it fits.
    pub fn to_u64(&self) -> (out: Option<u64>)
        ensures
            match out {
                Some(x) => self@ == x,
                None => self@ > u64::MAX,
            },
    {
        let n: usize = self.limbs.len();
        if n == 0 {
            return Some(0);
        }
        let mut i: usize = 1;
        while i < n
            invariant
                n == self.limbs@.len(),
                1 <= i <= n,
                forall|j: int| 1 <= j < i ==> self.limbs@[j] == 0,
            decreases n - i,
        {
            if self.limbs[i] != 0 {
                proof {
                    lemma_limb_counts(self.limbs@, i as int);
                    lemma_weight_positive((i - 1) as nat);
                    assert(self.limbs@[i as int] * (limb_base() * weight((i - 1) as nat))
                        >= limb_base()) by (nonlinear_arith)
                        requires
                            self.limbs@[i as int] >= 1,
                            weight((i - 1) as nat) >= 1,
                            limb_base() >= 0,
                    ;
                }
                return None;
            }
            i += 1;
        }
        proof {
            lemma_low_value_zeros(self.limbs@, 1, n as nat);
            reveal_with_fuel(low_value, 2);
            assert(limb_at(self.limbs@, 0) * weight(0) == self.limbs@[0]) by (nonlinear_arith)
                requires
                    limb_at(self.limbs@, 0) == self.limbs@[0],
                    weight(0) == 1,
            ;
        }
        Some(self.limbs[0])
    }

    /// `base` to the power `exponent`.
    pub fn power(base: u64, exponent: usize) -> (out: Natural)
        ensures
            out@ == pow(base as int, exponent as nat),
    {
        let mut out: Natural = Natural::from_u64(1);
        let mut i: usize = 0;
        proof {
            lemma_pow0(base as int);
        }
        while i < exponent
            invariant
                i <= exponent,
                out@ == pow(base as int, i as nat),
            decreases exponent - i,
        {
            proof {
                lemma_pow_next(base as int, i as nat);
            }
            out = out.scaled(base);
            i += 1;
        }
        out
    }

    /// The quotient of this number by `base` to the power `exponent`,
    /// rounded down.
    pub fn quotient_by_power(self, base: u64, exponent: usize) -> (out: Natural)
        requires
            base > 0,
        ensures
            out@ == self@ as int / pow(base as int, exponent as nat),
    {
        let ghost whole: int = self@ as int;
        let mut out: Natural = self;
        let mut i: usize = 0;
        proof {
            lemma_pow0(base as int);
        }
        while i < exponent
            invariant
                i <= exponent,
                base > 0,
                whole >= 0,
                out@ == whole / pow(base as int, i as nat),
            decreases exponent - i,
        {
            proof {
                lemma_pow_next(base as int, i as nat);
                lemma_pow_positive(base as int, i as nat);
                lemma_div_denominator(whole, pow(base as int, i as nat), base as int);
            }
            out = out.quotient(base);
            i += 1;
        }
        out
    }
}

} // verus!
