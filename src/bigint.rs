use vstd::prelude::*;

verus! {

pub open spec fn limb_base() -> int {
    u128::MAX as int + 1
}

/// The number of bits in the binary form of `n` (0 for 0).
pub open spec fn bits(n: nat) -> nat
    decreases n,
{
    if n == 0 {
        0
    } else {
        1 + bits(n / 2)
    }
}

/// Two-limb numbers compare lexicographically.
pub proof fn lemma_limbs_lt(h1: int, l1: int, h2: int, l2: int)
    requires
        0 <= l1 < limb_base(),
        0 <= l2 < limb_base(),
    ensures
        (h1 * limb_base() + l1 < h2 * limb_base() + l2) <==> (h1 < h2 || (h1 == h2 && l1 < l2)),
{
    let b = limb_base();
    if h1 < h2 {
        assert(h1 * b + l1 < h2 * b + l2) by (nonlinear_arith)
            requires h1 < h2, 0 <= l1 < b, 0 <= l2 < b,;
    } else if h1 > h2 {
        assert(h1 * b + l1 > h2 * b + l2) by (nonlinear_arith)
            requires h1 > h2, 0 <= l1 < b, 0 <= l2 < b,;
    }
}

pub proof fn lemma_limbs_split(h1: int, l1: int, h2: int, l2: int)
    ensures
        (h1 * limb_base() + l1) - (h2 * limb_base() + l2) == (h1 - h2) * limb_base() + (l1 - l2),
        (h1 * limb_base() + l1) + (h2 * limb_base() + l2) == (h1 + h2) * limb_base() + (l1 + l2),
{
    let b = limb_base();
    assert((h1 * b + l1) - (h2 * b + l2) == (h1 - h2) * b + (l1 - l2)) by (nonlinear_arith);
    assert((h1 * b + l1) + (h2 * b + l2) == (h1 + h2) * b + (l1 + l2)) by (nonlinear_arith);
}

/// A value below `2^e` has at most `e` bits.
pub proof fn lemma_bits_bound(n: nat, e: nat)
    requires
        n < vstd::arithmetic::power2::pow2(e),
    ensures
        bits(n) <= e,
    decreases e,
{
    if e == 0 {
        vstd::arithmetic::power2::lemma2_to64();
    } else if n > 0 {
        vstd::arithmetic::power2::lemma_pow2_unfold(e);
        lemma_bits_bound(n / 2, (e - 1) as nat);
    }
}

/// A magnitude of a well-formed `Int256` is below half of `2^256`.
pub proof fn lemma_half_bound(v: U256)
    requires
        v.hi < 0x8000_0000_0000_0000_0000_0000_0000_0000,
    ensures
        2 * v@ < limb_base() * limb_base(),
{
    let b = limb_base();
    let h = 0x8000_0000_0000_0000_0000_0000_0000_0000int;
    assert(2 * (v.hi as int * b + v.lo as int) < b * b) by (nonlinear_arith)
        requires 0 <= v.hi < h, 0 <= v.lo < b, b == 2 * h,;
}

pub proof fn lemma_pow2_256()
    ensures
        vstd::arithmetic::power2::pow2(256) == limb_base() * limb_base(),
{
    let b = limb_base();
    vstd::arithmetic::power2::lemma2_to64_rest();
    vstd::arithmetic::power2::lemma_pow2_adds(64, 64);
    vstd::arithmetic::power2::lemma_pow2_adds(128, 128);
    assert(b == 0x1_0000_0000_0000_0000int * 0x1_0000_0000_0000_0000int);
}

/// The offsets of a well-formed range fit in 256 bits.
pub proof fn lemma_offset_width_bound(r: IntRange)
    requires
        r.wf(),
    ensures
        r.offset_bit_width_spec() <= 256,
{
    lemma_half_bound(r.lower.magnitude);
    lemma_half_bound(r.upper.magnitude);
    lemma_pow2_256();
    lemma_bits_bound((r.size() - 1) as nat, 256);
}

pub proof fn lemma_u256_bound(v: U256)
    ensures
        v@ < vstd::arithmetic::power2::pow2(256),
        bits(v@) <= 256,
{
    let b = limb_base();
    vstd::arithmetic::power2::lemma2_to64_rest();
    vstd::arithmetic::power2::lemma_pow2_adds(64, 64);
    vstd::arithmetic::power2::lemma_pow2_adds(128, 128);
    assert(b == 0x1_0000_0000_0000_0000int * 0x1_0000_0000_0000_0000int);
    assert(v.hi as int * b + v.lo < b * b) by (nonlinear_arith)
        requires 0 <= v.hi < b, 0 <= v.lo < b,;
    lemma_bits_bound(v@, 256);
}

/// An unsigned 256-bit integer as two 128-bit limbs.
#[derive(Clone, Copy, Debug, PartialEq, Eq, Structural)]
pub struct U256 {
    pub hi: u128,
    pub lo: u128,
}

/// A signed integer as a sign and a 256-bit magnitude.
#[derive(Clone, Copy, Debug, PartialEq, Eq, Structural)]
pub struct Int256 {
    pub negative: bool,
    pub magnitude: U256,
}

impl View for U256 {
    type V = nat;

    open spec fn view(&self) -> nat {
        (self.hi as int * limb_base() + self.lo as int) as nat
    }
}

impl View for Int256 {
    type V = int;

    open spec fn view(&self) -> int {
        if self.negative {
            -(self.magnitude@ as int)
        } else {
            self.magnitude@ as int
        }
    }
}

impl U256 {
    pub fn sub(&self, o: &U256) -> (r: U256)
        requires
            self@ >= o@,
        ensures
            r@ == self@ - o@,
    {
        proof {
            lemma_limbs_lt(self.hi as int, self.lo as int, o.hi as int, o.lo as int);
            lemma_limbs_split(self.hi as int, self.lo as int, o.hi as int, o.lo as int);
        }
        if self.lo >= o.lo {
            U256 { hi: self.hi - o.hi, lo: self.lo - o.lo }
        } else {
            U256 { hi: self.hi - o.hi - 1, lo: (u128::MAX - o.lo) + self.lo + 1 }
        }
    }

    pub fn add(&self, o: &U256) -> (r: U256)
        requires
            self@ + o@ < limb_base() * limb_base(),
        ensures
            r@ == self@ + o@,
    {
        proof {
            let b = limb_base();
            lemma_limbs_split(self.hi as int, self.lo as int, o.hi as int, o.lo as int);
            let h = self.hi + o.hi;
            if self.lo <= u128::MAX - o.lo {
                assert(h < b) by (nonlinear_arith)
                    requires h * b + (self.lo + o.lo) < b * b, self.lo + o.lo >= 0, b > 0,;
            } else {
                assert(h + 1 < b) by (nonlinear_arith)
                    requires h * b + (self.lo + o.lo) < b * b, self.lo + o.lo >= b, b > 0,;
            }
        }
        if self.lo <= u128::MAX - o.lo {
            U256 { hi: self.hi + o.hi, lo: self.lo + o.lo }
        } else {
            U256 { hi: self.hi + o.hi + 1, lo: self.lo - (u128::MAX - o.lo) - 1 }
        }
    }

    pub fn lt(&self, o: &U256) -> (r: bool)
        ensures
            r == (self@ < o@),
    {
        proof {
            lemma_limbs_lt(self.hi as int, self.lo as int, o.hi as int, o.lo as int);
        }
        self.hi < o.hi || (self.hi == o.hi && self.lo < o.lo)
    }

    /// The number of bits in the binary form of the value.
    pub fn bit_len(&self) -> (r: u32)
        ensures
            r as nat == bits(self@),
            r <= 256,
    {
        let mut hi: u128 = self.hi;
        let mut lo: u128 = self.lo;
        let mut k: u32 = 0;
        proof {
            lemma_u256_bound(*self);
        }
        while hi != 0 || lo != 0
            invariant
                bits(self@) == k + bits((hi as int * limb_base() + lo as int) as nat),
                k + bits((hi as int * limb_base() + lo as int) as nat) <= 256,
            decreases hi, lo,
        {
            let v: Ghost<nat> = Ghost((hi as int * limb_base() + lo as int) as nat);
            let nlo: u128 = lo / 2 + (hi % 2) * 0x8000_0000_0000_0000_0000_0000_0000_0000;
            let nhi: u128 = hi / 2;
            proof {
                let b = limb_base();
                let w = nhi as int * b + (hi % 2) as int * 0x8000_0000_0000_0000_0000_0000_0000_0000int + (lo / 2) as int;
                assert(v@ == 2 * w + lo % 2) by (nonlinear_arith)
                    requires
                        v@ == hi as int * b + lo as int,
                        b == 2 * 0x8000_0000_0000_0000_0000_0000_0000_0000int,
                        hi as int == 2 * (nhi as int) + (hi % 2) as int,
                        lo as int == 2 * ((lo / 2) as int) + (lo % 2) as int,
                        w == nhi as int * b + (hi % 2) as int * 0x8000_0000_0000_0000_0000_0000_0000_0000int + (lo / 2) as int,
                ;
                assert(nlo as int == (hi % 2) as int * 0x8000_0000_0000_0000_0000_0000_0000_0000int + (lo / 2) as int);
                assert(v@ / 2 == (nhi as int * b + nlo as int) as nat);
            }
            hi = nhi;
            lo = nlo;
            k = k + 1;
        }
        k
    }
}

impl Int256 {
    /// The magnitude stays below 2^255, so that differences fit in 256 bits.
    pub open spec fn wf(&self) -> bool {
        self.magnitude.hi < 0x8000_0000_0000_0000_0000_0000_0000_0000
    }

    pub fn from_i128(v: i128) -> (r: Int256)
        ensures
            r@ == v as int,
            r.wf(),
    {
        if v >= 0 {
            Int256 { negative: false, magnitude: U256 { hi: 0, lo: v as u128 } }
        } else {
            let m: u128 = if v == i128::MIN {
                0x8000_0000_0000_0000_0000_0000_0000_0000
            } else {
                (-v) as u128
            };
            Int256 { negative: true, magnitude: U256 { hi: 0, lo: m } }
        }
    }

    pub fn from_u128(v: u128) -> (r: Int256)
        ensures
            r@ == v as int,
            r.wf(),
    {
        Int256 { negative: false, magnitude: U256 { hi: 0, lo: v } }
    }

    /// `hi * 2^128 + lo`, for `hi < 2^127`.
    pub fn from_limbs(hi: u128, lo: u128) -> (r: Int256)
        requires
            hi < 0x8000_0000_0000_0000_0000_0000_0000_0000,
        ensures
            r@ == hi as int * limb_base() + lo as int,
            r.wf(),
    {
        Int256 { negative: false, magnitude: U256 { hi, lo } }
    }

    pub fn lt(&self, o: &Int256) -> (r: bool)
        ensures
            r == (self@ < o@),
    {
        proof {
            lemma_limbs_lt(0, 0, self.magnitude.hi as int, self.magnitude.lo as int);
            lemma_limbs_lt(0, 0, o.magnitude.hi as int, o.magnitude.lo as int);
        }
        let zero_self = self.magnitude.hi == 0 && self.magnitude.lo == 0;
        let zero_o = o.magnitude.hi == 0 && o.magnitude.lo == 0;
        let self_neg = self.negative && !zero_self;
        let o_neg = o.negative && !zero_o;
        if self_neg && o_neg {
            o.magnitude.lt(&self.magnitude)
        } else if self_neg {
            true
        } else if o_neg {
            false
        } else {
            self.magnitude.lt(&o.magnitude)
        }
    }
}

/// The half-open range `[lower, upper)` of an integer-like type.
#[derive(Clone, Copy, Debug, PartialEq, Eq, Structural)]
pub struct IntRange {
    pub lower: Int256,
    pub upper: Int256,
}

impl IntRange {
    pub open spec fn wf(&self) -> bool {
        self.lower.wf() && self.upper.wf() && self.lower@ < self.upper@
    }

    /// The number of values in the range.
    pub open spec fn size(&self) -> int {
        self.upper@ - self.lower@
    }

    /// The bits needed to hold every offset `x - lower` of the range.
    pub open spec fn offset_bit_width_spec(&self) -> nat {
        bits((self.size() - 1) as nat)
    }

    pub fn offset_bit_width(&self) -> (r: u32)
        requires
            self.wf(),
        ensures
            r as nat == self.offset_bit_width_spec(),
            r <= 256,
    {
        proof {
            lemma_half_bound(self.lower.magnitude);
            lemma_half_bound(self.upper.magnitude);
        }
        let one = U256 { hi: 0, lo: 1 };
        let l = &self.lower.magnitude;
        let u = &self.upper.magnitude;
        let d = if !self.lower.negative && !self.upper.negative {
            u.sub(l)
        } else if self.lower.negative && !self.upper.negative {
            u.add(l)
        } else if self.lower.negative && self.upper.negative {
            l.sub(u)
        } else {
            // a non-negative lower bound below a non-positive upper one
            u.sub(l)
        };
        let m = d.sub(&one);
        m.bit_len()
    }
}

} // verus!
