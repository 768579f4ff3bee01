use vstd::prelude::*;
use crate::error::NativeError;

verus! {

/// The largest size of an allocation: `isize::MAX` on 64-bit targets.
pub const MAX_SIZE: u64 = 0x7fff_ffff_ffff_ffff;

/// A memory layout: a size in bytes and a power-of-two alignment.
#[derive(Clone, Copy, Debug, PartialEq, Eq, Structural)]
pub struct Layout {
    pub size: u64,
    pub align: u64,
}

pub open spec fn is_pow2(a: nat) -> bool
    decreases a,
{
    if a == 1 {
        true
    } else if a < 2 || a % 2 != 0 {
        false
    } else {
        is_pow2(a / 2)
    }
}

/// `s` rounded up to the next multiple of `a`.
pub open spec fn round_up(s: nat, a: nat) -> nat {
    if a == 0 || s % a == 0 {
        s
    } else {
        (s + (a - s % a)) as nat
    }
}

/// A size and alignment that `Layout` accepts.
pub open spec fn layout_ok(size: nat, align: nat) -> bool {
    is_pow2(align) && round_up(size, align) <= MAX_SIZE
}

pub open spec fn max_nat(a: nat, b: nat) -> nat {
    if a >= b {
        a
    } else {
        b
    }
}

/// The smallest power of two `p`, at least `p0`, with `8 * p >= width`.
pub open spec fn bytes_from(width: nat, p: nat) -> nat
    decreases width - p when p >= 1
{
    if 8 * p >= width {
        p
    } else {
        bytes_from(width, 2 * p)
    }
}

/// The layout of an integer of `width` bits: none for width 0, else the
/// smallest power-of-two number of bytes that holds it, aligned to itself.
pub open spec fn integer_layout_spec(width: nat) -> Layout {
    if width == 0 {
        Layout { size: 0, align: 1 }
    } else {
        let b = bytes_from(width, 1);
        Layout { size: b as u64, align: b as u64 }
    }
}

pub open spec fn pointer_layout() -> Layout {
    Layout { size: 8, align: 8 }
}

pub open spec fn unit_layout() -> Layout {
    Layout { size: 0, align: 1 }
}

/// `extend(a, b)`: `b` placed after `a` at `b`'s alignment, and the offset of `b`.
pub open spec fn extend_spec(a: Layout, b: Layout) -> Result<(Layout, u64), NativeError> {
    let offset = round_up(a.size as nat, b.align as nat);
    let align = max_nat(a.align as nat, b.align as nat);
    if layout_ok((offset + b.size) as nat, align) {
        Ok((Layout { size: (offset + b.size) as u64, align: align as u64 }, offset as u64))
    } else {
        Err(NativeError::LayoutOverflow)
    }
}

/// `n` copies of `a` laid out back to back, and the stride between them.
pub open spec fn repeat_spec(a: Layout, n: nat) -> Result<(Layout, u64), NativeError> {
    let stride = round_up(a.size as nat, a.align as nat);
    if n == 0 {
        Ok((unit_layout(), stride as u64))
    } else if stride * n <= MAX_SIZE {
        Ok((Layout { size: (stride * n) as u64, align: a.align }, stride as u64))
    } else {
        Err(NativeError::LayoutOverflow)
    }
}

/// The layout of `size` and `align`, if they are accepted.
pub open spec fn from_size_align_spec(size: nat, align: nat) -> Result<Layout, NativeError> {
    if layout_ok(size, align) {
        Ok(Layout { size: size as u64, align: align as u64 })
    } else {
        Err(NativeError::LayoutOverflow)
    }
}

/// `a`, if it succeeded, extended by `b`, without the offset.
pub open spec fn then_extend(a: Result<Layout, NativeError>, b: Layout) -> Result<Layout, NativeError> {
    match a {
        Ok(l) => match extend_spec(l, b) {
            Ok(p) => Ok(p.0),
            Err(e) => Err(e),
        },
        Err(e) => Err(e),
    }
}

/// The layout of `n` copies of `a`, without the stride.
pub open spec fn repeated(a: Layout, n: nat) -> Result<Layout, NativeError> {
    match repeat_spec(a, n) {
        Ok(p) => Ok(p.0),
        Err(e) => Err(e),
    }
}

pub open spec fn pad_spec(a: Layout) -> Layout {
    Layout { size: round_up(a.size as nat, a.align as nat) as u64, align: a.align }
}

pub proof fn lemma_pow2_double(a: nat)
    requires
        is_pow2(a),
    ensures
        is_pow2(2 * a),
{
    assert((2 * a) / 2 == a);
}

pub proof fn lemma_pow2_pos(a: nat)
    requires
        is_pow2(a),
    ensures
        a >= 1,
{
}

pub proof fn lemma_round_up(s: nat, a: nat)
    requires
        a > 0,
    ensures
        round_up(s, a) >= s,
        round_up(s, a) < s + a,
        round_up(s, a) % a == 0,
        s % a == 0 ==> round_up(s, a) == s,
{
    if s % a != 0 {
        let q = s / a;
        vstd::arithmetic::div_mod::lemma_fundamental_div_mod(s as int, a as int);
        assert(round_up(s, a) == (q + 1) * a) by (nonlinear_arith)
            requires
                s == a * q + s % a,
                round_up(s, a) == s + (a - s % a),
        ;
        vstd::arithmetic::div_mod::lemma_mod_multiples_basic((q + 1) as int, a as int);
    }
}

/// Once padded, padding again changes nothing.
pub proof fn lemma_round_up_idem(s: nat, a: nat)
    requires
        a > 0,
    ensures
        round_up(round_up(s, a), a) == round_up(s, a),
{
    lemma_round_up(s, a);
    lemma_round_up(round_up(s, a), a);
}

impl Layout {
    pub open spec fn wf(&self) -> bool {
        layout_ok(self.size as nat, self.align as nat)
    }

    /// The size is a multiple of the alignment.
    pub open spec fn is_padded(&self) -> bool {
        self.size as nat == round_up(self.size as nat, self.align as nat)
    }

    /// A layout of `size` and `align`, if `align` is a power of two and the
    /// padded size fits.
    pub fn from_size_align(size: u64, align: u64) -> (r: Result<Layout, NativeError>)
        ensures
            r is Ok <==> layout_ok(size as nat, align as nat),
            r is Ok ==> r->Ok_0 == (Layout { size, align }),
            r is Err ==> r->Err_0 == NativeError::LayoutOverflow,
    {
        let mut a: u64 = align;
        while a > 1 && a % 2 == 0
            invariant
                is_pow2(align as nat) == is_pow2(a as nat),
            decreases a,
        {
            a = a / 2;
        }
        if a != 1 {
            return Err(NativeError::LayoutOverflow);
        }
        let rem = size % align;
        proof {
            lemma_pow2_pos(align as nat);
            lemma_round_up(size as nat, align as nat);
        }
        if rem == 0 {
            if size <= MAX_SIZE {
                Ok(Layout { size, align })
            } else {
                Err(NativeError::LayoutOverflow)
            }
        } else if size <= MAX_SIZE && align - rem <= MAX_SIZE - size {
            Ok(Layout { size, align })
        } else {
            Err(NativeError::LayoutOverflow)
        }
    }

    /// The size rounded up to a multiple of the alignment.
    pub fn pad_to_align(&self) -> (r: Layout)
        requires
            self.wf(),
        ensures
            r == pad_spec(*self),
            r.wf(),
            r.is_padded(),
    {
        proof {
            lemma_round_up(self.size as nat, self.align as nat);
            lemma_round_up_idem(self.size as nat, self.align as nat);
        }
        let rem = self.size % self.align;
        if rem == 0 {
            *self
        } else {
            Layout { size: self.size + (self.align - rem), align: self.align }
        }
    }

    /// `next` placed after `self` at its own alignment, with its offset.
    pub fn extend(&self, next: Layout) -> (r: Result<(Layout, u64), NativeError>)
        requires
            self.wf(),
            next.wf(),
        ensures
            r == extend_spec(*self, next),
            r is Ok ==> r->Ok_0.0.wf(),
    {
        proof {
            lemma_round_up(self.size as nat, self.align as nat);
            lemma_round_up(self.size as nat, next.align as nat);
        }
        let rem = self.size % next.align;
        if rem != 0 && next.align - rem > MAX_SIZE - self.size {
            proof {
                let al = max_nat(self.align as nat, next.align as nat);
                lemma_pow2_pos(al);
                lemma_round_up((round_up(self.size as nat, next.align as nat) + next.size) as nat, al);
            }
            return Err(NativeError::LayoutOverflow);
        }
        let offset: u64 = if rem == 0 {
            self.size
        } else {
            self.size + (next.align - rem)
        };
        if next.size > MAX_SIZE - offset {
            proof {
                let al = max_nat(self.align as nat, next.align as nat);
                lemma_pow2_pos(al);
                lemma_round_up((offset + next.size) as nat, al);
            }
            return Err(NativeError::LayoutOverflow);
        }
        let align = if self.align >= next.align {
            self.align
        } else {
            next.align
        };
        match Layout::from_size_align(offset + next.size, align) {
            Ok(l) => Ok((l, offset)),
            Err(e) => Err(e),
        }
    }

    /// `n` copies of `self` back to back, each padded to the alignment, with
    /// the stride between them; no copies take no space.
    pub fn repeat(&self, n: u64) -> (r: Result<(Layout, u64), NativeError>)
        requires
            self.wf(),
        ensures
            r == repeat_spec(*self, n as nat),
            r is Ok ==> r->Ok_0.0.wf() && r->Ok_0.0.is_padded(),
    {
        let padded = self.pad_to_align();
        let stride = padded.size;
        if n == 0 {
            proof {
                assert(is_pow2(1));
            }
            return Ok((Layout { size: 0, align: 1 }, stride));
        }
        match stride.checked_mul(n) {
            Some(total) => {
                if total <= MAX_SIZE {
                    proof {
                        let a = self.align as nat;
                        let k = (stride as nat) / a;
                        lemma_round_up(self.size as nat, a);
                        vstd::arithmetic::div_mod::lemma_fundamental_div_mod(stride as int, a as int);
                        assert(total as nat == (k * n as nat) * a) by (nonlinear_arith)
                            requires
                                stride as nat == a * k,
                                total as nat == stride as nat * n as nat,
                        ;
                        vstd::arithmetic::div_mod::lemma_mod_multiples_basic((k * n as nat) as int, a as int);
                        lemma_round_up(total as nat, a);
                    }
                    Ok((Layout { size: total, align: self.align }, stride))
                } else {
                    Err(NativeError::LayoutOverflow)
                }
            }
            None => Err(NativeError::LayoutOverflow),
        }
    }
}

/// The layout of an integer of `width` bits.
pub fn integer_layout(width: u64) -> (r: Layout)
    ensures
        r == integer_layout_spec(width as nat),
        r.wf(),
        r.is_padded(),
{
    if width == 0 {
        proof {
            assert(is_pow2(1));
        }
        return Layout { size: 0, align: 1 };
    }
    let mut p: u64 = 1;
    proof {
        assert(is_pow2(1));
    }
    while 8 * (p as u128) < width as u128
        invariant
            1 <= p <= 0x4000_0000_0000_0000,
            is_pow2(p as nat),
            bytes_from(width as nat, 1) == bytes_from(width as nat, p as nat),
            8 * p < 2 * width as int + 8,
        decreases width as int - p,
    {
        proof {
            lemma_pow2_double(p as nat);
        }
        p = 2 * p;
    }
    proof {
        lemma_round_up(p as nat, p as nat);
        vstd::arithmetic::div_mod::lemma_mod_self_0(p as int);
    }
    Layout { size: p, align: p }
}

/// `a`, if it succeeded, extended by `b`, without the offset.
pub fn extend_ok(a: Result<Layout, NativeError>, b: Layout) -> (r: Result<Layout, NativeError>)
    requires
        a is Ok ==> a->Ok_0.wf(),
        b.wf(),
    ensures
        r == then_extend(a, b),
        r is Ok ==> r->Ok_0.wf(),
{
    match a {
        Ok(l) => match l.extend(b) {
            Ok(p) => Ok(p.0),
            Err(e) => Err(e),
        },
        Err(e) => Err(e),
    }
}

/// The layout of `n` copies of `a`, without the stride.
pub fn repeat_layout(a: Layout, n: u64) -> (r: Result<Layout, NativeError>)
    requires
        a.wf(),
    ensures
        r == repeated(a, n as nat),
        r is Ok ==> r->Ok_0.wf(),
{
    match a.repeat(n) {
        Ok(p) => Ok(p.0),
        Err(e) => Err(e),
    }
}

/// The layout of a pointer on 64-bit targets.
pub fn pointer() -> (r: Layout)
    ensures
        r == pointer_layout(),
        r.wf(),
        r.is_padded(),
{
    proof {
        assert(is_pow2(8)) by {
            assert(is_pow2(1));
            assert(is_pow2(2));
            assert(is_pow2(4));
        }
    }
    Layout { size: 8, align: 8 }
}

/// The layout of `()`.
pub fn unit() -> (r: Layout)
    ensures
        r == unit_layout(),
        r.wf(),
        r.is_padded(),
{
    proof {
        assert(is_pow2(1));
    }
    Layout { size: 0, align: 1 }
}

} // verus!
