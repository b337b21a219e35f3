//! The least-significant set bit of an unsigned integer.
use vstd::prelude::*;

verus! {

/// Unsigned integers whose least-significant set bit can be isolated.
pub trait LowBit: Copy {
    /// The least-significant set bit of `self`: `1 << self.trailing_zeros()`,
    /// or zero for zero.
    spec fn spec_lowbit(self) -> Self;

    /// Keeps only the rightmost one bit of `self`, computed as
    /// `self & (!self + 1)` in wrapping arithmetic.
    fn lowest_set_bit(self) -> (r: Self)
        ensures
            r == self.spec_lowbit(),
    ;
}

/// Returns the least-significant set bit of `x` (keeping only the rightmost
/// one bit of `x`), or zero if `x` is zero; equal to `1 << x.trailing_zeros()`
/// for non-zero `x`.
pub fn lowbit<T: LowBit>(x: T) -> (r: T)
    ensures
        r == x.spec_lowbit(),
{
    x.lowest_set_bit()
}

impl LowBit for u8 {
    open spec fn spec_lowbit(self) -> u8 {
        if self == 0 {
            0
        } else {
            1u8 << self.trailing_zeros()
        }
    }

    fn lowest_set_bit(self) -> (r: u8) {
        let nx = !self;
        let a = nx.wrapping_add(1);
        proof {
            let t = self.trailing_zeros();
            vstd::std_specs::bits::axiom_u8_trailing_zeros(self);
            if nx == 0xffu8 {
                assert(self == 0 && self & a == 0) by (bit_vector)
                    requires
                        nx == !self,
                        nx == 0xffu8,
                        a == 0,
                ;
            } else {
                assert(self != 0) by (bit_vector)
                    requires
                        nx == !self,
                        nx != 0xffu8,
                ;
                let tt = t as u8;
                assert(self & a == 1u8 << tt) by (bit_vector)
                    requires
                        nx == !self,
                        a == (nx + 1) as u8,
                        tt < 8,
                        (self >> tt) & 1u8 == 1u8,
                        self << vstd::prelude::sub(8u8, tt) == 0,
                ;
            }
        }
        self & a
    }
}

impl LowBit for u16 {
    open spec fn spec_lowbit(self) -> u16 {
        if self == 0 {
            0
        } else {
            1u16 << self.trailing_zeros()
        }
    }

    fn lowest_set_bit(self) -> (r: u16) {
        let nx = !self;
        let a = nx.wrapping_add(1);
        proof {
            let t = self.trailing_zeros();
            vstd::std_specs::bits::axiom_u16_trailing_zeros(self);
            if nx == 0xffffu16 {
                assert(self == 0 && self & a == 0) by (bit_vector)
                    requires
                        nx == !self,
                        nx == 0xffffu16,
                        a == 0,
                ;
            } else {
                assert(self != 0) by (bit_vector)
                    requires
                        nx == !self,
                        nx != 0xffffu16,
                ;
                let tt = t as u16;
                assert(self & a == 1u16 << tt) by (bit_vector)
                    requires
                        nx == !self,
                        a == (nx + 1) as u16,
                        tt < 16,
                        (self >> tt) & 1u16 == 1u16,
                        self << vstd::prelude::sub(16u16, tt) == 0,
                ;
            }
        }
        self & a
    }
}

impl LowBit for u32 {
    open spec fn spec_lowbit(self) -> u32 {
        if self == 0 {
            0
        } else {
            1u32 << self.trailing_zeros()
        }
    }

    fn lowest_set_bit(self) -> (r: u32) {
        let nx = !self;
        let a = nx.wrapping_add(1);
        proof {
            let t = self.trailing_zeros();
            vstd::std_specs::bits::axiom_u32_trailing_zeros(self);
            if nx == 0xffff_ffffu32 {
                assert(self == 0 && self & a == 0) by (bit_vector)
                    requires
                        nx == !self,
                        nx == 0xffff_ffffu32,
                        a == 0,
                ;
            } else {
                assert(self != 0) by (bit_vector)
                    requires
                        nx == !self,
                        nx != 0xffff_ffffu32,
                ;
                assert(self & a == 1u32 << t) by (bit_vector)
                    requires
                        nx == !self,
                        a == (nx + 1) as u32,
                        t < 32,
                        (self >> t) & 1u32 == 1u32,
                        self << vstd::prelude::sub(32u32, t) == 0,
                ;
            }
        }
        self & a
    }
}

impl LowBit for u64 {
    open spec fn spec_lowbit(self) -> u64 {
        if self == 0 {
            0
        } else {
            1u64 << self.trailing_zeros()
        }
    }

    fn lowest_set_bit(self) -> (r: u64) {
        let nx = !self;
        let a = nx.wrapping_add(1);
        proof {
            let t = self.trailing_zeros();
            vstd::std_specs::bits::axiom_u64_trailing_zeros(self);
            if nx == 0xffff_ffff_ffff_ffffu64 {
                assert(self == 0 && self & a == 0) by (bit_vector)
                    requires
                        nx == !self,
                        nx == 0xffff_ffff_ffff_ffffu64,
                        a == 0,
                ;
            } else {
                assert(self != 0) by (bit_vector)
                    requires
                        nx == !self,
                        nx != 0xffff_ffff_ffff_ffffu64,
                ;
                let tt = t as u64;
                assert(self & a == 1u64 << tt) by (bit_vector)
                    requires
                        nx == !self,
                        a == (nx + 1) as u64,
                        tt < 64,
                        (self >> tt) & 1u64 == 1u64,
                        self << vstd::prelude::sub(64u64, tt) == 0,
                ;
            }
        }
        self & a
    }
}

} // verus!
