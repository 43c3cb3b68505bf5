//! Sums and scaled comparisons of 128-bit amounts that stay exact where a
//! 128-bit register would overflow.

use vstd::prelude::*;

verus! {

/// Two to the power 64.
pub open spec fn limb() -> int {
    0x1_0000_0000_0000_0000
}

/// A total of 128-bit amounts: `carries` times two to the power 128, plus `low`.
#[derive(Clone, Copy, Debug)]
pub struct WideSum {
    pub carries: u64,
    pub low: u128,
}

impl WideSum {
    /// The number that the sum stands for.
    pub open spec fn value(self) -> nat {
        (self.carries * limb() * limb() + self.low) as nat
    }

    pub fn zero() -> (s: WideSum)
        ensures
            s.value() == 0,
    {
        WideSum { carries: 0, low: 0 }
    }

    pub fn from_amount(amount: u128) -> (s: WideSum)
        ensures
            s.value() == amount,
    {
        WideSum { carries: 0, low: amount }
    }

    /// Adds `amount` to the total.
    pub fn add(&mut self, amount: u128)
        requires
            old(self).carries < u64::MAX,
        ensures
            final(self).value() == old(self).value() + amount,
            final(self).carries <= old(self).carries + 1,
    {
        match self.low.checked_add(amount) {
            Some(sum) => {
                self.low = sum;
            },
            None => {
                self.low = self.low.wrapping_add(amount);
                self.carries = self.carries + 1;
            },
        }
    }

    /// Whether the total times `factor` reaches `bar` times `bar_factor`.
    pub fn scaled_reaches(&self, factor: u32, bar: u128, bar_factor: u32) -> (r: bool)
        ensures
            r == (self.value() * factor >= bar * bar_factor),
    {
        let base: u128 = 0x1_0000_0000_0000_0000;
        let m: u128 = factor as u128;
        let n: u128 = bar_factor as u128;
        let l0: u128 = self.low % base;
        let l1: u128 = self.low / base;
        let c: u128 = self.carries as u128;
        let b0: u128 = bar % base;
        let b1: u128 = bar / base;
        assert(l0 * m <= 0xffff_ffff_ffff_ffff * 0xffff_ffff) by (nonlinear_arith)
            requires
                l0 <= 0xffff_ffff_ffff_ffff,
                m <= 0xffff_ffff,
        ;
        assert(l1 * m <= 0xffff_ffff_ffff_ffff * 0xffff_ffff) by (nonlinear_arith)
            requires
                l1 <= 0xffff_ffff_ffff_ffff,
                m <= 0xffff_ffff,
        ;
        assert(c * m <= 0xffff_ffff_ffff_ffff * 0xffff_ffff) by (nonlinear_arith)
            requires
                c <= 0xffff_ffff_ffff_ffff,
                m <= 0xffff_ffff,
        ;
        assert(b0 * n <= 0xffff_ffff_ffff_ffff * 0xffff_ffff) by (nonlinear_arith)
            requires
                b0 <= 0xffff_ffff_ffff_ffff,
                n <= 0xffff_ffff,
        ;
        assert(b1 * n <= 0xffff_ffff_ffff_ffff * 0xffff_ffff) by (nonlinear_arith)
            requires
                b1 <= 0xffff_ffff_ffff_ffff,
                n <= 0xffff_ffff,
        ;
        let a0: u128 = l0 * m;
        let a1: u128 = l1 * m + a0 / base;
        let a2: u128 = c * m + a1 / base;
        let x0: u128 = a0 % base;
        let x1: u128 = a1 % base;
        let c0: u128 = b0 * n;
        let c1: u128 = b1 * n + c0 / base;
        let y0: u128 = c0 % base;
        let y1: u128 = c1 % base;
        let y2: u128 = c1 / base;
        proof {
            let big = limb();
            let left = a2 * big * big + x1 * big + x0;
            let right = y2 * big * big + y1 * big + y0;
            assert(self.value() * factor == (c * m) * big * big + (l1 * m) * big + l0 * m)
                by (nonlinear_arith)
                requires
                    self.value() == c * big * big + l1 * big + l0,
                    factor == m,
            ;
            assert(bar * bar_factor == (b1 * n) * big + b0 * n) by (nonlinear_arith)
                requires
                    bar == b1 * big + b0,
                    bar_factor == n,
            ;
            assert(left == self.value() * factor);
            assert(right == bar * bar_factor);
        }
        if a2 != y2 {
            a2 > y2
        } else if x1 != y1 {
            x1 > y1
        } else {
            x0 >= y0
        }
    }
}

} // verus!
