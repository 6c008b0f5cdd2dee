//! Small arithmetic utilities shared by the sizing and dispatch logic.

use vstd::prelude::*;

verus! {

/// Number of bytes a value of type `T` occupies, as the 64-bit count the
/// buffer-size arithmetic works in.
pub fn size_of<T>() -> (r: u64)
    ensures
        r == vstd::layout::size_of::<T>(),
{
    core::mem::size_of::<T>() as u64
}

/// Quotient of `a` by `b`, rounded towards positive infinity.
pub open spec fn spec_ceil_div(a: int, b: int) -> int {
    (a + b - 1) / b
}

/// Quotient of `a` by `b`, rounded towards positive infinity.
pub fn ceil_div(a: u32, b: u64) -> (r: u32)
    requires
        b > 0,
    ensures
        r == spec_ceil_div(a as int, b as int),
{
    if a == 0 {
        assert((b - 1) as int / b as int == 0) by {
            vstd::arithmetic::div_mod::lemma_basic_div((b - 1) as int, b as int);
        }
        0
    } else {
        let q: u64 = (a as u64 - 1) / b;
        assert(1 + (a - 1) as int / b as int == (b + (a - 1)) as int / b as int) by {
            vstd::arithmetic::div_mod::lemma_div_plus_one((a - 1) as int, b as int);
        }
        assert(q < a as u64) by {
            vstd::arithmetic::div_mod::lemma_div_nonincreasing((a - 1) as int, b as int);
        }
        (q + 1) as u32
    }
}

/// Quotient of `a` by `b`, rounded towards negative infinity.
pub fn floor_div(a: usize, b: usize) -> (r: usize)
    requires
        b > 0,
    ensures
        r == a as int / b as int,
{
    a / b
}

/// An element-wise copy of a vector of plain values.
pub fn copy_vec<T: Copy>(src: &Vec<T>) -> (r: Vec<T>)
    ensures
        r@ == src@,
{
    let mut v: Vec<T> = Vec::new();
    let mut i: usize = 0;
    while i < src.len()
        invariant
            0 <= i <= src@.len(),
            v@ == src@.subrange(0, i as int),
        decreases src@.len() - i,
    {
        v.push(src[i]);
        assert(v@ =~= src@.subrange(0, i + 1));
        i = i + 1;
    }
    assert(v@ =~= src@);
    v
}

/// Yields the powers of two that lie strictly below a target, in increasing
/// order, starting from 1.
pub struct IterPow2 {
    current: usize,
    target: usize,
}

impl IterPow2 {
    /// The next value this iterator will consider.
    pub closed spec fn spec_current(self) -> usize {
        self.current
    }

    /// The exclusive upper bound of the iteration.
    pub closed spec fn spec_target(self) -> usize {
        self.target
    }

    /// All powers of two below `end` will be yielded, starting from 1.
    pub fn range(end: usize) -> (r: Self)
        ensures
            r.spec_current() == 1,
            r.spec_target() == end,
    {
        IterPow2 { current: 1, target: end }
    }

    /// Yields the current value and doubles it, or ends once the target is
    /// reached. Doubling saturates at `usize::MAX` so that the iteration
    /// always terminates.
    pub fn next(&mut self) -> (r: Option<usize>)
        ensures
            final (self).spec_target() == old(self).spec_target(),
            old(self).spec_current() >= old(self).spec_target() ==> r is None
                && final (self).spec_current() == old(self).spec_current(),
            old(self).spec_current() < old(self).spec_target() ==> r == Some(
                old(self).spec_current(),
            ) && final (self).spec_current() == if old(self).spec_current() <= usize::MAX / 2 {
                2 * old(self).spec_current()
            } else {
                usize::MAX as int
            },
    {
        if self.current >= self.target {
            return None;
        }
        let prev = self.current;
        if self.current <= usize::MAX / 2 {
            self.current = self.current + self.current;
        } else {
            self.current = usize::MAX;
        }
        Some(prev)
    }
}

} // verus!
