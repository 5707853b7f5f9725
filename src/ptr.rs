use vstd::prelude::*;

verus! {

/// Sixteen-bit addition on the ring of addresses: the sum of `a` and `d`
/// modulo 65536.
pub open spec fn add16(a: u16, d: int) -> u16 {
    ((a as int + d) % 65536) as u16
}

/// Two offsets applied one after the other are one offset by their sum.
pub proof fn lemma_add16_add16(a: u16, x: int, y: int)
    ensures
        add16(add16(a, x), y) == add16(a, x + y),
{
    vstd::arithmetic::div_mod::lemma_add_mod_noop_right(y, a as int + x, 65536);
    vstd::arithmetic::div_mod::lemma_mod_bound(a as int + x, 65536);
}

/// An offset of zero leaves an address as it is.
pub proof fn lemma_add16_zero(a: u16)
    ensures
        add16(a, 0) == a,
{
    vstd::arithmetic::div_mod::lemma_small_mod(a as nat, 65536);
}

/// An offset that stays within the address space is plain addition.
pub broadcast proof fn lemma_add16_plain(a: u16, d: int)
    requires
        0 <= a + d < 65536,
    ensures
        #[trigger] add16(a, d) == a + d,
{
    vstd::arithmetic::div_mod::lemma_small_mod((a + d) as nat, 65536);
}

/// Adds two sixteen-bit values, wrapping around at 65536.
pub fn wrap_add(a: u16, b: u16) -> (r: u16)
    ensures
        r == add16(a, b as int),
{
    a.wrapping_add(b)
}

/// Subtracts `b` from `a`, wrapping around at 65536.
pub fn wrap_sub(a: u16, b: u16) -> (r: u16)
    ensures
        r == add16(a, -(b as int)),
{
    a.wrapping_sub(b)
}

/// An address in the machine's sixteen-bit address space. Arithmetic on it
/// wraps around; bounds are checked by the machine's accessors.
#[derive(Clone, Copy, Debug, PartialEq, Eq, Structural)]
pub struct Ptr(pub u16);

impl Ptr {
    /// The address `delta` bytes after this one.
    pub fn offset(self, delta: u16) -> (r: Ptr)
        ensures
            r.0 == add16(self.0, delta as int),
    {
        Ptr(wrap_add(self.0, delta))
    }

    /// Advances the address by one and returns the address it held before.
    pub fn inc(&mut self) -> (r: Ptr)
        ensures
            r == *old(self),
            final(self).0 == add16(old(self).0, 1),
    {
        self.inc_by(1)
    }

    /// Advances the address by `delta` and returns the address it held before.
    pub fn inc_by(&mut self, delta: u16) -> (r: Ptr)
        ensures
            r == *old(self),
            final(self).0 == add16(old(self).0, delta as int),
    {
        let prev = *self;
        *self = prev.offset(delta);
        prev
    }
}

} // verus!
