//! Twelve-bit memory addresses, held as three nibbles.
use crate::opcodes::{BYTE, NIBBLE};
use std::cmp::Ordering;
use std::ops::{Add, AddAssign, Sub, SubAssign};
use vstd::arithmetic::div_mod::{
    lemma_add_mod_noop_right, lemma_mod_multiples_vanish, lemma_sub_mod_noop_right,
};
use vstd::prelude::*;
use vstd::std_specs::cmp::{PartialEqSpecImpl, PartialOrdSpecImpl};
use vstd::std_specs::convert::FromSpecImpl;
use vstd::std_specs::ops::{AddSpecImpl, SubSpecImpl};

verus! {

/// Number of addressable bytes; every address is below it.
pub const ADDRESS_SPACE: usize = 4096;

/// A position in memory: the nibbles of a 12-bit value, most significant
/// first. Its view is that value.
#[derive(Debug, Clone, Copy)]
pub struct Address(u8, u8, u8);

/// The value of three nibbles, most significant first. Only the low four
/// bits of each count.
#[verifier::opaque]
closed spec fn join(a: u8, b: u8, c: u8) -> nat {
    ((a % 16) * 256 + (b % 16) * 16 + c % 16) as nat
}

impl View for Address {
    type V = nat;

    closed spec fn view(&self) -> nat {
        join(self.0, self.1, self.2)
    }
}

proof fn lemma_low_nibble(b: u8)
    by (bit_vector)
    ensures
        b & 0x0F == b % 16,
        b % 16 < 16,
        (b % 16) % 16 == b % 16,
{
}

proof fn lemma_split_bits(n: u16)
    by (bit_vector)
    ensures
        (n & 0x0F00) >> 8 == n / 256 % 16,
        (n & 0x00F0) >> 4 == n / 16 % 16,
        n & 0x000F == n % 16,
        (n % 4096) / 256 % 16 == n / 256 % 16,
        (n % 4096) / 16 % 16 == n / 16 % 16,
        (n % 4096) % 16 == n % 16,
        n / 256 % 16 < 16,
        n / 16 % 16 < 16,
        n % 16 < 16,
{
}

proof fn lemma_split_value(n: u16)
    by (bit_vector)
    ensures
        ((n / 256 % 16) as u8 % 16) * 256 + ((n / 16 % 16) as u8 % 16) * 16 + (n % 16) as u8 % 16
            == n % 4096,
{
}

proof fn lemma_digits(a: u8, b: u8, c: u8)
    by (bit_vector)
    requires
        a < 16,
        b < 16,
        c < 16,
    ensures
        (a * 256 + b * 16 + c) / 256 == a,
        (a * 256 + b * 16 + c) / 16 % 16 == b,
        (a * 256 + b * 16 + c) % 16 == c,
        a * 256 + b * 16 + c < 4096,
{
}

proof fn lemma_order(a: u8, b: u8, c: u8, d: u8, e: u8, f: u8)
    by (bit_vector)
    requires
        a < 16,
        b < 16,
        c < 16,
        d < 16,
        e < 16,
        f < 16,
    ensures
        (a * 256 + b * 16 + c == d * 256 + e * 16 + f) <==> (a == d && b == e && c == f),
        (a * 256 + b * 16 + c < d * 256 + e * 16 + f) <==> (a < d || (a == d && (b < e || (b == e
            && c < f)))),
{
}

proof fn lemma_join_bits(a: u8, b: u8, c: u8)
    by (bit_vector)
    requires
        a < 16,
        b < 16,
        c < 16,
    ensures
        (a as u16) << 8 | (b as u16) << 4 | (c as u16) == a * 256 + b * 16 + c,
{
}

proof fn lemma_join_small(a: u8, b: u8, c: u8)
    requires
        a < 16,
        b < 16,
        c < 16,
    ensures
        join(a, b, c) == a * 256 + b * 16 + c,
{
    reveal(join);
    assert(a % 16 == a && b % 16 == b && c % 16 == c);
}

proof fn lemma_join_reduces(a: u8, b: u8, c: u8)
    ensures
        join(a, b, c) == (a % 16) * 256 + (b % 16) * 16 + c % 16,
        join(a, b, c) < 4096,
{
    reveal(join);
    assert(a % 16 < 16 && b % 16 < 16 && c % 16 < 16);
}

impl Address {
    #[verifier::type_invariant]
    closed spec fn inv(self) -> bool {
        self.0 < 16 && self.1 < 16 && self.2 < 16
    }

    closed spec fn split(n: u16) -> Address {
        Address((n / 256 % 16) as u8, (n / 16 % 16) as u8, (n % 16) as u8)
    }

    proof fn lemma_split(n: u16)
        ensures
            Address::split(n)@ == n % 4096,
    {
        reveal(join);
        lemma_split_value(n);
    }

    /// The address whose value is `v` reduced modulo the address space.
    pub closed spec fn at(v: int) -> Address {
        Address::split((v % 4096) as u16)
    }

    /// Every address lies inside the address space.
    pub proof fn lemma_in_range(self)
        ensures
            self@ < ADDRESS_SPACE,
    {
        lemma_join_reduces(self.0, self.1, self.2);
    }

    /// `at` reduces its argument modulo the address space.
    pub proof fn lemma_at(v: int)
        ensures
            Address::at(v)@ == v % 4096,
    {
        let n = (v % 4096) as u16;
        Address::lemma_split(n);
        assert(n % 4096 == n);
    }

    /// The three nibbles, most significant first.
    pub fn nibbles(&self) -> (n: (u8, u8, u8))
        ensures
            n.0 == self@ / 256,
            n.1 == self@ / 16 % 16,
            n.2 == self@ % 16,
    {
        proof {
            use_type_invariant(self);
            lemma_join_small(self.0, self.1, self.2);
            lemma_digits(self.0, self.1, self.2);
        }
        (self.0, self.1, self.2)
    }

    fn value(&self) -> (v: u16)
        ensures
            v == self@,
            v < 4096,
    {
        proof {
            use_type_invariant(self);
            lemma_join_small(self.0, self.1, self.2);
            lemma_join_bits(self.0, self.1, self.2);
            lemma_digits(self.0, self.1, self.2);
        }
        (self.0 as u16) << BYTE | (self.1 as u16) << NIBBLE | (self.2 as u16)
    }
}

impl FromSpecImpl<(&u8, &u8, &u8)> for Address {
    open spec fn obeys_from_spec() -> bool {
        true
    }

    closed spec fn from_spec(nibbles: (&u8, &u8, &u8)) -> Address {
        Address((*nibbles.0 % 16) as u8, (*nibbles.1 % 16) as u8, (*nibbles.2 % 16) as u8)
    }
}

/// An address from three nibbles, most significant first. Only the low four
/// bits of each are kept.
impl From<(&u8, &u8, &u8)> for Address {
    fn from(nibbles: (&u8, &u8, &u8)) -> (a: Address)
        ensures
            a@ == (*nibbles.0 % 16) * 256 + (*nibbles.1 % 16) * 16 + *nibbles.2 % 16,
    {
        proof {
            lemma_low_nibble(*nibbles.0);
            lemma_low_nibble(*nibbles.1);
            lemma_low_nibble(*nibbles.2);
            lemma_join_reduces(
                (*nibbles.0 % 16) as u8,
                (*nibbles.1 % 16) as u8,
                (*nibbles.2 % 16) as u8,
            );
        }
        Address(*nibbles.0 & 0x0F, *nibbles.1 & 0x0F, *nibbles.2 & 0x0F)
    }
}

impl FromSpecImpl<u16> for Address {
    open spec fn obeys_from_spec() -> bool {
        true
    }

    open spec fn from_spec(n: u16) -> Address {
        Address::at(n as int)
    }
}

/// The address `n` modulo the address space.
impl From<u16> for Address {
    fn from(n: u16) -> (a: Address)
        ensures
            a@ == n % 4096,
    {
        proof {
            lemma_split_bits(n);
            Address::lemma_split(n);
            assert(Address::at(n as int) == Address::split(n)) by {
                let m = (n % 4096) as u16;
                assert(m / 256 % 16 == n / 256 % 16);
                assert(m / 16 % 16 == n / 16 % 16);
                assert(m % 16 == n % 16);
            }
        }
        Address(
            ((n & 0x0F00) >> BYTE) as u8,
            ((n & 0x00F0) >> NIBBLE) as u8,
            (n & 0x000F) as u8,
        )
    }
}

impl FromSpecImpl<usize> for Address {
    open spec fn obeys_from_spec() -> bool {
        true
    }

    open spec fn from_spec(n: usize) -> Address {
        Address::at(n as int)
    }
}

/// The address `n` modulo the address space.
impl From<usize> for Address {
    fn from(n: usize) -> (a: Address)
        ensures
            a@ == n % 4096,
    {
        let low: u16 = (n % ADDRESS_SPACE) as u16;
        proof {
            lemma_split_bits(low);
            Address::lemma_split(low);
            assert(low % 4096 == low);
        }
        Address(
            ((low & 0x0F00) >> BYTE) as u8,
            ((low & 0x00F0) >> NIBBLE) as u8,
            (low & 0x000F) as u8,
        )
    }
}

impl FromSpecImpl<Address> for u16 {
    open spec fn obeys_from_spec() -> bool {
        true
    }

    open spec fn from_spec(constant: Address) -> u16 {
        constant@ as u16
    }
}

impl From<Address> for u16 {
    fn from(constant: Address) -> (n: u16)
        ensures
            n == constant@,
    {
        constant.value()
    }
}

impl FromSpecImpl<Address> for usize {
    open spec fn obeys_from_spec() -> bool {
        true
    }

    open spec fn from_spec(constant: Address) -> usize {
        constant@ as usize
    }
}

impl From<Address> for usize {
    fn from(constant: Address) -> (n: usize)
        ensures
            n == constant@,
    {
        constant.value() as usize
    }
}

impl FromSpecImpl<&Address> for usize {
    open spec fn obeys_from_spec() -> bool {
        true
    }

    open spec fn from_spec(constant: &Address) -> usize {
        constant@ as usize
    }
}

impl From<&Address> for usize {
    fn from(constant: &Address) -> (n: usize)
        ensures
            n == constant@,
    {
        constant.value() as usize
    }
}

impl AddSpecImpl<u16> for Address {
    open spec fn obeys_add_spec() -> bool {
        true
    }

    open spec fn add_req(self, other: u16) -> bool {
        true
    }

    open spec fn add_spec(self, other: u16) -> Address {
        Address::at(self@ + other)
    }
}

/// The address `other` bytes further on, wrapping at the end of the address
/// space.
impl Add<u16> for Address {
    type Output = Address;

    fn add(self, other: u16) -> (a: Address)
        ensures
            a@ == (self@ + other) % 4096,
    {
        let s: u16 = self.value();
        proof {
            lemma_add_mod_noop_right(s as int, other as int, 4096);
        }
        Address::from((s + other % 0x1000) % 0x1000)
    }
}

impl AddAssign<u16> for Address {
    fn add_assign(&mut self, other: u16)
        ensures
            final(self)@ == (old(self)@ + other) % 4096,
    {
        *self = *self + other;
    }
}

impl SubSpecImpl<u16> for Address {
    open spec fn obeys_sub_spec() -> bool {
        true
    }

    open spec fn sub_req(self, other: u16) -> bool {
        true
    }

    open spec fn sub_spec(self, other: u16) -> Address {
        Address::at(self@ - other)
    }
}

/// The address `other` bytes back, wrapping at the start of the address
/// space.
impl Sub<u16> for Address {
    type Output = Address;

    fn sub(self, other: u16) -> (a: Address)
        ensures
            a@ == (self@ - other) % 4096,
    {
        let s: u16 = self.value();
        proof {
            lemma_mod_multiples_vanish(1, s - other % 4096, 4096);
            lemma_sub_mod_noop_right(s as int, other as int, 4096);
        }
        Address::from((s + 0x1000 - other % 0x1000) % 0x1000)
    }
}

impl SubAssign<u16> for Address {
    fn sub_assign(&mut self, other: u16)
        ensures
            final(self)@ == (old(self)@ - other) % 4096,
    {
        *self = *self - other;
    }
}

impl AddSpecImpl<usize> for Address {
    open spec fn obeys_add_spec() -> bool {
        true
    }

    open spec fn add_req(self, other: usize) -> bool {
        true
    }

    open spec fn add_spec(self, other: usize) -> Address {
        Address::at(self@ + other)
    }
}

/// The address `other` bytes further on, wrapping at the end of the address
/// space.
impl Add<usize> for Address {
    type Output = Address;

    fn add(self, other: usize) -> (a: Address)
        ensures
            a@ == (self@ + other) % 4096,
    {
        let s: usize = self.value() as usize;
        proof {
            lemma_add_mod_noop_right(s as int, other as int, 4096);
        }
        Address::from((s + other % ADDRESS_SPACE) % ADDRESS_SPACE)
    }
}

impl AddAssign<usize> for Address {
    fn add_assign(&mut self, other: usize)
        ensures
            final(self)@ == (old(self)@ + other) % 4096,
    {
        *self = *self + other;
    }
}

impl SubSpecImpl<usize> for Address {
    open spec fn obeys_sub_spec() -> bool {
        true
    }

    open spec fn sub_req(self, other: usize) -> bool {
        true
    }

    open spec fn sub_spec(self, other: usize) -> Address {
        Address::at(self@ - other)
    }
}

/// The address `other` bytes back, wrapping at the start of the address
/// space.
impl Sub<usize> for Address {
    type Output = Address;

    fn sub(self, other: usize) -> (a: Address)
        ensures
            a@ == (self@ - other) % 4096,
    {
        let s: usize = self.value() as usize;
        proof {
            lemma_mod_multiples_vanish(1, s - other % 4096, 4096);
            lemma_sub_mod_noop_right(s as int, other as int, 4096);
        }
        Address::from((s + ADDRESS_SPACE - other % ADDRESS_SPACE) % ADDRESS_SPACE)
    }
}

impl SubAssign<usize> for Address {
    fn sub_assign(&mut self, other: usize)
        ensures
            final(self)@ == (old(self)@ - other) % 4096,
    {
        *self = *self - other;
    }
}

impl PartialEqSpecImpl for Address {
    open spec fn obeys_eq_spec() -> bool {
        true
    }

    open spec fn eq_spec(&self, other: &Address) -> bool {
        self@ == other@
    }
}

/// Addresses are equal when their values are.
impl PartialEq for Address {
    fn eq(&self, other: &Address) -> (r: bool) {
        proof {
            use_type_invariant(self);
            use_type_invariant(other);
            lemma_join_small(self.0, self.1, self.2);
            lemma_join_small(other.0, other.1, other.2);
            lemma_order(self.0, self.1, self.2, other.0, other.1, other.2);
        }
        self.0 == other.0 && self.1 == other.1 && self.2 == other.2
    }
}

impl PartialEqSpecImpl<usize> for Address {
    open spec fn obeys_eq_spec() -> bool {
        true
    }

    open spec fn eq_spec(&self, other: &usize) -> bool {
        self@ == *other
    }
}

/// An address equals an integer when its value does.
impl PartialEq<usize> for Address {
    fn eq(&self, other: &usize) -> (r: bool) {
        let s: usize = self.into();
        s == *other
    }
}

impl PartialOrdSpecImpl for Address {
    open spec fn obeys_partial_cmp_spec() -> bool {
        true
    }

    open spec fn partial_cmp_spec(&self, other: &Address) -> Option<Ordering> {
        if self@ < other@ {
            Some(Ordering::Less)
        } else if self@ == other@ {
            Some(Ordering::Equal)
        } else {
            Some(Ordering::Greater)
        }
    }
}

/// Addresses are ordered by their values.
impl PartialOrd for Address {
    fn partial_cmp(&self, other: &Address) -> (r: Option<Ordering>) {
        proof {
            use_type_invariant(self);
            use_type_invariant(other);
            lemma_join_small(self.0, self.1, self.2);
            lemma_join_small(other.0, other.1, other.2);
            lemma_order(self.0, self.1, self.2, other.0, other.1, other.2);
        }
        if self.0 < other.0 {
            Some(Ordering::Less)
        } else if self.0 > other.0 {
            Some(Ordering::Greater)
        } else if self.1 < other.1 {
            Some(Ordering::Less)
        } else if self.1 > other.1 {
            Some(Ordering::Greater)
        } else if self.2 < other.2 {
            Some(Ordering::Less)
        } else if self.2 > other.2 {
            Some(Ordering::Greater)
        } else {
            Some(Ordering::Equal)
        }
    }
}

} // verus!
