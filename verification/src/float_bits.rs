//! The bit pattern of a single-precision number, split into its fields.
use vstd::prelude::*;
use vstd::std_specs::convert::FromSpecImpl;

verus! {

/// Sign, biased exponent and fraction of a 32-bit pattern: 1, 8 and 23 bits,
/// most significant first. Its view is the three as a tuple.
#[allow(non_camel_case_types)]
#[derive(Debug, Clone, Copy)]
pub struct PARTSU32(u32, u32, u32);

impl View for PARTSU32 {
    type V = (u32, u32, u32);

    closed spec fn view(&self) -> (u32, u32, u32) {
        (self.0, self.1, self.2)
    }
}

proof fn lemma_field_bits(bits: u32)
    by (bit_vector)
    ensures
        (bits >> 31) & 1 == bits / 0x8000_0000,
        (bits >> 23) & 0xff == bits / 0x80_0000 % 256,
        bits & 0x7fffff == bits % 0x80_0000,
{
}

proof fn lemma_fields_whole(bits: u32)
    by (bit_vector)
    ensures
        (bits / 0x8000_0000) * 0x8000_0000 + (bits / 0x80_0000 % 256) * 0x80_0000 + bits
            % 0x80_0000 == bits,
        bits / 0x8000_0000 <= 1,
{
}

impl PARTSU32 {
    /// The fields of `bits`.
    pub open spec fn of(bits: u32) -> (u32, u32, u32) {
        (
            (bits / 0x8000_0000) as u32,
            (bits / 0x80_0000 % 256) as u32,
            (bits % 0x80_0000) as u32,
        )
    }

    /// The three fields put side by side are the pattern that they were
    /// split from: the split loses nothing.
    pub proof fn lemma_of_is_whole(bits: u32)
        ensures
            ({
                let (sign, exponent, fraction) = PARTSU32::of(bits);
                &&& sign * 0x8000_0000 + exponent * 0x80_0000 + fraction == bits
                &&& sign <= 1
                &&& exponent < 256
                &&& fraction < 0x80_0000
            }),
    {
        lemma_fields_whole(bits);
    }

    /// The sign bit: 1 for a negative number.
    pub fn sign(&self) -> (sign: u32)
        ensures
            sign == self@.0,
    {
        self.0
    }

    /// The exponent as stored, with its bias.
    pub fn exponent(&self) -> (exponent: u32)
        ensures
            exponent == self@.1,
    {
        self.1
    }

    /// The fraction: the 23 bits that follow the implicit leading one.
    pub fn fraction(&self) -> (fraction: u32)
        ensures
            fraction == self@.2,
    {
        self.2
    }
}

impl FromSpecImpl<u32> for PARTSU32 {
    open spec fn obeys_from_spec() -> bool {
        true
    }

    closed spec fn from_spec(bits: u32) -> PARTSU32 {
        PARTSU32(PARTSU32::of(bits).0, PARTSU32::of(bits).1, PARTSU32::of(bits).2)
    }
}

/// Splits a bit pattern into sign, exponent and fraction.
impl From<u32> for PARTSU32 {
    fn from(bits: u32) -> (parts: PARTSU32)
        ensures
            parts@ == PARTSU32::of(bits),
    {
        proof {
            lemma_field_bits(bits);
        }
        let sign = (bits >> 31) & 1;
        let exponent = (bits >> 23) & 0xff;
        let fraction = bits & 0x7fffff;
        PARTSU32(sign, exponent, fraction)
    }
}

} // verus!
