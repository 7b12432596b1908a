//! The identifier value: sixteen bytes, compared byte by byte.

use vstd::prelude::*;

verus! {

/// The layout family of an identifier, decided by the top bits of byte 8.
#[derive(Clone, Copy, Debug, PartialEq, Eq, Structural)]
pub enum Variant {
    /// Top bit `0`.
    NCS,
    /// Top two bits `10`.
    DCE,
    /// Top three bits `110`.
    Microsoft,
    /// Top three bits `111`.
    Unknown,
}

/// A 128-bit identifier, held as sixteen bytes in RFC 4122 field order.
#[derive(Clone, Copy, Debug, Eq)]
pub struct UUID {
    value: [u8; 16],
}

impl View for UUID {
    type V = Seq<u8>;

    closed spec fn view(&self) -> Seq<u8> {
        self.value@
    }
}

/// The sixteen zero bytes of the null identifier.
pub open spec fn null_bytes() -> Seq<u8> {
    Seq::new(16, |i: int| 0u8)
}

/// The version that sixteen bytes carry: the high nibble of byte 6, a number
/// from 0 to 15. No version is refused.
pub open spec fn version_of(bytes: Seq<u8>) -> int {
    bytes[6] as int / 16
}

/// The variant that sixteen bytes carry, read from the top bits of byte 8,
/// one bit more at each step: top bit `0`, top two bits `10`, top three bits
/// `110`, and what is left, `111`.
pub open spec fn variant_of(bytes: Seq<u8>) -> Variant {
    let b = bytes[8];
    if b / 128 == 0 {
        Variant::NCS
    } else if b / 64 == 2 {
        Variant::DCE
    } else if b / 32 == 6 {
        Variant::Microsoft
    } else {
        Variant::Unknown
    }
}

impl PartialEq for UUID {
    /// Byte-wise comparison of all sixteen bytes.
    fn eq(&self, other: &UUID) -> (r: bool) {
        let mut i: usize = 0;
        while i < 16
            invariant
                i <= 16,
                forall|j: int| 0 <= j < i ==> self.value@[j] == other.value@[j],
            decreases 16 - i,
        {
            if self.value[i] != other.value[i] {
                return false;
            }
            i += 1;
        }
        assert(self.value@ =~= other.value@);
        true
    }
}

impl vstd::std_specs::cmp::PartialEqSpecImpl for UUID {
    open spec fn obeys_eq_spec() -> bool {
        true
    }

    open spec fn eq_spec(&self, other: &UUID) -> bool {
        self@ == other@
    }
}

impl UUID {
    /// Wraps sixteen bytes as they are; every 128-bit value is an identifier.
    pub fn from_bytes(value: [u8; 16]) -> (r: UUID)
        ensures
            r@ == value@,
    {
        UUID { value }
    }

    /// The sixteen bytes, in their order.
    pub fn as_bytes(&self) -> (r: &[u8; 16])
        ensures
            r@ == self@,
    {
        &self.value
    }

    /// The version field.
    pub fn version(&self) -> (r: isize)
        ensures
            r == version_of(self@),
            0 <= r <= 15,
    {
        let b = self.value[6];
        assert((b & 0xF0) >> 4 == b / 16) by (bit_vector);
        ((b & 0xF0) >> 4) as isize
    }

    /// The variant field.
    pub fn variant(&self) -> (r: Variant)
        ensures
            r == variant_of(self@),
    {
        let b = self.value[8];
        assert((b & 0x80 == 0) == (b / 128 == 0)) by (bit_vector);
        assert(b & 0x80 != 0 ==> (b & 0x40 == 0) == (b / 64 == 2)) by (bit_vector);
        assert(b & 0x80 != 0 && b & 0x40 != 0 ==> (b & 0x20 == 0) == (b / 32 == 6)) by (bit_vector);
        if b & 0x80 == 0 {
            Variant::NCS
        } else if b & 0x40 == 0 {
            Variant::DCE
        } else if b & 0x20 == 0 {
            Variant::Microsoft
        } else {
            Variant::Unknown
        }
    }

    /// The all-zero identifier.
    pub fn null() -> (r: UUID)
        ensures
            r@ == null_bytes(),
    {
        UUID::from_bytes([0u8; 16])
    }

    /// Whether this is the null identifier.
    pub fn is_null(&self) -> (r: bool)
        ensures
            r == (self@ == null_bytes()),
    {
        *self == UUID::null()
    }
}

/// An identifier is sixteen bytes.
pub proof fn lemma_sixteen_bytes(u: UUID)
    ensures
        u@.len() == 16,
{
}

/// Two identifiers are the same value exactly when their bytes agree, and
/// that is what `==` tests.
pub proof fn lemma_equal_by_bytes(a: UUID, b: UUID)
    ensures
        (a == b) <==> (a@ == b@),
{
    if a@ == b@ {
        assert(a.value =~= b.value);
    }
}

/// The variant goes by the top bits of byte 8 alone, and each of the eight
/// patterns of its top three bits has its one variant.
pub proof fn lemma_variant_by_top_bits(bytes: Seq<u8>)
    ensures
        variant_of(bytes) == Variant::NCS <==> bytes[8] / 128 == 0,
        variant_of(bytes) == Variant::DCE <==> bytes[8] / 64 == 2,
        variant_of(bytes) == Variant::Microsoft <==> bytes[8] / 32 == 6,
        variant_of(bytes) == Variant::Unknown <==> bytes[8] / 32 == 7,
{
}

} // verus!
