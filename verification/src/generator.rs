//! Making version-4 identifiers from random bytes.

use crate::value::{variant_of, version_of, Variant, UUID};
use vstd::prelude::*;

verus! {

/// Sixteen bytes marked as a version-4 identifier of the DCE variant: byte 6
/// gets `4` as its high nibble, byte 8 gets `10` as its top two bits, and
/// every other bit stays.
pub open spec fn tagged_v4(bytes: Seq<u8>) -> Seq<u8> {
    bytes.update(6, (bytes[6] & 0x0F) | 0x40).update(8, (bytes[8] & 0x3F) | 0x80)
}

/// Marking gives version 4 and the DCE variant whatever the bytes were,
/// keeps the fourteen other bytes and the low bits of the two marked ones,
/// and changes nothing when done again.
pub proof fn lemma_tagged_v4(bytes: Seq<u8>)
    requires
        bytes.len() == 16,
    ensures
        tagged_v4(bytes).len() == 16,
        version_of(tagged_v4(bytes)) == 4,
        variant_of(tagged_v4(bytes)) == Variant::DCE,
        forall|i: int| 0 <= i < 16 && i != 6 && i != 8 ==> tagged_v4(bytes)[i] == bytes[i],
        tagged_v4(bytes)[6] % 16 == bytes[6] % 16,
        tagged_v4(bytes)[8] % 64 == bytes[8] % 64,
        tagged_v4(tagged_v4(bytes)) == tagged_v4(bytes),
{
    let b6 = bytes[6];
    let b8 = bytes[8];
    assert(((b6 & 0x0F) | 0x40) / 16 == 4 && ((b6 & 0x0F) | 0x40) % 16 == b6 % 16 && ((((b6
        & 0x0F) | 0x40) & 0x0F) | 0x40) == ((b6 & 0x0F) | 0x40)) by (bit_vector);
    assert(((b8 & 0x3F) | 0x80) / 64 == 2 && ((b8 & 0x3F) | 0x80) % 64 == b8 % 64 && ((((b8
        & 0x3F) | 0x80) & 0x3F) | 0x80) == ((b8 & 0x3F) | 0x80)) by (bit_vector);
}

/// An identifier is a marked one exactly when it has version 4 and the DCE
/// variant: marking leaves it as it is.
pub proof fn lemma_v4_is_tagged(bytes: Seq<u8>)
    requires
        bytes.len() == 16,
    ensures
        (version_of(bytes) == 4 && variant_of(bytes) == Variant::DCE) <==> tagged_v4(bytes)
            == bytes,
{
    let b6 = bytes[6];
    let b8 = bytes[8];
    assert(b6 / 16 == 4 <==> ((b6 & 0x0F) | 0x40) == b6) by (bit_vector);
    assert(b8 / 64 == 2 <==> ((b8 & 0x3F) | 0x80) == b8) by (bit_vector);
    if version_of(bytes) == 4 && variant_of(bytes) == Variant::DCE {
        assert(tagged_v4(bytes) =~= bytes);
    }
}

/// Draws sixteen bytes from the thread-local generator of the `rand` crate,
/// by `rand::random`. The generator belongs to the calling thread and is
/// seeded by the operating system when the thread first uses it; `rand`
/// panics there if the system has no entropy to give. Nothing is claimed of
/// the bytes: each call may give any sixteen.
#[verifier::external_body]
fn random_bytes() -> [u8; 16] {
    rand::random()
}

impl UUID {
    /// Makes a version-4 identifier out of sixteen bytes from a random
    /// source: the version and variant fields are overwritten, the rest is
    /// kept as it came.
    pub fn from_random_bytes(bytes: [u8; 16]) -> (r: UUID)
        ensures
            r@ == tagged_v4(bytes@),
    {
        let mut bytes = bytes;
        bytes[6] = (bytes[6] & 0x0F) | 0x40;
        bytes[8] = (bytes[8] & 0x3F) | 0x80;
        UUID::from_bytes(bytes)
    }

    /// A fresh random identifier of version 4 and the DCE variant. The
    /// other 122 bits are whatever the generator gave.
    pub fn random() -> (r: UUID)
        ensures
            version_of(r@) == 4,
            variant_of(r@) == Variant::DCE,
    {
        let bytes = random_bytes();
        proof {
            lemma_tagged_v4(bytes@);
        }
        UUID::from_random_bytes(bytes)
    }
}

} // verus!
