//! Reading an identifier from its canonical text.

use crate::hex::{
    all_hex, be_bytes, hex_bytes, hex_number, hex_value, lemma_be_bytes_of_hex_number,
    parse_hex_u64, u64_be_bytes,
};
use crate::value::UUID;
use vstd::prelude::*;

verus! {

/// `s` with every `-` taken out, the other characters in their order.
pub open spec fn without_dashes(s: Seq<char>) -> Seq<char> {
    s.filter(|c: char| c != '-')
}

/// The bytes that a text writes, where it is well formed: thirty-six
/// characters, of which exactly thirty-two are no dashes, and those all
/// hexadecimal digits. Where the dashes stand is not looked at. The digits
/// map onto the sixteen bytes from left to right, two to a byte.
pub open spec fn parsed(s: Seq<char>) -> Option<Seq<u8>> {
    let hex = without_dashes(s);
    if s.len() == 36 && hex.len() == 32 && all_hex(hex) {
        Some(hex_bytes(hex))
    } else {
        None
    }
}

/// Reading thirty-two digits as two 64-bit numbers of sixteen digits each,
/// and laying each number out most significant byte first, gives the bytes
/// that the digits write pair by pair.
pub proof fn lemma_halves(hex: Seq<char>)
    requires
        hex.len() == 32,
    ensures
        be_bytes(hex_number(hex.subrange(0, 16)), 8) + be_bytes(
            hex_number(hex.subrange(16, 32)),
            8,
        ) == hex_bytes(hex),
{
    lemma_be_bytes_of_hex_number(hex.subrange(0, 16));
    lemma_be_bytes_of_hex_number(hex.subrange(16, 32));
}

impl UUID {
    /// Reads an identifier from text. Malformed text gives `None`.
    pub fn from_string(value: &str) -> (r: Option<UUID>)
        ensures
            match r {
                Some(u) => parsed(value@) == Some(u@),
                None => parsed(value@) is None,
            },
    {
        if value.unicode_len() != 36 {
            return None;
        }
        let mut hex: Vec<char> = Vec::new();
        let mut i: usize = 0;
        while i < 36
            invariant
                i <= 36,
                value@.len() == 36,
                hex@ == without_dashes(value@.take(i as int)),
            decreases 36 - i,
        {
            let c = value.get_char(i);
            proof {
                reveal(Seq::filter);
                assert(value@.take(i + 1).drop_last() =~= value@.take(i as int));
            }
            if c != '-' {
                hex.push(c);
            }
            i += 1;
        }
        assert(value@.take(36) =~= value@);
        if hex.len() != 32 {
            return None;
        }
        let high = parse_hex_u64(vstd::slice::slice_subrange(hex.as_slice(), 0, 16));
        let low = parse_hex_u64(vstd::slice::slice_subrange(hex.as_slice(), 16, 32));
        match (high, low) {
            (Some(a), Some(b)) => {
                let first = u64_be_bytes(a);
                let second = u64_be_bytes(b);
                let mut bytes = [0u8; 16];
                let mut k: usize = 0;
                while k < 8
                    invariant
                        k <= 8,
                        forall|j: int| 0 <= j < k ==> bytes@[j] == first@[j],
                        forall|j: int| 0 <= j < k ==> bytes@[j + 8] == second@[j],
                    decreases 8 - k,
                {
                    bytes[k] = first[k];
                    bytes[k + 8] = second[k];
                    k += 1;
                }
                proof {
                    lemma_halves(hex@);
                    assert(all_hex(hex@)) by {
                        assert forall|j: int| 0 <= j < 32 implies hex_value(#[trigger] hex@[j])
                            is Some by {
                            if j < 16 {
                                assert(hex@[j] == hex@.subrange(0, 16)[j]);
                            } else {
                                assert(hex@[j] == hex@.subrange(16, 32)[j - 16]);
                            }
                        }
                    }
                }
                Some(UUID::from_bytes(bytes))
            },
            _ => None,
        }
    }
}

} // verus!
