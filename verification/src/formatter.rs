//! Writing an identifier as canonical text.

use crate::hex::{digit_text, hex_digit};
use crate::value::{null_bytes, UUID};
use vstd::prelude::*;
use vstd::string::StringExecFns;

verus! {

/// The digits of a run of bytes: two to a byte, the high nibble first, in the
/// requested case.
pub open spec fn hex_text(bytes: Seq<u8>, upper: bool) -> Seq<char> {
    Seq::new(
        2 * bytes.len(),
        |i: int|
            if i % 2 == 0 {
                hex_digit(bytes[i / 2] / 16, upper)
            } else {
                hex_digit(bytes[i / 2] % 16, upper)
            },
    )
}

/// The canonical text of sixteen bytes: the digits of bytes 0 to 3, 4 and 5,
/// 6 and 7, 8 and 9, and 10 to 15, the five groups joined by `-`.
pub open spec fn canonical_text(bytes: Seq<u8>, upper: bool) -> Seq<char> {
    hex_text(bytes.subrange(0, 4), upper) + seq!['-'] + hex_text(bytes.subrange(4, 6), upper)
        + seq!['-'] + hex_text(bytes.subrange(6, 8), upper) + seq!['-'] + hex_text(
        bytes.subrange(8, 10),
        upper,
    ) + seq!['-'] + hex_text(bytes.subrange(10, 16), upper)
}

/// Where among the thirty-two digits the character at place `i` of a
/// canonical text stands, for a place that holds no dash.
pub open spec fn digit_place(i: int) -> int {
    if i < 8 {
        i
    } else if i < 13 {
        i - 1
    } else if i < 18 {
        i - 2
    } else if i < 23 {
        i - 3
    } else {
        i - 4
    }
}

/// A canonical text has thirty-six characters: a dash at each of the places
/// 8, 13, 18 and 23, and at the other places the thirty-two digits of the
/// sixteen bytes in their order.
pub proof fn lemma_canonical_places(bytes: Seq<u8>, upper: bool)
    requires
        bytes.len() == 16,
    ensures
        canonical_text(bytes, upper).len() == 36,
        forall|i: int|
            0 <= i < 36 ==> #[trigger] canonical_text(bytes, upper)[i] == (if i == 8 || i == 13
                || i == 18 || i == 23 {
                '-'
            } else {
                hex_text(bytes, upper)[digit_place(i)]
            }),
{
}

/// The null identifier is written as zeros throughout, in either case.
pub proof fn lemma_null_text(upper: bool)
    ensures
        canonical_text(null_bytes(), upper) == "00000000-0000-0000-0000-000000000000"@,
{
    reveal_strlit("00000000-0000-0000-0000-000000000000");
}

/// Appends the digits of `bytes[from..to]` to `out`.
fn push_group(out: &mut String, bytes: &[u8; 16], from: usize, to: usize, upper: bool)
    requires
        from <= to <= 16,
    ensures
        final(out)@ == old(out)@ + hex_text(bytes@.subrange(from as int, to as int), upper),
{
    let mut i: usize = from;
    while i < to
        invariant
            from <= i <= to <= 16,
            out@ == old(out)@ + hex_text(bytes@.subrange(from as int, i as int), upper),
        decreases to - i,
    {
        let b = bytes[i];
        out.append(digit_text(b / 16, upper));
        out.append(digit_text(b % 16, upper));
        i += 1;
    }
}

impl UUID {
    /// The canonical text in the requested case.
    fn to_text(&self, upper: bool) -> (s: String)
        ensures
            s@ == canonical_text(self@, upper),
    {
        let bytes = self.as_bytes();
        let mut s = String::new();
        proof {
            reveal_strlit("-");
        }
        push_group(&mut s, bytes, 0, 4, upper);
        s.append("-");
        push_group(&mut s, bytes, 4, 6, upper);
        s.append("-");
        push_group(&mut s, bytes, 6, 8, upper);
        s.append("-");
        push_group(&mut s, bytes, 8, 10, upper);
        s.append("-");
        push_group(&mut s, bytes, 10, 16, upper);
        s
    }

    /// The canonical text with the digits `a` to `f` in lower case.
    pub fn to_lowercase_string(&self) -> (s: String)
        ensures
            s@ == canonical_text(self@, false),
    {
        self.to_text(false)
    }

    /// The canonical text with the digits `A` to `F` in upper case.
    pub fn to_uppercase_string(&self) -> (s: String)
        ensures
            s@ == canonical_text(self@, true),
    {
        self.to_text(true)
    }

    /// The canonical text in its default form, which is the lower-case one.
    pub fn to_string(&self) -> (s: String)
        ensures
            s@ == canonical_text(self@, false),
    {
        self.to_lowercase_string()
    }
}

} // verus!
