//! What is written can be read back.

use crate::formatter::{canonical_text, hex_text};
use crate::hex::{all_hex, hex_bytes, hex_digit, hex_value};
use crate::parser::{parsed, without_dashes};
use crate::value::{lemma_equal_by_bytes, lemma_sixteen_bytes, UUID};
use vstd::prelude::*;

verus! {

/// A digit reads back as the value that it was written for, in either case.
pub proof fn lemma_digit_round_trip(n: u8, upper: bool)
    requires
        n < 16,
    ensures
        hex_value(hex_digit(n, upper)) == Some(n),
        hex_digit(n, upper) != '-',
{
}

/// The digits of any bytes are hexadecimal digits, hold no dash, and read
/// back as those bytes.
pub proof fn lemma_hex_text_round_trip(bytes: Seq<u8>, upper: bool)
    ensures
        hex_text(bytes, upper).len() == 2 * bytes.len(),
        all_hex(hex_text(bytes, upper)),
        without_dashes(hex_text(bytes, upper)) == hex_text(bytes, upper),
        hex_bytes(hex_text(bytes, upper)) == bytes,
{
    let text = hex_text(bytes, upper);
    assert forall|i: int| 0 <= i < text.len() implies hex_value(#[trigger] text[i]) is Some
        && text[i] != '-' by {
        lemma_digit_round_trip(bytes[i / 2] / 16, upper);
        lemma_digit_round_trip(bytes[i / 2] % 16, upper);
    }
    lemma_keeps_what_has_no_dash(text);
    assert forall|k: int| 0 <= k < bytes.len() implies hex_bytes(text)[k] == bytes[k] by {
        lemma_digit_round_trip(bytes[k] / 16, upper);
        lemma_digit_round_trip(bytes[k] % 16, upper);
    }
}

/// Taking the dashes out of a text that has none changes nothing.
proof fn lemma_keeps_what_has_no_dash(s: Seq<char>)
    requires
        forall|i: int| 0 <= i < s.len() ==> s[i] != '-',
    ensures
        without_dashes(s) == s,
    decreases s.len(),
{
    reveal(Seq::filter);
    if s.len() > 0 {
        lemma_keeps_what_has_no_dash(s.drop_last());
    }
}

/// The digits of two runs of bytes, one after the other, are the digits of
/// the bytes put together.
pub proof fn lemma_hex_text_add(a: Seq<u8>, b: Seq<u8>, upper: bool)
    ensures
        hex_text(a + b, upper) == hex_text(a, upper) + hex_text(b, upper),
{
    assert(hex_text(a + b, upper) =~= hex_text(a, upper) + hex_text(b, upper));
}

/// Taking the dashes out of five groups joined by dashes leaves the groups,
/// where no group holds a dash.
proof fn lemma_joined_without_dashes(
    g0: Seq<char>,
    g1: Seq<char>,
    g2: Seq<char>,
    g3: Seq<char>,
    g4: Seq<char>,
)
    requires
        without_dashes(g0) == g0,
        without_dashes(g1) == g1,
        without_dashes(g2) == g2,
        without_dashes(g3) == g3,
        without_dashes(g4) == g4,
    ensures
        without_dashes(g0 + seq!['-'] + g1 + seq!['-'] + g2 + seq!['-'] + g3 + seq!['-'] + g4)
            == g0 + g1 + g2 + g3 + g4,
{
    let dash = seq!['-'];
    let p = |c: char| c != '-';
    assert(dash.filter(p) =~= Seq::<char>::empty()) by {
        reveal_with_fuel(Seq::filter, 2);
    }
    Seq::filter_distributes_over_add(g0, dash, p);
    Seq::filter_distributes_over_add(g0 + dash, g1, p);
    Seq::filter_distributes_over_add(g0 + dash + g1, dash, p);
    Seq::filter_distributes_over_add(g0 + dash + g1 + dash, g2, p);
    Seq::filter_distributes_over_add(g0 + dash + g1 + dash + g2, dash, p);
    Seq::filter_distributes_over_add(g0 + dash + g1 + dash + g2 + dash, g3, p);
    Seq::filter_distributes_over_add(g0 + dash + g1 + dash + g2 + dash + g3, dash, p);
    Seq::filter_distributes_over_add(g0 + dash + g1 + dash + g2 + dash + g3 + dash, g4, p);
}

/// Taking the dashes out of a canonical text leaves the thirty-two digits of
/// the sixteen bytes.
pub proof fn lemma_canonical_without_dashes(bytes: Seq<u8>, upper: bool)
    requires
        bytes.len() == 16,
    ensures
        canonical_text(bytes, upper).len() == 36,
        without_dashes(canonical_text(bytes, upper)) == hex_text(bytes, upper),
{
    let b0 = bytes.subrange(0, 4);
    let b1 = bytes.subrange(4, 6);
    let b2 = bytes.subrange(6, 8);
    let b3 = bytes.subrange(8, 10);
    let b4 = bytes.subrange(10, 16);
    lemma_hex_text_round_trip(b0, upper);
    lemma_hex_text_round_trip(b1, upper);
    lemma_hex_text_round_trip(b2, upper);
    lemma_hex_text_round_trip(b3, upper);
    lemma_hex_text_round_trip(b4, upper);
    lemma_joined_without_dashes(
        hex_text(b0, upper),
        hex_text(b1, upper),
        hex_text(b2, upper),
        hex_text(b3, upper),
        hex_text(b4, upper),
    );
    lemma_hex_text_add(b0, b1, upper);
    lemma_hex_text_add(b0 + b1, b2, upper);
    lemma_hex_text_add(b0 + b1 + b2, b3, upper);
    lemma_hex_text_add(b0 + b1 + b2 + b3, b4, upper);
    assert(b0 + b1 + b2 + b3 + b4 =~= bytes);
}

/// Reading the canonical text of an identifier, in lower or in upper case,
/// succeeds and gives the identifier back.
pub proof fn lemma_round_trip(u: UUID, upper: bool)
    ensures
        parsed(canonical_text(u@, upper)) == Some(u@),
        forall|v: UUID| parsed(canonical_text(u@, upper)) == Some(v@) ==> v == u,
{
    lemma_sixteen_bytes(u);
    lemma_canonical_without_dashes(u@, upper);
    lemma_hex_text_round_trip(u@, upper);
    assert forall|v: UUID| parsed(canonical_text(u@, upper)) == Some(v@) implies v == u by {
        lemma_equal_by_bytes(v, u);
    }
}

} // verus!
