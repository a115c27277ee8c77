//! The tile-index remap table.

use vstd::prelude::*;

verus! {

/// The remap table as a total function from one byte value to one
/// byte value:
///
/// * 0, 1, 2 are kept unchanged;
/// * 3 through 11 collapse to 0;
/// * 12 becomes 20;
/// * 13 through 16 become 10 through 13;
/// * 17 through 53 shift to 21 through 57;
/// * 54 through 61 shift to 90 through 97;
/// * every other input is shifted by 100, reduced modulo 256 so that
///   the result is again a byte.
pub open spec fn remap_spec(v: u8) -> u8 {
    if v <= 2 {
        v
    } else if v <= 11 {
        0
    } else if v == 12 {
        20
    } else if v == 13 {
        10
    } else if v == 14 {
        11
    } else if v == 15 {
        12
    } else if v == 16 {
        13
    } else if v <= 53 {
        (v + 4) as u8
    } else if v <= 61 {
        (v + 36) as u8
    } else if v <= 155 {
        (v + 100) as u8
    } else {
        (v - 156) as u8
    }
}

/// Remap one tile index according to the lookup table.
///
/// The function is total: every byte value has exactly one image.
/// Inputs 62 through 255 are unrecognized; they are still mapped (to
/// the input shifted by 100, reduced to a byte) so that processing
/// can continue, but callers may surface them as a diagnostic.
pub fn remap_index(original: u8) -> (r: u8)
    ensures
        r == remap_spec(original),
{
    if original <= 2 {
        original
    } else if original <= 11 {
        0
    } else if original == 12 {
        20
    } else if original == 13 {
        10
    } else if original == 14 {
        11
    } else if original == 15 {
        12
    } else if original == 16 {
        13
    } else if original <= 53 {
        original + 4
    } else if original <= 61 {
        original + 36
    } else if original <= 155 {
        original + 100
    } else {
        original - 156
    }
}

/// True of the tile indices that fall outside every known remap
/// range.
pub open spec fn spec_is_unrecognized(v: u8) -> bool {
    v >= 62
}

/// Tell whether a raw tile index falls outside every known remap
/// range, so that a caller can record a diagnostic for it.
pub fn is_unrecognized_index(v: u8) -> (r: bool)
    ensures
        r == spec_is_unrecognized(v),
{
    v >= 62
}

/// Unrecognized inputs always map to the input shifted by 100; the
/// shift is reduced modulo 256 because the result must again be a
/// byte value.
pub proof fn lemma_remap_unrecognized(v: u8)
    requires
        spec_is_unrecognized(v),
    ensures
        remap_spec(v) == ((v + 100) % 256) as u8,
{
}

} // verus!
