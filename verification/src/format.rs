use vstd::prelude::*;
use crate::ecc::QrCodeEcc;

verus! {

// Format information (error-correction level and mask, with BCH error
// detection) and version information (for versions 7 and up), as bit
// values and as maps from grid cells to bit positions.

/// The BCH remainder shift-register state after `k` steps over the
/// format-information generator 0x537.
pub open spec fn spec_fmt_rem_iter(data: u32, k: nat) -> u32
    decreases k,
{
    if k == 0 {
        data
    } else {
        let r = spec_fmt_rem_iter(data, (k - 1) as nat);
        (r << 1u32) ^ (if (r >> 9u32) & 1 == 1 {
            0x537u32
        } else {
            0u32
        })
    }
}

/// The fifteen-bit format information word for (level, mask): the five
/// data bits, their ten BCH check bits, XORed with the fixed mask 0x5412.
pub open spec fn spec_format_val(e: QrCodeEcc, mask: u8) -> u32 {
    let data = ((e.spec_format_bits() as u32) << 3u32) | (mask as u32);
    ((data << 10u32) | spec_fmt_rem_iter(data, 10)) ^ 0x5412u32
}

/// Computes the format information word for (level, mask).
pub fn get_format_val(e: QrCodeEcc, mask: u8) -> (r: u32)
    requires
        mask <= 7,
    ensures
        r == spec_format_val(e, mask),
{
    let data: u32 = ((e.format_bits() as u32) << 3u32) | (mask as u32);
    let mut rem: u32 = data;
    let mut k: u8 = 0;
    while k < 10
        invariant
            k <= 10,
            rem == spec_fmt_rem_iter(data, k as nat),
        decreases 10 - k,
    {
        rem = (rem << 1u32) ^ (if (rem >> 9u32) & 1 == 1 { 0x537 } else { 0 });
        k = k + 1;
    }
    ((data << 10u32) | rem) ^ 0x5412
}

/// The BCH remainder shift-register state after `k` steps over the
/// version-information generator 0x1F25.
pub open spec fn spec_ver_rem_iter(data: u32, k: nat) -> u32
    decreases k,
{
    if k == 0 {
        data
    } else {
        let r = spec_ver_rem_iter(data, (k - 1) as nat);
        (r << 1u32) ^ (if (r >> 11u32) & 1 == 1 {
            0x1F25u32
        } else {
            0u32
        })
    }
}

/// The eighteen-bit version information word: the six-bit version number
/// and its twelve BCH check bits.
pub open spec fn spec_version_val(v: int) -> u32 {
    ((v as u32) << 12u32) | spec_ver_rem_iter(v as u32, 12)
}

/// Computes the version information word for a version of 7 or more.
pub fn get_version_val(ver: u8) -> (r: u32)
    requires
        7 <= ver <= 40,
    ensures
        r == spec_version_val(ver as int),
{
    let data: u32 = ver as u32;
    let mut rem: u32 = data;
    let mut k: u8 = 0;
    while k < 12
        invariant
            k <= 12,
            rem == spec_ver_rem_iter(data, k as nat),
        decreases 12 - k,
    {
        rem = (rem << 1u32) ^ (if (rem >> 11u32) & 1 == 1 { 0x1F25 } else { 0 });
        k = k + 1;
    }
    (data << 12u32) | rem
}

/// Bit `i` of a word, as a module color.
pub open spec fn spec_word_bit(w: u32, i: int) -> bool {
    (w >> (i as u32)) & 1 == 1
}

/// Extracts bit `i` of a word.
pub fn word_bit(w: u32, i: u8) -> (r: bool)
    requires
        i < 32,
    ensures
        r == spec_word_bit(w, i as int),
{
    (w >> (i as u32)) & 1 == 1
}

/// Which format-information bit a cell carries: `Some(i)` with i in
/// [0, 15) for bit i of the format word, `Some(15)` for the always-dark
/// module, `None` for cells outside the two format-information copies.
pub open spec fn spec_format_role(s: int, x: int, y: int) -> Option<int> {
    if x == 8 && 0 <= y <= 5 {
        Some(y)
    } else if x == 8 && y == 7 {
        Some(6int)
    } else if x == 8 && y == 8 {
        Some(7int)
    } else if x == 7 && y == 8 {
        Some(8int)
    } else if y == 8 && 0 <= x <= 5 {
        Some(14 - x)
    } else if y == 8 && s - 8 <= x <= s - 1 {
        Some(s - 1 - x)
    } else if x == 8 && y == s - 8 {
        Some(15int)
    } else if x == 8 && s - 7 <= y <= s - 1 {
        Some(y - s + 15)
    } else {
        None
    }
}

/// Which version-information bit a cell carries (for versions 7 and up):
/// the three-column block beside the top-right finder pattern and its
/// transpose above the bottom-left finder pattern.
pub open spec fn spec_version_role(s: int, x: int, y: int) -> Option<int> {
    if s - 11 <= x <= s - 9 && 0 <= y <= 5 {
        Some((x - (s - 11)) + 3 * y)
    } else if s - 11 <= y <= s - 9 && 0 <= x <= 5 {
        Some((y - (s - 11)) + 3 * x)
    } else {
        None
    }
}

} // verus!
