use vstd::prelude::*;
use crate::ecc::QrCodeEcc;

verus! {

// The capacity model: the standard's numeric tables indexed by version and
// error-correction level, held as frozen lookup functions. The raw-module
// counts equal the geometric formula (16v + 128)v + 64, minus the alignment
// patterns' cells for v >= 2 and the version-information cells for v >= 7.

/// Number of modules available for codeword placement in a symbol of the
/// given version, once every function pattern and reserved field is stamped.
pub open spec fn spec_raw_data_modules(v: int) -> int {
    if v == 1 { 208 } else if v == 2 { 359 } else if v == 3 { 567 } else if v == 4 { 807 } else if v == 5 { 1079 } else if v == 6 { 1383 } else if v == 7 { 1568 } else if v == 8 { 1936 } else if v == 9 { 2336 } else if v == 10 { 2768 } else if v == 11 { 3232 } else if v == 12 { 3728 } else if v == 13 { 4256 } else if v == 14 { 4651 } else if v == 15 { 5243 } else if v == 16 { 5867 } else if v == 17 { 6523 } else if v == 18 { 7211 } else if v == 19 { 7931 } else if v == 20 { 8683 } else if v == 21 { 9252 } else if v == 22 { 10068 } else if v == 23 { 10916 } else if v == 24 { 11796 } else if v == 25 { 12708 } else if v == 26 { 13652 } else if v == 27 { 14628 } else if v == 28 { 15371 } else if v == 29 { 16411 } else if v == 30 { 17483 } else if v == 31 { 18587 } else if v == 32 { 19723 } else if v == 33 { 20891 } else if v == 34 { 22091 } else if v == 35 { 23008 } else if v == 36 { 24272 } else if v == 37 { 25568 } else if v == 38 { 26896 } else if v == 39 { 28256 } else { 29648 }
}

pub fn num_raw_data_modules(ver: u8) -> (r: u32)
    requires
        1 <= ver <= 40,
    ensures
        r == spec_raw_data_modules(ver as int),
{
    if ver == 1 { 208 } else if ver == 2 { 359 } else if ver == 3 { 567 } else if ver == 4 { 807 } else if ver == 5 { 1079 } else if ver == 6 { 1383 } else if ver == 7 { 1568 } else if ver == 8 { 1936 } else if ver == 9 { 2336 } else if ver == 10 { 2768 } else if ver == 11 { 3232 } else if ver == 12 { 3728 } else if ver == 13 { 4256 } else if ver == 14 { 4651 } else if ver == 15 { 5243 } else if ver == 16 { 5867 } else if ver == 17 { 6523 } else if ver == 18 { 7211 } else if ver == 19 { 7931 } else if ver == 20 { 8683 } else if ver == 21 { 9252 } else if ver == 22 { 10068 } else if ver == 23 { 10916 } else if ver == 24 { 11796 } else if ver == 25 { 12708 } else if ver == 26 { 13652 } else if ver == 27 { 14628 } else if ver == 28 { 15371 } else if ver == 29 { 16411 } else if ver == 30 { 17483 } else if ver == 31 { 18587 } else if ver == 32 { 19723 } else if ver == 33 { 20891 } else if ver == 34 { 22091 } else if ver == 35 { 23008 } else if ver == 36 { 24272 } else if ver == 37 { 25568 } else if ver == 38 { 26896 } else if ver == 39 { 28256 } else { 29648 }
}

/// Total codewords (data plus error correction) in a symbol of the given
/// version: the raw module count divided by eight.
pub open spec fn spec_total_codewords(v: int) -> int {
    if v == 1 { 26 } else if v == 2 { 44 } else if v == 3 { 70 } else if v == 4 { 100 } else if v == 5 { 134 } else if v == 6 { 172 } else if v == 7 { 196 } else if v == 8 { 242 } else if v == 9 { 292 } else if v == 10 { 346 } else if v == 11 { 404 } else if v == 12 { 466 } else if v == 13 { 532 } else if v == 14 { 581 } else if v == 15 { 655 } else if v == 16 { 733 } else if v == 17 { 815 } else if v == 18 { 901 } else if v == 19 { 991 } else if v == 20 { 1085 } else if v == 21 { 1156 } else if v == 22 { 1258 } else if v == 23 { 1364 } else if v == 24 { 1474 } else if v == 25 { 1588 } else if v == 26 { 1706 } else if v == 27 { 1828 } else if v == 28 { 1921 } else if v == 29 { 2051 } else if v == 30 { 2185 } else if v == 31 { 2323 } else if v == 32 { 2465 } else if v == 33 { 2611 } else if v == 34 { 2761 } else if v == 35 { 2876 } else if v == 36 { 3034 } else if v == 37 { 3196 } else if v == 38 { 3362 } else if v == 39 { 3532 } else { 3706 }
}

pub fn total_codewords(ver: u8) -> (r: u32)
    requires
        1 <= ver <= 40,
    ensures
        r == spec_total_codewords(ver as int),
{
    if ver == 1 { 26 } else if ver == 2 { 44 } else if ver == 3 { 70 } else if ver == 4 { 100 } else if ver == 5 { 134 } else if ver == 6 { 172 } else if ver == 7 { 196 } else if ver == 8 { 242 } else if ver == 9 { 292 } else if ver == 10 { 346 } else if ver == 11 { 404 } else if ver == 12 { 466 } else if ver == 13 { 532 } else if ver == 14 { 581 } else if ver == 15 { 655 } else if ver == 16 { 733 } else if ver == 17 { 815 } else if ver == 18 { 901 } else if ver == 19 { 991 } else if ver == 20 { 1085 } else if ver == 21 { 1156 } else if ver == 22 { 1258 } else if ver == 23 { 1364 } else if ver == 24 { 1474 } else if ver == 25 { 1588 } else if ver == 26 { 1706 } else if ver == 27 { 1828 } else if ver == 28 { 1921 } else if ver == 29 { 2051 } else if ver == 30 { 2185 } else if ver == 31 { 2323 } else if ver == 32 { 2465 } else if ver == 33 { 2611 } else if ver == 34 { 2761 } else if ver == 35 { 2876 } else if ver == 36 { 3034 } else if ver == 37 { 3196 } else if ver == 38 { 3362 } else if ver == 39 { 3532 } else { 3706 }
}

/// Error-correction codewords per block at level Low, by version.
pub open spec fn spec_ecc_low(v: int) -> int {
    if v == 1 { 7 } else if v == 2 { 10 } else if v == 3 { 15 } else if v == 4 { 20 } else if v == 5 { 26 } else if v == 6 { 18 } else if v == 7 { 20 } else if v == 8 { 24 } else if v == 9 { 30 } else if v == 10 { 18 } else if v == 11 { 20 } else if v == 12 { 24 } else if v == 13 { 26 } else if v == 14 { 30 } else if v == 15 { 22 } else if v == 16 { 24 } else if v == 17 { 28 } else if v == 18 { 30 } else if v == 19 { 28 } else if v == 20 { 28 } else if v == 21 { 28 } else if v == 22 { 28 } else if v == 23 { 30 } else if v == 24 { 30 } else if v == 25 { 26 } else if v == 26 { 28 } else if v == 27 { 30 } else if v == 28 { 30 } else if v == 29 { 30 } else if v == 30 { 30 } else if v == 31 { 30 } else if v == 32 { 30 } else if v == 33 { 30 } else if v == 34 { 30 } else if v == 35 { 30 } else if v == 36 { 30 } else if v == 37 { 30 } else if v == 38 { 30 } else if v == 39 { 30 } else { 30 }
}

/// Error-correction codewords per block at level Medium, by version.
pub open spec fn spec_ecc_medium(v: int) -> int {
    if v == 1 { 10 } else if v == 2 { 16 } else if v == 3 { 26 } else if v == 4 { 18 } else if v == 5 { 24 } else if v == 6 { 16 } else if v == 7 { 18 } else if v == 8 { 22 } else if v == 9 { 22 } else if v == 10 { 26 } else if v == 11 { 30 } else if v == 12 { 22 } else if v == 13 { 22 } else if v == 14 { 24 } else if v == 15 { 24 } else if v == 16 { 28 } else if v == 17 { 28 } else if v == 18 { 26 } else if v == 19 { 26 } else if v == 20 { 26 } else if v == 21 { 26 } else if v == 22 { 28 } else if v == 23 { 28 } else if v == 24 { 28 } else if v == 25 { 28 } else if v == 26 { 28 } else if v == 27 { 28 } else if v == 28 { 28 } else if v == 29 { 28 } else if v == 30 { 28 } else if v == 31 { 28 } else if v == 32 { 28 } else if v == 33 { 28 } else if v == 34 { 28 } else if v == 35 { 28 } else if v == 36 { 28 } else if v == 37 { 28 } else if v == 38 { 28 } else if v == 39 { 28 } else { 28 }
}

/// Error-correction codewords per block at level Quartile, by version.
pub open spec fn spec_ecc_quartile(v: int) -> int {
    if v == 1 { 13 } else if v == 2 { 22 } else if v == 3 { 18 } else if v == 4 { 26 } else if v == 5 { 18 } else if v == 6 { 24 } else if v == 7 { 18 } else if v == 8 { 22 } else if v == 9 { 20 } else if v == 10 { 24 } else if v == 11 { 28 } else if v == 12 { 26 } else if v == 13 { 24 } else if v == 14 { 20 } else if v == 15 { 30 } else if v == 16 { 24 } else if v == 17 { 28 } else if v == 18 { 28 } else if v == 19 { 26 } else if v == 20 { 30 } else if v == 21 { 28 } else if v == 22 { 30 } else if v == 23 { 30 } else if v == 24 { 30 } else if v == 25 { 30 } else if v == 26 { 28 } else if v == 27 { 30 } else if v == 28 { 30 } else if v == 29 { 30 } else if v == 30 { 30 } else if v == 31 { 30 } else if v == 32 { 30 } else if v == 33 { 30 } else if v == 34 { 30 } else if v == 35 { 30 } else if v == 36 { 30 } else if v == 37 { 30 } else if v == 38 { 30 } else if v == 39 { 30 } else { 30 }
}

/// Error-correction codewords per block at level High, by version.
pub open spec fn spec_ecc_high(v: int) -> int {
    if v == 1 { 17 } else if v == 2 { 28 } else if v == 3 { 22 } else if v == 4 { 16 } else if v == 5 { 22 } else if v == 6 { 28 } else if v == 7 { 26 } else if v == 8 { 26 } else if v == 9 { 24 } else if v == 10 { 28 } else if v == 11 { 24 } else if v == 12 { 28 } else if v == 13 { 22 } else if v == 14 { 24 } else if v == 15 { 24 } else if v == 16 { 30 } else if v == 17 { 28 } else if v == 18 { 28 } else if v == 19 { 26 } else if v == 20 { 28 } else if v == 21 { 30 } else if v == 22 { 24 } else if v == 23 { 30 } else if v == 24 { 30 } else if v == 25 { 30 } else if v == 26 { 30 } else if v == 27 { 30 } else if v == 28 { 30 } else if v == 29 { 30 } else if v == 30 { 30 } else if v == 31 { 30 } else if v == 32 { 30 } else if v == 33 { 30 } else if v == 34 { 30 } else if v == 35 { 30 } else if v == 36 { 30 } else if v == 37 { 30 } else if v == 38 { 30 } else if v == 39 { 30 } else { 30 }
}

/// Error-correction block count at level Low, by version.
pub open spec fn spec_nb_low(v: int) -> int {
    if v == 1 { 1 } else if v == 2 { 1 } else if v == 3 { 1 } else if v == 4 { 1 } else if v == 5 { 1 } else if v == 6 { 2 } else if v == 7 { 2 } else if v == 8 { 2 } else if v == 9 { 2 } else if v == 10 { 4 } else if v == 11 { 4 } else if v == 12 { 4 } else if v == 13 { 4 } else if v == 14 { 4 } else if v == 15 { 6 } else if v == 16 { 6 } else if v == 17 { 6 } else if v == 18 { 6 } else if v == 19 { 7 } else if v == 20 { 8 } else if v == 21 { 8 } else if v == 22 { 9 } else if v == 23 { 9 } else if v == 24 { 10 } else if v == 25 { 12 } else if v == 26 { 12 } else if v == 27 { 12 } else if v == 28 { 13 } else if v == 29 { 14 } else if v == 30 { 15 } else if v == 31 { 16 } else if v == 32 { 17 } else if v == 33 { 18 } else if v == 34 { 19 } else if v == 35 { 19 } else if v == 36 { 20 } else if v == 37 { 21 } else if v == 38 { 22 } else if v == 39 { 24 } else { 25 }
}

/// Error-correction block count at level Medium, by version.
pub open spec fn spec_nb_medium(v: int) -> int {
    if v == 1 { 1 } else if v == 2 { 1 } else if v == 3 { 1 } else if v == 4 { 2 } else if v == 5 { 2 } else if v == 6 { 4 } else if v == 7 { 4 } else if v == 8 { 4 } else if v == 9 { 5 } else if v == 10 { 5 } else if v == 11 { 5 } else if v == 12 { 8 } else if v == 13 { 9 } else if v == 14 { 9 } else if v == 15 { 10 } else if v == 16 { 10 } else if v == 17 { 11 } else if v == 18 { 13 } else if v == 19 { 14 } else if v == 20 { 16 } else if v == 21 { 17 } else if v == 22 { 17 } else if v == 23 { 18 } else if v == 24 { 20 } else if v == 25 { 21 } else if v == 26 { 23 } else if v == 27 { 25 } else if v == 28 { 26 } else if v == 29 { 28 } else if v == 30 { 29 } else if v == 31 { 31 } else if v == 32 { 33 } else if v == 33 { 35 } else if v == 34 { 37 } else if v == 35 { 38 } else if v == 36 { 40 } else if v == 37 { 43 } else if v == 38 { 45 } else if v == 39 { 47 } else { 49 }
}

/// Error-correction block count at level Quartile, by version.
pub open spec fn spec_nb_quartile(v: int) -> int {
    if v == 1 { 1 } else if v == 2 { 1 } else if v == 3 { 2 } else if v == 4 { 2 } else if v == 5 { 4 } else if v == 6 { 4 } else if v == 7 { 6 } else if v == 8 { 6 } else if v == 9 { 8 } else if v == 10 { 8 } else if v == 11 { 8 } else if v == 12 { 10 } else if v == 13 { 12 } else if v == 14 { 16 } else if v == 15 { 12 } else if v == 16 { 17 } else if v == 17 { 16 } else if v == 18 { 18 } else if v == 19 { 21 } else if v == 20 { 20 } else if v == 21 { 23 } else if v == 22 { 23 } else if v == 23 { 25 } else if v == 24 { 27 } else if v == 25 { 29 } else if v == 26 { 34 } else if v == 27 { 34 } else if v == 28 { 35 } else if v == 29 { 38 } else if v == 30 { 40 } else if v == 31 { 43 } else if v == 32 { 45 } else if v == 33 { 48 } else if v == 34 { 51 } else if v == 35 { 53 } else if v == 36 { 56 } else if v == 37 { 59 } else if v == 38 { 62 } else if v == 39 { 65 } else { 68 }
}

/// Error-correction block count at level High, by version.
pub open spec fn spec_nb_high(v: int) -> int {
    if v == 1 { 1 } else if v == 2 { 1 } else if v == 3 { 2 } else if v == 4 { 4 } else if v == 5 { 4 } else if v == 6 { 4 } else if v == 7 { 5 } else if v == 8 { 6 } else if v == 9 { 8 } else if v == 10 { 8 } else if v == 11 { 11 } else if v == 12 { 11 } else if v == 13 { 16 } else if v == 14 { 16 } else if v == 15 { 18 } else if v == 16 { 16 } else if v == 17 { 19 } else if v == 18 { 21 } else if v == 19 { 25 } else if v == 20 { 25 } else if v == 21 { 25 } else if v == 22 { 34 } else if v == 23 { 30 } else if v == 24 { 32 } else if v == 25 { 35 } else if v == 26 { 37 } else if v == 27 { 40 } else if v == 28 { 42 } else if v == 29 { 45 } else if v == 30 { 48 } else if v == 31 { 51 } else if v == 32 { 54 } else if v == 33 { 57 } else if v == 34 { 60 } else if v == 35 { 63 } else if v == 36 { 66 } else if v == 37 { 70 } else if v == 38 { 74 } else if v == 39 { 77 } else { 81 }
}

/// Usable data codewords at level Low, by version.
pub open spec fn spec_ndc_low(v: int) -> int {
    if v == 1 { 19 } else if v == 2 { 34 } else if v == 3 { 55 } else if v == 4 { 80 } else if v == 5 { 108 } else if v == 6 { 136 } else if v == 7 { 156 } else if v == 8 { 194 } else if v == 9 { 232 } else if v == 10 { 274 } else if v == 11 { 324 } else if v == 12 { 370 } else if v == 13 { 428 } else if v == 14 { 461 } else if v == 15 { 523 } else if v == 16 { 589 } else if v == 17 { 647 } else if v == 18 { 721 } else if v == 19 { 795 } else if v == 20 { 861 } else if v == 21 { 932 } else if v == 22 { 1006 } else if v == 23 { 1094 } else if v == 24 { 1174 } else if v == 25 { 1276 } else if v == 26 { 1370 } else if v == 27 { 1468 } else if v == 28 { 1531 } else if v == 29 { 1631 } else if v == 30 { 1735 } else if v == 31 { 1843 } else if v == 32 { 1955 } else if v == 33 { 2071 } else if v == 34 { 2191 } else if v == 35 { 2306 } else if v == 36 { 2434 } else if v == 37 { 2566 } else if v == 38 { 2702 } else if v == 39 { 2812 } else { 2956 }
}

/// Usable data codewords at level Medium, by version.
pub open spec fn spec_ndc_medium(v: int) -> int {
    if v == 1 { 16 } else if v == 2 { 28 } else if v == 3 { 44 } else if v == 4 { 64 } else if v == 5 { 86 } else if v == 6 { 108 } else if v == 7 { 124 } else if v == 8 { 154 } else if v == 9 { 182 } else if v == 10 { 216 } else if v == 11 { 254 } else if v == 12 { 290 } else if v == 13 { 334 } else if v == 14 { 365 } else if v == 15 { 415 } else if v == 16 { 453 } else if v == 17 { 507 } else if v == 18 { 563 } else if v == 19 { 627 } else if v == 20 { 669 } else if v == 21 { 714 } else if v == 22 { 782 } else if v == 23 { 860 } else if v == 24 { 914 } else if v == 25 { 1000 } else if v == 26 { 1062 } else if v == 27 { 1128 } else if v == 28 { 1193 } else if v == 29 { 1267 } else if v == 30 { 1373 } else if v == 31 { 1455 } else if v == 32 { 1541 } else if v == 33 { 1631 } else if v == 34 { 1725 } else if v == 35 { 1812 } else if v == 36 { 1914 } else if v == 37 { 1992 } else if v == 38 { 2102 } else if v == 39 { 2216 } else { 2334 }
}

/// Usable data codewords at level Quartile, by version.
pub open spec fn spec_ndc_quartile(v: int) -> int {
    if v == 1 { 13 } else if v == 2 { 22 } else if v == 3 { 34 } else if v == 4 { 48 } else if v == 5 { 62 } else if v == 6 { 76 } else if v == 7 { 88 } else if v == 8 { 110 } else if v == 9 { 132 } else if v == 10 { 154 } else if v == 11 { 180 } else if v == 12 { 206 } else if v == 13 { 244 } else if v == 14 { 261 } else if v == 15 { 295 } else if v == 16 { 325 } else if v == 17 { 367 } else if v == 18 { 397 } else if v == 19 { 445 } else if v == 20 { 485 } else if v == 21 { 512 } else if v == 22 { 568 } else if v == 23 { 614 } else if v == 24 { 664 } else if v == 25 { 718 } else if v == 26 { 754 } else if v == 27 { 808 } else if v == 28 { 871 } else if v == 29 { 911 } else if v == 30 { 985 } else if v == 31 { 1033 } else if v == 32 { 1115 } else if v == 33 { 1171 } else if v == 34 { 1231 } else if v == 35 { 1286 } else if v == 36 { 1354 } else if v == 37 { 1426 } else if v == 38 { 1502 } else if v == 39 { 1582 } else { 1666 }
}

/// Usable data codewords at level High, by version.
pub open spec fn spec_ndc_high(v: int) -> int {
    if v == 1 { 9 } else if v == 2 { 16 } else if v == 3 { 26 } else if v == 4 { 36 } else if v == 5 { 46 } else if v == 6 { 60 } else if v == 7 { 66 } else if v == 8 { 86 } else if v == 9 { 100 } else if v == 10 { 122 } else if v == 11 { 140 } else if v == 12 { 158 } else if v == 13 { 180 } else if v == 14 { 197 } else if v == 15 { 223 } else if v == 16 { 253 } else if v == 17 { 283 } else if v == 18 { 313 } else if v == 19 { 341 } else if v == 20 { 385 } else if v == 21 { 406 } else if v == 22 { 442 } else if v == 23 { 464 } else if v == 24 { 514 } else if v == 25 { 538 } else if v == 26 { 596 } else if v == 27 { 628 } else if v == 28 { 661 } else if v == 29 { 701 } else if v == 30 { 745 } else if v == 31 { 793 } else if v == 32 { 845 } else if v == 33 { 901 } else if v == 34 { 961 } else if v == 35 { 986 } else if v == 36 { 1054 } else if v == 37 { 1096 } else if v == 38 { 1142 } else if v == 39 { 1222 } else { 1276 }
}

/// Error-correction codewords per block for (level, version).
pub open spec fn spec_ecc_per_block(e: QrCodeEcc, v: int) -> int {
    match e {
        QrCodeEcc::Low => spec_ecc_low(v),
        QrCodeEcc::Medium => spec_ecc_medium(v),
        QrCodeEcc::Quartile => spec_ecc_quartile(v),
        QrCodeEcc::High => spec_ecc_high(v),
    }
}

/// Number of error-correction blocks for (level, version).
pub open spec fn spec_num_blocks(e: QrCodeEcc, v: int) -> int {
    match e {
        QrCodeEcc::Low => spec_nb_low(v),
        QrCodeEcc::Medium => spec_nb_medium(v),
        QrCodeEcc::Quartile => spec_nb_quartile(v),
        QrCodeEcc::High => spec_nb_high(v),
    }
}

/// Usable data codewords at (version, level): total codewords minus the
/// error-correction codewords of all blocks.
pub open spec fn spec_num_data_codewords(v: int, e: QrCodeEcc) -> int {
    match e {
        QrCodeEcc::Low => spec_ndc_low(v),
        QrCodeEcc::Medium => spec_ndc_medium(v),
        QrCodeEcc::Quartile => spec_ndc_quartile(v),
        QrCodeEcc::High => spec_ndc_high(v),
    }
}

pub fn ecc_codewords_per_block(ver: u8, e: QrCodeEcc) -> (r: u8)
    requires
        1 <= ver <= 40,
    ensures
        r == spec_ecc_per_block(e, ver as int),
{
    match e {
        QrCodeEcc::Low => { if ver == 1 { 7 } else if ver == 2 { 10 } else if ver == 3 { 15 } else if ver == 4 { 20 } else if ver == 5 { 26 } else if ver == 6 { 18 } else if ver == 7 { 20 } else if ver == 8 { 24 } else if ver == 9 { 30 } else if ver == 10 { 18 } else if ver == 11 { 20 } else if ver == 12 { 24 } else if ver == 13 { 26 } else if ver == 14 { 30 } else if ver == 15 { 22 } else if ver == 16 { 24 } else if ver == 17 { 28 } else if ver == 18 { 30 } else if ver == 19 { 28 } else if ver == 20 { 28 } else if ver == 21 { 28 } else if ver == 22 { 28 } else if ver == 23 { 30 } else if ver == 24 { 30 } else if ver == 25 { 26 } else if ver == 26 { 28 } else if ver == 27 { 30 } else if ver == 28 { 30 } else if ver == 29 { 30 } else if ver == 30 { 30 } else if ver == 31 { 30 } else if ver == 32 { 30 } else if ver == 33 { 30 } else if ver == 34 { 30 } else if ver == 35 { 30 } else if ver == 36 { 30 } else if ver == 37 { 30 } else if ver == 38 { 30 } else if ver == 39 { 30 } else { 30 } },
        QrCodeEcc::Medium => { if ver == 1 { 10 } else if ver == 2 { 16 } else if ver == 3 { 26 } else if ver == 4 { 18 } else if ver == 5 { 24 } else if ver == 6 { 16 } else if ver == 7 { 18 } else if ver == 8 { 22 } else if ver == 9 { 22 } else if ver == 10 { 26 } else if ver == 11 { 30 } else if ver == 12 { 22 } else if ver == 13 { 22 } else if ver == 14 { 24 } else if ver == 15 { 24 } else if ver == 16 { 28 } else if ver == 17 { 28 } else if ver == 18 { 26 } else if ver == 19 { 26 } else if ver == 20 { 26 } else if ver == 21 { 26 } else if ver == 22 { 28 } else if ver == 23 { 28 } else if ver == 24 { 28 } else if ver == 25 { 28 } else if ver == 26 { 28 } else if ver == 27 { 28 } else if ver == 28 { 28 } else if ver == 29 { 28 } else if ver == 30 { 28 } else if ver == 31 { 28 } else if ver == 32 { 28 } else if ver == 33 { 28 } else if ver == 34 { 28 } else if ver == 35 { 28 } else if ver == 36 { 28 } else if ver == 37 { 28 } else if ver == 38 { 28 } else if ver == 39 { 28 } else { 28 } },
        QrCodeEcc::Quartile => { if ver == 1 { 13 } else if ver == 2 { 22 } else if ver == 3 { 18 } else if ver == 4 { 26 } else if ver == 5 { 18 } else if ver == 6 { 24 } else if ver == 7 { 18 } else if ver == 8 { 22 } else if ver == 9 { 20 } else if ver == 10 { 24 } else if ver == 11 { 28 } else if ver == 12 { 26 } else if ver == 13 { 24 } else if ver == 14 { 20 } else if ver == 15 { 30 } else if ver == 16 { 24 } else if ver == 17 { 28 } else if ver == 18 { 28 } else if ver == 19 { 26 } else if ver == 20 { 30 } else if ver == 21 { 28 } else if ver == 22 { 30 } else if ver == 23 { 30 } else if ver == 24 { 30 } else if ver == 25 { 30 } else if ver == 26 { 28 } else if ver == 27 { 30 } else if ver == 28 { 30 } else if ver == 29 { 30 } else if ver == 30 { 30 } else if ver == 31 { 30 } else if ver == 32 { 30 } else if ver == 33 { 30 } else if ver == 34 { 30 } else if ver == 35 { 30 } else if ver == 36 { 30 } else if ver == 37 { 30 } else if ver == 38 { 30 } else if ver == 39 { 30 } else { 30 } },
        QrCodeEcc::High => { if ver == 1 { 17 } else if ver == 2 { 28 } else if ver == 3 { 22 } else if ver == 4 { 16 } else if ver == 5 { 22 } else if ver == 6 { 28 } else if ver == 7 { 26 } else if ver == 8 { 26 } else if ver == 9 { 24 } else if ver == 10 { 28 } else if ver == 11 { 24 } else if ver == 12 { 28 } else if ver == 13 { 22 } else if ver == 14 { 24 } else if ver == 15 { 24 } else if ver == 16 { 30 } else if ver == 17 { 28 } else if ver == 18 { 28 } else if ver == 19 { 26 } else if ver == 20 { 28 } else if ver == 21 { 30 } else if ver == 22 { 24 } else if ver == 23 { 30 } else if ver == 24 { 30 } else if ver == 25 { 30 } else if ver == 26 { 30 } else if ver == 27 { 30 } else if ver == 28 { 30 } else if ver == 29 { 30 } else if ver == 30 { 30 } else if ver == 31 { 30 } else if ver == 32 { 30 } else if ver == 33 { 30 } else if ver == 34 { 30 } else if ver == 35 { 30 } else if ver == 36 { 30 } else if ver == 37 { 30 } else if ver == 38 { 30 } else if ver == 39 { 30 } else { 30 } },
    }
}

pub fn num_error_correction_blocks(ver: u8, e: QrCodeEcc) -> (r: u8)
    requires
        1 <= ver <= 40,
    ensures
        r == spec_num_blocks(e, ver as int),
{
    match e {
        QrCodeEcc::Low => { if ver == 1 { 1 } else if ver == 2 { 1 } else if ver == 3 { 1 } else if ver == 4 { 1 } else if ver == 5 { 1 } else if ver == 6 { 2 } else if ver == 7 { 2 } else if ver == 8 { 2 } else if ver == 9 { 2 } else if ver == 10 { 4 } else if ver == 11 { 4 } else if ver == 12 { 4 } else if ver == 13 { 4 } else if ver == 14 { 4 } else if ver == 15 { 6 } else if ver == 16 { 6 } else if ver == 17 { 6 } else if ver == 18 { 6 } else if ver == 19 { 7 } else if ver == 20 { 8 } else if ver == 21 { 8 } else if ver == 22 { 9 } else if ver == 23 { 9 } else if ver == 24 { 10 } else if ver == 25 { 12 } else if ver == 26 { 12 } else if ver == 27 { 12 } else if ver == 28 { 13 } else if ver == 29 { 14 } else if ver == 30 { 15 } else if ver == 31 { 16 } else if ver == 32 { 17 } else if ver == 33 { 18 } else if ver == 34 { 19 } else if ver == 35 { 19 } else if ver == 36 { 20 } else if ver == 37 { 21 } else if ver == 38 { 22 } else if ver == 39 { 24 } else { 25 } },
        QrCodeEcc::Medium => { if ver == 1 { 1 } else if ver == 2 { 1 } else if ver == 3 { 1 } else if ver == 4 { 2 } else if ver == 5 { 2 } else if ver == 6 { 4 } else if ver == 7 { 4 } else if ver == 8 { 4 } else if ver == 9 { 5 } else if ver == 10 { 5 } else if ver == 11 { 5 } else if ver == 12 { 8 } else if ver == 13 { 9 } else if ver == 14 { 9 } else if ver == 15 { 10 } else if ver == 16 { 10 } else if ver == 17 { 11 } else if ver == 18 { 13 } else if ver == 19 { 14 } else if ver == 20 { 16 } else if ver == 21 { 17 } else if ver == 22 { 17 } else if ver == 23 { 18 } else if ver == 24 { 20 } else if ver == 25 { 21 } else if ver == 26 { 23 } else if ver == 27 { 25 } else if ver == 28 { 26 } else if ver == 29 { 28 } else if ver == 30 { 29 } else if ver == 31 { 31 } else if ver == 32 { 33 } else if ver == 33 { 35 } else if ver == 34 { 37 } else if ver == 35 { 38 } else if ver == 36 { 40 } else if ver == 37 { 43 } else if ver == 38 { 45 } else if ver == 39 { 47 } else { 49 } },
        QrCodeEcc::Quartile => { if ver == 1 { 1 } else if ver == 2 { 1 } else if ver == 3 { 2 } else if ver == 4 { 2 } else if ver == 5 { 4 } else if ver == 6 { 4 } else if ver == 7 { 6 } else if ver == 8 { 6 } else if ver == 9 { 8 } else if ver == 10 { 8 } else if ver == 11 { 8 } else if ver == 12 { 10 } else if ver == 13 { 12 } else if ver == 14 { 16 } else if ver == 15 { 12 } else if ver == 16 { 17 } else if ver == 17 { 16 } else if ver == 18 { 18 } else if ver == 19 { 21 } else if ver == 20 { 20 } else if ver == 21 { 23 } else if ver == 22 { 23 } else if ver == 23 { 25 } else if ver == 24 { 27 } else if ver == 25 { 29 } else if ver == 26 { 34 } else if ver == 27 { 34 } else if ver == 28 { 35 } else if ver == 29 { 38 } else if ver == 30 { 40 } else if ver == 31 { 43 } else if ver == 32 { 45 } else if ver == 33 { 48 } else if ver == 34 { 51 } else if ver == 35 { 53 } else if ver == 36 { 56 } else if ver == 37 { 59 } else if ver == 38 { 62 } else if ver == 39 { 65 } else { 68 } },
        QrCodeEcc::High => { if ver == 1 { 1 } else if ver == 2 { 1 } else if ver == 3 { 2 } else if ver == 4 { 4 } else if ver == 5 { 4 } else if ver == 6 { 4 } else if ver == 7 { 5 } else if ver == 8 { 6 } else if ver == 9 { 8 } else if ver == 10 { 8 } else if ver == 11 { 11 } else if ver == 12 { 11 } else if ver == 13 { 16 } else if ver == 14 { 16 } else if ver == 15 { 18 } else if ver == 16 { 16 } else if ver == 17 { 19 } else if ver == 18 { 21 } else if ver == 19 { 25 } else if ver == 20 { 25 } else if ver == 21 { 25 } else if ver == 22 { 34 } else if ver == 23 { 30 } else if ver == 24 { 32 } else if ver == 25 { 35 } else if ver == 26 { 37 } else if ver == 27 { 40 } else if ver == 28 { 42 } else if ver == 29 { 45 } else if ver == 30 { 48 } else if ver == 31 { 51 } else if ver == 32 { 54 } else if ver == 33 { 57 } else if ver == 34 { 60 } else if ver == 35 { 63 } else if ver == 36 { 66 } else if ver == 37 { 70 } else if ver == 38 { 74 } else if ver == 39 { 77 } else { 81 } },
    }
}

pub fn num_data_codewords(ver: u8, e: QrCodeEcc) -> (r: u32)
    requires
        1 <= ver <= 40,
    ensures
        r == spec_num_data_codewords(ver as int, e),
{
    match e {
        QrCodeEcc::Low => { if ver == 1 { 19 } else if ver == 2 { 34 } else if ver == 3 { 55 } else if ver == 4 { 80 } else if ver == 5 { 108 } else if ver == 6 { 136 } else if ver == 7 { 156 } else if ver == 8 { 194 } else if ver == 9 { 232 } else if ver == 10 { 274 } else if ver == 11 { 324 } else if ver == 12 { 370 } else if ver == 13 { 428 } else if ver == 14 { 461 } else if ver == 15 { 523 } else if ver == 16 { 589 } else if ver == 17 { 647 } else if ver == 18 { 721 } else if ver == 19 { 795 } else if ver == 20 { 861 } else if ver == 21 { 932 } else if ver == 22 { 1006 } else if ver == 23 { 1094 } else if ver == 24 { 1174 } else if ver == 25 { 1276 } else if ver == 26 { 1370 } else if ver == 27 { 1468 } else if ver == 28 { 1531 } else if ver == 29 { 1631 } else if ver == 30 { 1735 } else if ver == 31 { 1843 } else if ver == 32 { 1955 } else if ver == 33 { 2071 } else if ver == 34 { 2191 } else if ver == 35 { 2306 } else if ver == 36 { 2434 } else if ver == 37 { 2566 } else if ver == 38 { 2702 } else if ver == 39 { 2812 } else { 2956 } },
        QrCodeEcc::Medium => { if ver == 1 { 16 } else if ver == 2 { 28 } else if ver == 3 { 44 } else if ver == 4 { 64 } else if ver == 5 { 86 } else if ver == 6 { 108 } else if ver == 7 { 124 } else if ver == 8 { 154 } else if ver == 9 { 182 } else if ver == 10 { 216 } else if ver == 11 { 254 } else if ver == 12 { 290 } else if ver == 13 { 334 } else if ver == 14 { 365 } else if ver == 15 { 415 } else if ver == 16 { 453 } else if ver == 17 { 507 } else if ver == 18 { 563 } else if ver == 19 { 627 } else if ver == 20 { 669 } else if ver == 21 { 714 } else if ver == 22 { 782 } else if ver == 23 { 860 } else if ver == 24 { 914 } else if ver == 25 { 1000 } else if ver == 26 { 1062 } else if ver == 27 { 1128 } else if ver == 28 { 1193 } else if ver == 29 { 1267 } else if ver == 30 { 1373 } else if ver == 31 { 1455 } else if ver == 32 { 1541 } else if ver == 33 { 1631 } else if ver == 34 { 1725 } else if ver == 35 { 1812 } else if ver == 36 { 1914 } else if ver == 37 { 1992 } else if ver == 38 { 2102 } else if ver == 39 { 2216 } else { 2334 } },
        QrCodeEcc::Quartile => { if ver == 1 { 13 } else if ver == 2 { 22 } else if ver == 3 { 34 } else if ver == 4 { 48 } else if ver == 5 { 62 } else if ver == 6 { 76 } else if ver == 7 { 88 } else if ver == 8 { 110 } else if ver == 9 { 132 } else if ver == 10 { 154 } else if ver == 11 { 180 } else if ver == 12 { 206 } else if ver == 13 { 244 } else if ver == 14 { 261 } else if ver == 15 { 295 } else if ver == 16 { 325 } else if ver == 17 { 367 } else if ver == 18 { 397 } else if ver == 19 { 445 } else if ver == 20 { 485 } else if ver == 21 { 512 } else if ver == 22 { 568 } else if ver == 23 { 614 } else if ver == 24 { 664 } else if ver == 25 { 718 } else if ver == 26 { 754 } else if ver == 27 { 808 } else if ver == 28 { 871 } else if ver == 29 { 911 } else if ver == 30 { 985 } else if ver == 31 { 1033 } else if ver == 32 { 1115 } else if ver == 33 { 1171 } else if ver == 34 { 1231 } else if ver == 35 { 1286 } else if ver == 36 { 1354 } else if ver == 37 { 1426 } else if ver == 38 { 1502 } else if ver == 39 { 1582 } else { 1666 } },
        QrCodeEcc::High => { if ver == 1 { 9 } else if ver == 2 { 16 } else if ver == 3 { 26 } else if ver == 4 { 36 } else if ver == 5 { 46 } else if ver == 6 { 60 } else if ver == 7 { 66 } else if ver == 8 { 86 } else if ver == 9 { 100 } else if ver == 10 { 122 } else if ver == 11 { 140 } else if ver == 12 { 158 } else if ver == 13 { 180 } else if ver == 14 { 197 } else if ver == 15 { 223 } else if ver == 16 { 253 } else if ver == 17 { 283 } else if ver == 18 { 313 } else if ver == 19 { 341 } else if ver == 20 { 385 } else if ver == 21 { 406 } else if ver == 22 { 442 } else if ver == 23 { 464 } else if ver == 24 { 514 } else if ver == 25 { 538 } else if ver == 26 { 596 } else if ver == 27 { 628 } else if ver == 28 { 661 } else if ver == 29 { 701 } else if ver == 30 { 745 } else if ver == 31 { 793 } else if ver == 32 { 845 } else if ver == 33 { 901 } else if ver == 34 { 961 } else if ver == 35 { 986 } else if ver == 36 { 1054 } else if ver == 37 { 1096 } else if ver == 38 { 1142 } else if ver == 39 { 1222 } else { 1276 } },
    }
}

/// Facts about the standard tables that the encoding pipeline leans on:
/// bounds of every entry, and consistency of the block structure with the
/// symbol's total codeword count at every (version, level).
pub proof fn lemma_table_facts(v: int, e: QrCodeEcc)
    requires
        1 <= v <= 40,
    ensures
        208 <= spec_raw_data_modules(v) <= 29648,
        26 <= spec_total_codewords(v) <= 3706,
        spec_total_codewords(v) == spec_raw_data_modules(v) / 8,
        0 <= spec_raw_data_modules(v) - 8 * spec_total_codewords(v) < 8,
        1 <= spec_ecc_per_block(e, v) <= 30,
        1 <= spec_num_blocks(e, v) <= 81,
        spec_num_data_codewords(v, e)
            == spec_total_codewords(v) - spec_ecc_per_block(e, v) * spec_num_blocks(e, v),
        spec_total_codewords(v) / spec_num_blocks(e, v) >= spec_ecc_per_block(e, v) + 1,
        spec_num_blocks(e, v) <= spec_num_data_codewords(v, e),
        spec_num_data_codewords(v, e) < spec_total_codewords(v),
        spec_num_data_codewords(v, e) <= 2956,
{
    if v == 1 { match e { QrCodeEcc::Low => {}, QrCodeEcc::Medium => {}, QrCodeEcc::Quartile => {}, QrCodeEcc::High => {} } } else if v == 2 { match e { QrCodeEcc::Low => {}, QrCodeEcc::Medium => {}, QrCodeEcc::Quartile => {}, QrCodeEcc::High => {} } } else if v == 3 { match e { QrCodeEcc::Low => {}, QrCodeEcc::Medium => {}, QrCodeEcc::Quartile => {}, QrCodeEcc::High => {} } } else if v == 4 { match e { QrCodeEcc::Low => {}, QrCodeEcc::Medium => {}, QrCodeEcc::Quartile => {}, QrCodeEcc::High => {} } } else if v == 5 { match e { QrCodeEcc::Low => {}, QrCodeEcc::Medium => {}, QrCodeEcc::Quartile => {}, QrCodeEcc::High => {} } } else if v == 6 { match e { QrCodeEcc::Low => {}, QrCodeEcc::Medium => {}, QrCodeEcc::Quartile => {}, QrCodeEcc::High => {} } } else if v == 7 { match e { QrCodeEcc::Low => {}, QrCodeEcc::Medium => {}, QrCodeEcc::Quartile => {}, QrCodeEcc::High => {} } } else if v == 8 { match e { QrCodeEcc::Low => {}, QrCodeEcc::Medium => {}, QrCodeEcc::Quartile => {}, QrCodeEcc::High => {} } } else if v == 9 { match e { QrCodeEcc::Low => {}, QrCodeEcc::Medium => {}, QrCodeEcc::Quartile => {}, QrCodeEcc::High => {} } } else if v == 10 { match e { QrCodeEcc::Low => {}, QrCodeEcc::Medium => {}, QrCodeEcc::Quartile => {}, QrCodeEcc::High => {} } } else if v == 11 { match e { QrCodeEcc::Low => {}, QrCodeEcc::Medium => {}, QrCodeEcc::Quartile => {}, QrCodeEcc::High => {} } } else if v == 12 { match e { QrCodeEcc::Low => {}, QrCodeEcc::Medium => {}, QrCodeEcc::Quartile => {}, QrCodeEcc::High => {} } } else if v == 13 { match e { QrCodeEcc::Low => {}, QrCodeEcc::Medium => {}, QrCodeEcc::Quartile => {}, QrCodeEcc::High => {} } } else if v == 14 { match e { QrCodeEcc::Low => {}, QrCodeEcc::Medium => {}, QrCodeEcc::Quartile => {}, QrCodeEcc::High => {} } } else if v == 15 { match e { QrCodeEcc::Low => {}, QrCodeEcc::Medium => {}, QrCodeEcc::Quartile => {}, QrCodeEcc::High => {} } } else if v == 16 { match e { QrCodeEcc::Low => {}, QrCodeEcc::Medium => {}, QrCodeEcc::Quartile => {}, QrCodeEcc::High => {} } } else if v == 17 { match e { QrCodeEcc::Low => {}, QrCodeEcc::Medium => {}, QrCodeEcc::Quartile => {}, QrCodeEcc::High => {} } } else if v == 18 { match e { QrCodeEcc::Low => {}, QrCodeEcc::Medium => {}, QrCodeEcc::Quartile => {}, QrCodeEcc::High => {} } } else if v == 19 { match e { QrCodeEcc::Low => {}, QrCodeEcc::Medium => {}, QrCodeEcc::Quartile => {}, QrCodeEcc::High => {} } } else if v == 20 { match e { QrCodeEcc::Low => {}, QrCodeEcc::Medium => {}, QrCodeEcc::Quartile => {}, QrCodeEcc::High => {} } } else if v == 21 { match e { QrCodeEcc::Low => {}, QrCodeEcc::Medium => {}, QrCodeEcc::Quartile => {}, QrCodeEcc::High => {} } } else if v == 22 { match e { QrCodeEcc::Low => {}, QrCodeEcc::Medium => {}, QrCodeEcc::Quartile => {}, QrCodeEcc::High => {} } } else if v == 23 { match e { QrCodeEcc::Low => {}, QrCodeEcc::Medium => {}, QrCodeEcc::Quartile => {}, QrCodeEcc::High => {} } } else if v == 24 { match e { QrCodeEcc::Low => {}, QrCodeEcc::Medium => {}, QrCodeEcc::Quartile => {}, QrCodeEcc::High => {} } } else if v == 25 { match e { QrCodeEcc::Low => {}, QrCodeEcc::Medium => {}, QrCodeEcc::Quartile => {}, QrCodeEcc::High => {} } } else if v == 26 { match e { QrCodeEcc::Low => {}, QrCodeEcc::Medium => {}, QrCodeEcc::Quartile => {}, QrCodeEcc::High => {} } } else if v == 27 { match e { QrCodeEcc::Low => {}, QrCodeEcc::Medium => {}, QrCodeEcc::Quartile => {}, QrCodeEcc::High => {} } } else if v == 28 { match e { QrCodeEcc::Low => {}, QrCodeEcc::Medium => {}, QrCodeEcc::Quartile => {}, QrCodeEcc::High => {} } } else if v == 29 { match e { QrCodeEcc::Low => {}, QrCodeEcc::Medium => {}, QrCodeEcc::Quartile => {}, QrCodeEcc::High => {} } } else if v == 30 { match e { QrCodeEcc::Low => {}, QrCodeEcc::Medium => {}, QrCodeEcc::Quartile => {}, QrCodeEcc::High => {} } } else if v == 31 { match e { QrCodeEcc::Low => {}, QrCodeEcc::Medium => {}, QrCodeEcc::Quartile => {}, QrCodeEcc::High => {} } } else if v == 32 { match e { QrCodeEcc::Low => {}, QrCodeEcc::Medium => {}, QrCodeEcc::Quartile => {}, QrCodeEcc::High => {} } } else if v == 33 { match e { QrCodeEcc::Low => {}, QrCodeEcc::Medium => {}, QrCodeEcc::Quartile => {}, QrCodeEcc::High => {} } } else if v == 34 { match e { QrCodeEcc::Low => {}, QrCodeEcc::Medium => {}, QrCodeEcc::Quartile => {}, QrCodeEcc::High => {} } } else if v == 35 { match e { QrCodeEcc::Low => {}, QrCodeEcc::Medium => {}, QrCodeEcc::Quartile => {}, QrCodeEcc::High => {} } } else if v == 36 { match e { QrCodeEcc::Low => {}, QrCodeEcc::Medium => {}, QrCodeEcc::Quartile => {}, QrCodeEcc::High => {} } } else if v == 37 { match e { QrCodeEcc::Low => {}, QrCodeEcc::Medium => {}, QrCodeEcc::Quartile => {}, QrCodeEcc::High => {} } } else if v == 38 { match e { QrCodeEcc::Low => {}, QrCodeEcc::Medium => {}, QrCodeEcc::Quartile => {}, QrCodeEcc::High => {} } } else if v == 39 { match e { QrCodeEcc::Low => {}, QrCodeEcc::Medium => {}, QrCodeEcc::Quartile => {}, QrCodeEcc::High => {} } } else { match e { QrCodeEcc::Low => {}, QrCodeEcc::Medium => {}, QrCodeEcc::Quartile => {}, QrCodeEcc::High => {} } }
}

/// Number of alignment-pattern coordinates for a version.
pub open spec fn spec_align_count(v: int) -> int {
    if v == 1 { 0 } else { v / 7 + 2 }
}

/// The standard's alignment-pattern center coordinates for a version,
/// ascending; empty for version 1.
pub open spec fn spec_align_positions(v: int) -> Seq<int> {
    if v == 1 { Seq::empty() } else if v == 2 { seq![6int, 18int] } else if v == 3 { seq![6int, 22int] } else if v == 4 { seq![6int, 26int] } else if v == 5 { seq![6int, 30int] } else if v == 6 { seq![6int, 34int] } else if v == 7 { seq![6int, 22int, 38int] } else if v == 8 { seq![6int, 24int, 42int] } else if v == 9 { seq![6int, 26int, 46int] } else if v == 10 { seq![6int, 28int, 50int] } else if v == 11 { seq![6int, 30int, 54int] } else if v == 12 { seq![6int, 32int, 58int] } else if v == 13 { seq![6int, 34int, 62int] } else if v == 14 { seq![6int, 26int, 46int, 66int] } else if v == 15 { seq![6int, 26int, 48int, 70int] } else if v == 16 { seq![6int, 26int, 50int, 74int] } else if v == 17 { seq![6int, 30int, 54int, 78int] } else if v == 18 { seq![6int, 30int, 56int, 82int] } else if v == 19 { seq![6int, 30int, 58int, 86int] } else if v == 20 { seq![6int, 34int, 62int, 90int] } else if v == 21 { seq![6int, 28int, 50int, 72int, 94int] } else if v == 22 { seq![6int, 26int, 50int, 74int, 98int] } else if v == 23 { seq![6int, 30int, 54int, 78int, 102int] } else if v == 24 { seq![6int, 28int, 54int, 80int, 106int] } else if v == 25 { seq![6int, 32int, 58int, 84int, 110int] } else if v == 26 { seq![6int, 30int, 58int, 86int, 114int] } else if v == 27 { seq![6int, 34int, 62int, 90int, 118int] } else if v == 28 { seq![6int, 26int, 50int, 74int, 98int, 122int] } else if v == 29 { seq![6int, 30int, 54int, 78int, 102int, 126int] } else if v == 30 { seq![6int, 26int, 52int, 78int, 104int, 130int] } else if v == 31 { seq![6int, 30int, 56int, 82int, 108int, 134int] } else if v == 32 { seq![6int, 34int, 60int, 86int, 112int, 138int] } else if v == 33 { seq![6int, 30int, 58int, 86int, 114int, 142int] } else if v == 34 { seq![6int, 34int, 62int, 90int, 118int, 146int] } else if v == 35 { seq![6int, 30int, 54int, 78int, 102int, 126int, 150int] } else if v == 36 { seq![6int, 24int, 50int, 76int, 102int, 128int, 154int] } else if v == 37 { seq![6int, 28int, 54int, 80int, 106int, 132int, 158int] } else if v == 38 { seq![6int, 32int, 58int, 84int, 110int, 136int, 162int] } else if v == 39 { seq![6int, 26int, 54int, 82int, 110int, 138int, 166int] } else { seq![6int, 30int, 58int, 86int, 114int, 142int, 170int] }
}

/// The alignment-pattern center coordinates for a version, ascending.
pub fn get_alignment_pattern_positions(ver: u8) -> (r: Vec<u8>)
    requires
        1 <= ver <= 40,
    ensures
        r@.len() == spec_align_positions(ver as int).len(),
        forall|i: int| 0 <= i < r@.len() ==> r@[i] as int == spec_align_positions(ver as int)[i],
        r@.len() == spec_align_count(ver as int),
        r@.len() <= 7,
{
    if ver == 1 { let mut p: Vec<u8> = Vec::new();  p } else if ver == 2 { let mut p: Vec<u8> = Vec::new(); p.push(6); p.push(18); p } else if ver == 3 { let mut p: Vec<u8> = Vec::new(); p.push(6); p.push(22); p } else if ver == 4 { let mut p: Vec<u8> = Vec::new(); p.push(6); p.push(26); p } else if ver == 5 { let mut p: Vec<u8> = Vec::new(); p.push(6); p.push(30); p } else if ver == 6 { let mut p: Vec<u8> = Vec::new(); p.push(6); p.push(34); p } else if ver == 7 { let mut p: Vec<u8> = Vec::new(); p.push(6); p.push(22); p.push(38); p } else if ver == 8 { let mut p: Vec<u8> = Vec::new(); p.push(6); p.push(24); p.push(42); p } else if ver == 9 { let mut p: Vec<u8> = Vec::new(); p.push(6); p.push(26); p.push(46); p } else if ver == 10 { let mut p: Vec<u8> = Vec::new(); p.push(6); p.push(28); p.push(50); p } else if ver == 11 { let mut p: Vec<u8> = Vec::new(); p.push(6); p.push(30); p.push(54); p } else if ver == 12 { let mut p: Vec<u8> = Vec::new(); p.push(6); p.push(32); p.push(58); p } else if ver == 13 { let mut p: Vec<u8> = Vec::new(); p.push(6); p.push(34); p.push(62); p } else if ver == 14 { let mut p: Vec<u8> = Vec::new(); p.push(6); p.push(26); p.push(46); p.push(66); p } else if ver == 15 { let mut p: Vec<u8> = Vec::new(); p.push(6); p.push(26); p.push(48); p.push(70); p } else if ver == 16 { let mut p: Vec<u8> = Vec::new(); p.push(6); p.push(26); p.push(50); p.push(74); p } else if ver == 17 { let mut p: Vec<u8> = Vec::new(); p.push(6); p.push(30); p.push(54); p.push(78); p } else if ver == 18 { let mut p: Vec<u8> = Vec::new(); p.push(6); p.push(30); p.push(56); p.push(82); p } else if ver == 19 { let mut p: Vec<u8> = Vec::new(); p.push(6); p.push(30); p.push(58); p.push(86); p } else if ver == 20 { let mut p: Vec<u8> = Vec::new(); p.push(6); p.push(34); p.push(62); p.push(90); p } else if ver == 21 { let mut p: Vec<u8> = Vec::new(); p.push(6); p.push(28); p.push(50); p.push(72); p.push(94); p } else if ver == 22 { let mut p: Vec<u8> = Vec::new(); p.push(6); p.push(26); p.push(50); p.push(74); p.push(98); p } else if ver == 23 { let mut p: Vec<u8> = Vec::new(); p.push(6); p.push(30); p.push(54); p.push(78); p.push(102); p } else if ver == 24 { let mut p: Vec<u8> = Vec::new(); p.push(6); p.push(28); p.push(54); p.push(80); p.push(106); p } else if ver == 25 { let mut p: Vec<u8> = Vec::new(); p.push(6); p.push(32); p.push(58); p.push(84); p.push(110); p } else if ver == 26 { let mut p: Vec<u8> = Vec::new(); p.push(6); p.push(30); p.push(58); p.push(86); p.push(114); p } else if ver == 27 { let mut p: Vec<u8> = Vec::new(); p.push(6); p.push(34); p.push(62); p.push(90); p.push(118); p } else if ver == 28 { let mut p: Vec<u8> = Vec::new(); p.push(6); p.push(26); p.push(50); p.push(74); p.push(98); p.push(122); p } else if ver == 29 { let mut p: Vec<u8> = Vec::new(); p.push(6); p.push(30); p.push(54); p.push(78); p.push(102); p.push(126); p } else if ver == 30 { let mut p: Vec<u8> = Vec::new(); p.push(6); p.push(26); p.push(52); p.push(78); p.push(104); p.push(130); p } else if ver == 31 { let mut p: Vec<u8> = Vec::new(); p.push(6); p.push(30); p.push(56); p.push(82); p.push(108); p.push(134); p } else if ver == 32 { let mut p: Vec<u8> = Vec::new(); p.push(6); p.push(34); p.push(60); p.push(86); p.push(112); p.push(138); p } else if ver == 33 { let mut p: Vec<u8> = Vec::new(); p.push(6); p.push(30); p.push(58); p.push(86); p.push(114); p.push(142); p } else if ver == 34 { let mut p: Vec<u8> = Vec::new(); p.push(6); p.push(34); p.push(62); p.push(90); p.push(118); p.push(146); p } else if ver == 35 { let mut p: Vec<u8> = Vec::new(); p.push(6); p.push(30); p.push(54); p.push(78); p.push(102); p.push(126); p.push(150); p } else if ver == 36 { let mut p: Vec<u8> = Vec::new(); p.push(6); p.push(24); p.push(50); p.push(76); p.push(102); p.push(128); p.push(154); p } else if ver == 37 { let mut p: Vec<u8> = Vec::new(); p.push(6); p.push(28); p.push(54); p.push(80); p.push(106); p.push(132); p.push(158); p } else if ver == 38 { let mut p: Vec<u8> = Vec::new(); p.push(6); p.push(32); p.push(58); p.push(84); p.push(110); p.push(136); p.push(162); p } else if ver == 39 { let mut p: Vec<u8> = Vec::new(); p.push(6); p.push(26); p.push(54); p.push(82); p.push(110); p.push(138); p.push(166); p } else { let mut p: Vec<u8> = Vec::new(); p.push(6); p.push(30); p.push(58); p.push(86); p.push(114); p.push(142); p.push(170); p }
}

/// Alignment-pattern coordinates are at least 6 and at most five cells
/// less than the side length, and consecutive coordinates differ by at
/// least 5, so distinct patterns never overlap.
pub proof fn lemma_align_positions_facts(v: int)
    requires
        1 <= v <= 40,
    ensures
        spec_align_positions(v).len() == spec_align_count(v) <= 7,
        forall|i: int| 0 <= i < spec_align_positions(v).len()
            ==> 6 <= #[trigger] spec_align_positions(v)[i] <= 4 * v + 17 - 7,
        forall|i: int, j: int| 0 <= i < j < spec_align_positions(v).len()
            ==> #[trigger] spec_align_positions(v)[i] + 5 <= #[trigger] spec_align_positions(v)[j],
{
    if v == 1 { assert(spec_align_positions(v).len() == 0); } else if v == 2 { assert(spec_align_positions(v).len() == 2); } else if v == 3 { assert(spec_align_positions(v).len() == 2); } else if v == 4 { assert(spec_align_positions(v).len() == 2); } else if v == 5 { assert(spec_align_positions(v).len() == 2); } else if v == 6 { assert(spec_align_positions(v).len() == 2); } else if v == 7 { assert(spec_align_positions(v).len() == 3); } else if v == 8 { assert(spec_align_positions(v).len() == 3); } else if v == 9 { assert(spec_align_positions(v).len() == 3); } else if v == 10 { assert(spec_align_positions(v).len() == 3); } else if v == 11 { assert(spec_align_positions(v).len() == 3); } else if v == 12 { assert(spec_align_positions(v).len() == 3); } else if v == 13 { assert(spec_align_positions(v).len() == 3); } else if v == 14 { assert(spec_align_positions(v).len() == 4); } else if v == 15 { assert(spec_align_positions(v).len() == 4); } else if v == 16 { assert(spec_align_positions(v).len() == 4); } else if v == 17 { assert(spec_align_positions(v).len() == 4); } else if v == 18 { assert(spec_align_positions(v).len() == 4); } else if v == 19 { assert(spec_align_positions(v).len() == 4); } else if v == 20 { assert(spec_align_positions(v).len() == 4); } else if v == 21 { assert(spec_align_positions(v).len() == 5); } else if v == 22 { assert(spec_align_positions(v).len() == 5); } else if v == 23 { assert(spec_align_positions(v).len() == 5); } else if v == 24 { assert(spec_align_positions(v).len() == 5); } else if v == 25 { assert(spec_align_positions(v).len() == 5); } else if v == 26 { assert(spec_align_positions(v).len() == 5); } else if v == 27 { assert(spec_align_positions(v).len() == 5); } else if v == 28 { assert(spec_align_positions(v).len() == 6); } else if v == 29 { assert(spec_align_positions(v).len() == 6); } else if v == 30 { assert(spec_align_positions(v).len() == 6); } else if v == 31 { assert(spec_align_positions(v).len() == 6); } else if v == 32 { assert(spec_align_positions(v).len() == 6); } else if v == 33 { assert(spec_align_positions(v).len() == 6); } else if v == 34 { assert(spec_align_positions(v).len() == 6); } else if v == 35 { assert(spec_align_positions(v).len() == 7); } else if v == 36 { assert(spec_align_positions(v).len() == 7); } else if v == 37 { assert(spec_align_positions(v).len() == 7); } else if v == 38 { assert(spec_align_positions(v).len() == 7); } else if v == 39 { assert(spec_align_positions(v).len() == 7); } else { assert(spec_align_positions(v).len() == 7); }
}

} // verus!
