use qrosity::bits::bits_to_bytes;
use qrosity::codewords::assemble_bits;
use qrosity::ecc::QrCodeEcc;
use qrosity::format::{get_format_val, get_version_val};
use qrosity::gf256::{reed_solomon_compute_divisor, reed_solomon_compute_remainder};
use qrosity::qrcode::{encode_segments_advanced, Mask, Version};
use qrosity::segment::{make_segments, QrSegmentMode};
use qrosity::tables::{get_alignment_pattern_positions, num_data_codewords, num_raw_data_modules, total_codewords};

#[test]
fn capacity_tables_match_standard_anchors() {
    assert_eq!(num_raw_data_modules(1), 208);
    assert_eq!(num_raw_data_modules(7), 1568);
    assert_eq!(num_raw_data_modules(40), 29648);
    assert_eq!(total_codewords(1), 26);
    assert_eq!(total_codewords(40), 3706);
    assert_eq!(num_data_codewords(1, QrCodeEcc::Low), 19);
    assert_eq!(num_data_codewords(1, QrCodeEcc::Medium), 16);
    assert_eq!(num_data_codewords(1, QrCodeEcc::Quartile), 13);
    assert_eq!(num_data_codewords(1, QrCodeEcc::High), 9);
    assert_eq!(num_data_codewords(40, QrCodeEcc::Low), 2956);
    assert_eq!(num_data_codewords(40, QrCodeEcc::High), 1276);
}

#[test]
fn alignment_positions_match_standard_anchors() {
    assert_eq!(get_alignment_pattern_positions(1), Vec::<u8>::new());
    assert_eq!(get_alignment_pattern_positions(2), vec![6, 18]);
    assert_eq!(get_alignment_pattern_positions(7), vec![6, 22, 38]);
    assert_eq!(get_alignment_pattern_positions(32), vec![6, 34, 60, 86, 112, 138]);
    assert_eq!(get_alignment_pattern_positions(40), vec![6, 30, 58, 86, 114, 142, 170]);
}

#[test]
fn format_and_version_words_match_standard() {
    // Medium with mask 0 has data bits 00000, so the word is the fixed mask.
    assert_eq!(get_format_val(QrCodeEcc::Medium, 0), 0x5412);
    assert_eq!(get_format_val(QrCodeEcc::Low, 0), 0x77C4);
    assert_eq!(get_format_val(QrCodeEcc::High, 7), 0x083B);
    assert_eq!(get_version_val(7), 0x07C94);
    assert_eq!(get_version_val(40), 0x28C69);
}

#[test]
fn segmentation_is_greedy_and_deterministic() {
    let s = make_segments("0123456789");
    assert_eq!(s.len(), 1);
    assert_eq!(s[0].mode, QrSegmentMode::Numeric);
    assert_eq!(s[0].numchars, 10);
    let s = make_segments("HELLO WORLD");
    assert_eq!(s.len(), 1);
    assert_eq!(s[0].mode, QrSegmentMode::Alphanumeric);
    assert_eq!(s[0].numchars, 11);
    let s = make_segments("hello");
    assert_eq!(s.len(), 1);
    assert_eq!(s[0].mode, QrSegmentMode::Byte);
    assert_eq!(s[0].numchars, 5);
    let s = make_segments("");
    assert_eq!(s.len(), 0);
    // byte mode counts UTF-8 bytes
    let s = make_segments("é");
    assert_eq!(s[0].mode, QrSegmentMode::Byte);
    assert_eq!(s[0].numchars, 2);
}

#[test]
fn hello_world_codewords_match_reference_values() {
    // The worked 1-M "HELLO WORLD" example of the standard's literature.
    let segs = make_segments("HELLO WORLD");
    let bits = assemble_bits(&segs, 1, QrCodeEcc::Medium);
    let data = bits_to_bytes(&bits);
    assert_eq!(
        data,
        vec![32, 91, 11, 120, 209, 114, 220, 77, 67, 64, 236, 17, 236, 17, 236, 17]
    );
    let divisor = reed_solomon_compute_divisor(10);
    let ecc = reed_solomon_compute_remainder(&data, &divisor);
    assert_eq!(ecc, vec![196, 35, 39, 119, 235, 215, 231, 226, 93, 23]);
}

#[test]
fn rs_divisor_degree_seven_matches_reference() {
    let d = reed_solomon_compute_divisor(7);
    assert_eq!(d, vec![127, 122, 154, 164, 11, 68, 117]);
}

#[test]
fn scenario_empty_payload_builds_version_one() {
    let segs = make_segments("");
    let qr = encode_segments_advanced(
        &segs,
        QrCodeEcc::Medium,
        Version::min(),
        Version::max(),
        None,
        false,
    )
    .unwrap();
    assert_eq!(qr.version().value(), 1);
    assert_eq!(qr.error_correction_level(), QrCodeEcc::Medium);
    assert_eq!(qr.size(), 21);
    // fixed function patterns, independent of the (empty) payload
    assert!(qr.get_module(0, 0)); // finder outer ring
    assert!(!qr.get_module(1, 1)); // finder light ring
    assert!(qr.get_module(2, 2)); // finder core
    assert!(!qr.get_module(7, 7)); // separator
    assert!(qr.get_module(8, 6)); // timing row, even column
    assert!(!qr.get_module(9, 6)); // timing row, odd column
    assert!(qr.get_module(8, 21 - 8)); // dark module
    // out-of-range queries are light
    assert!(!qr.get_module(-1, 0));
    assert!(!qr.get_module(0, 21));
}

#[test]
fn scenario_hello_world_quartile_version_one() {
    let segs = make_segments("HELLO WORLD");
    let qr = encode_segments_advanced(
        &segs,
        QrCodeEcc::Quartile,
        Version::min(),
        Version::max(),
        None,
        false,
    )
    .unwrap();
    assert_eq!(qr.version().value(), 1);
    assert_eq!(qr.error_correction_level(), QrCodeEcc::Quartile);
    // the eight-mask search is deterministic
    let qr2 = encode_segments_advanced(
        &segs,
        QrCodeEcc::Quartile,
        Version::min(),
        Version::max(),
        None,
        false,
    )
    .unwrap();
    assert_eq!(qr.mask().value(), qr2.mask().value());
    for y in 0..21 {
        for x in 0..21 {
            assert_eq!(qr.get_module(x, y), qr2.get_module(x, y));
        }
    }
    // the standard's worked 1-Q example of this payload also lands on
    // mask six
    assert_eq!(qr.mask().value(), 6);
}

#[test]
fn scenario_long_ascii_payload_reaches_version_forty() {
    // 2900 bytes need 4 + 16 + 23200 bits; the first Low-level capacity
    // at or above that is version 40 (2956 data codewords).
    let payload: String = std::iter::repeat('a').take(2900).collect();
    let segs = make_segments(&payload);
    let qr = encode_segments_advanced(
        &segs,
        QrCodeEcc::Low,
        Version::min(),
        Version::max(),
        None,
        false,
    )
    .unwrap();
    assert_eq!(qr.version().value(), 40);
    assert_eq!(qr.size(), 177);
}

#[test]
fn scenario_oversize_payload_fails_with_data_too_long() {
    // 1300 bytes exceed the 1276 data codewords of version 40 at High.
    let payload: String = std::iter::repeat('a').take(1300).collect();
    let segs = make_segments(&payload);
    let r = encode_segments_advanced(
        &segs,
        QrCodeEcc::High,
        Version::min(),
        Version::max(),
        None,
        false,
    );
    assert!(r.is_err());
}

#[test]
fn scenario_forced_mask_vs_auto() {
    let segs = make_segments("HELLO WORLD");
    let auto = encode_segments_advanced(
        &segs,
        QrCodeEcc::Quartile,
        Version::min(),
        Version::max(),
        None,
        false,
    )
    .unwrap();
    let forced = encode_segments_advanced(
        &segs,
        QrCodeEcc::Quartile,
        Version::min(),
        Version::max(),
        Some(Mask::new(3)),
        false,
    )
    .unwrap();
    assert_eq!(forced.mask().value(), 3);
    let size = auto.size();
    if auto.mask().value() == 3 {
        for y in 0..size {
            for x in 0..size {
                assert_eq!(auto.get_module(x, y), forced.get_module(x, y));
            }
        }
    } else {
        let mut differs = false;
        for y in 0..size {
            for x in 0..size {
                if auto.get_module(x, y) != forced.get_module(x, y) {
                    differs = true;
                }
            }
        }
        assert!(differs);
    }
    // forcing the mask the search picked reproduces the matrix exactly
    let replay = encode_segments_advanced(
        &segs,
        QrCodeEcc::Quartile,
        Version::min(),
        Version::max(),
        Some(Mask::new(auto.mask().value())),
        false,
    )
    .unwrap();
    for y in 0..size {
        for x in 0..size {
            assert_eq!(auto.get_module(x, y), replay.get_module(x, y));
        }
    }
}

#[test]
fn boundary_exact_capacity_succeeds_one_more_digit_moves_up() {
    // 34 digits need exactly 128 bits: the full 1-M capacity.
    let payload34: String = std::iter::repeat('7').take(34).collect();
    let segs = make_segments(&payload34);
    let qr = encode_segments_advanced(
        &segs,
        QrCodeEcc::Medium,
        Version::min(),
        Version::max(),
        None,
        false,
    )
    .unwrap();
    assert_eq!(qr.version().value(), 1);
    // one more digit exceeds version 1 and lands on version 2
    let payload35: String = std::iter::repeat('7').take(35).collect();
    let segs = make_segments(&payload35);
    let qr = encode_segments_advanced(
        &segs,
        QrCodeEcc::Medium,
        Version::min(),
        Version::max(),
        None,
        false,
    )
    .unwrap();
    assert_eq!(qr.version().value(), 2);
    // with the ceiling pinned at version 1 the longer payload is refused
    let r = encode_segments_advanced(
        &segs,
        QrCodeEcc::Medium,
        Version::min(),
        Version::new(1),
        None,
        false,
    );
    assert!(r.is_err());
}

#[test]
fn version_never_decreases_as_payload_grows() {
    let mut last = 0u8;
    for n in [1usize, 10, 30, 60, 120, 300, 700, 1500, 2900] {
        let payload: String = std::iter::repeat('x').take(n).collect();
        let segs = make_segments(&payload);
        let qr = encode_segments_advanced(
            &segs,
            QrCodeEcc::Low,
            Version::min(),
            Version::max(),
            None,
            false,
        )
        .unwrap();
        let v = qr.version().value();
        assert!(v >= last);
        last = v;
    }
}

#[test]
fn boost_upgrades_level_when_it_fits() {
    // an empty payload fits version 1 even at High, so boosting lands there
    let segs = make_segments("");
    let qr = encode_segments_advanced(
        &segs,
        QrCodeEcc::Medium,
        Version::min(),
        Version::max(),
        None,
        true,
    )
    .unwrap();
    assert_eq!(qr.version().value(), 1);
    assert_eq!(qr.error_correction_level(), QrCodeEcc::High);
}

#[test]
fn grid_side_follows_version() {
    for n in [1usize, 100, 500] {
        let payload: String = std::iter::repeat('A').take(n).collect();
        let segs = make_segments(&payload);
        let qr = encode_segments_advanced(
            &segs,
            QrCodeEcc::Low,
            Version::min(),
            Version::max(),
            None,
            false,
        )
        .unwrap();
        assert_eq!(qr.size(), 4 * (qr.version().value() as i32) + 17);
    }
}

fn format_copy_bits(qr: &qrosity::qrcode::QrCode) -> (Vec<bool>, Vec<bool>) {
    let s = qr.size();
    let mut first = Vec::new();
    for i in 0..6 {
        first.push(qr.get_module(8, i));
    }
    first.push(qr.get_module(8, 7));
    first.push(qr.get_module(8, 8));
    first.push(qr.get_module(7, 8));
    for i in 9..15 {
        first.push(qr.get_module(14 - i, 8));
    }
    let mut second = Vec::new();
    for i in 0..8 {
        second.push(qr.get_module(s - 1 - i, 8));
    }
    for i in 8..15 {
        second.push(qr.get_module(8, s - 15 + i));
    }
    (first, second)
}

#[test]
fn format_information_is_written_twice_and_bch_coded() {
    let segs = make_segments("FORMAT CHECK");
    let qr = encode_segments_advanced(
        &segs,
        QrCodeEcc::Medium,
        Version::min(),
        Version::max(),
        None,
        false,
    )
    .unwrap();
    let (first, second) = format_copy_bits(&qr);
    assert_eq!(first, second);
    let word = get_format_val(QrCodeEcc::Medium, qr.mask().value());
    for i in 0..15 {
        assert_eq!(first[i], (word >> i) & 1 == 1);
    }
}
