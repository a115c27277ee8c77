use map_parser::remap::{is_unrecognized_index, remap_index};

/// The remap table, written out range by range.
fn expected_remap(v: u8) -> u8 {
    match v {
        0 | 1 | 2 => v,
        3..=11 => 0,
        12 => 20,
        13 => 10,
        14 => 11,
        15 => 12,
        16 => 13,
        17..=53 => v - 17 + 21,
        54..=61 => v - 54 + 90,
        _ => ((v as u16 + 100) % 256) as u8,
    }
}

#[test]
fn remap_matches_table_for_all_bytes() {
    for v in 0..=255u8 {
        assert_eq!(remap_index(v), expected_remap(v), "input {}", v);
    }
}

#[test]
fn remap_is_deterministic() {
    for v in 0..=255u8 {
        assert_eq!(remap_index(v), remap_index(v));
    }
}

#[test]
fn remap_unrecognized_shifts_by_100() {
    for v in 62..=155u8 {
        assert_eq!(remap_index(v), v + 100);
    }
    // The shift is reduced to a byte where the sum no longer fits one.
    assert_eq!(remap_index(156), 0);
    assert_eq!(remap_index(200), 44);
    assert_eq!(remap_index(255), 99);
}

#[test]
fn remap_boundary_values() {
    assert_eq!(remap_index(2), 2);
    assert_eq!(remap_index(3), 0);
    assert_eq!(remap_index(11), 0);
    assert_eq!(remap_index(12), 20);
    assert_eq!(remap_index(16), 13);
    assert_eq!(remap_index(17), 21);
    assert_eq!(remap_index(53), 57);
    assert_eq!(remap_index(54), 90);
    assert_eq!(remap_index(61), 97);
    assert_eq!(remap_index(62), 162);
}

#[test]
fn unrecognized_ranges() {
    for v in 0..=61u8 {
        assert!(!is_unrecognized_index(v));
    }
    for v in 62..=255u8 {
        assert!(is_unrecognized_index(v));
    }
}
