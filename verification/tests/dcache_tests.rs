use libkernel::dcache::{
    dcache_line_size, flush_dcache_range_lines, holds_data, set_way_operands, whole_cache_levels,
    CacheLevel,
};

#[test]
fn whole_cache_walks_three_levels() {
    assert_eq!(whole_cache_levels(1), vec![CacheLevel::L1, CacheLevel::L2, CacheLevel::L3]);
    assert!(whole_cache_levels(0).is_empty());
}

#[test]
fn only_data_levels_are_maintained() {
    assert!(!holds_data(0));
    assert!(!holds_data(1));
    assert!(holds_data(2));
    assert!(holds_data(4));
}

#[test]
fn set_way_operands_order_and_bits() {
    // 2 sets, 2 ways: both fields hold 1. The leading zeros of 1 are 63; line size field 0,
    // so sets shift by 4.
    let ops = set_way_operands(CacheLevel::L2, 0, 1, 1);
    let way1 = 1u64 << 63;
    assert_eq!(ops, vec![2 | way1 | (1 << 4), 2 | (1 << 4), 2 | way1, 2]);
}

#[test]
fn set_way_operands_cover_every_line() {
    // 4 sets, 3 ways: one operand per line.
    let ops = set_way_operands(CacheLevel::L1, 2, 2, 3);
    assert_eq!(ops.len(), 12);
    let way_shift = 2u64.leading_zeros() as u64;
    for set in 0..4u64 {
        for way in 0..3u64 {
            assert!(ops.contains(&((way << way_shift) | (set << 6))));
        }
    }
}

#[test]
fn set_way_operands_single_line() {
    // One set, one way: a single operand for way 0 of set 0.
    assert_eq!(set_way_operands(CacheLevel::L1, 2, 0, 0), vec![0]);
    assert_eq!(set_way_operands(CacheLevel::L3, 0, 0, 0), vec![4]);
}

#[test]
fn line_size_from_register_field() {
    assert_eq!(dcache_line_size(4), 64);
    assert_eq!(dcache_line_size(0), 4);
}

#[test]
fn range_lines_cover_range() {
    assert_eq!(flush_dcache_range_lines(0x1010, 0x60, 64), vec![0x1000, 0x1040]);
    assert_eq!(flush_dcache_range_lines(0x1000, 0x40, 64), vec![0x1000]);
    assert_eq!(flush_dcache_range_lines(0x1000, 0x41, 64), vec![0x1000, 0x1040]);
    assert!(flush_dcache_range_lines(0x1000, 0, 64).is_empty());
}

#[test]
fn range_lines_unaligned_start_in_range() {
    // Every byte of [0x103F, 0x1041) lies in a listed line.
    let lines = flush_dcache_range_lines(0x103F, 2, 64);
    for a in 0x103Fusize..0x1041 {
        assert!(lines.iter().any(|&l| l <= a && a < l + 64));
    }
}
