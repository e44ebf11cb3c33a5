use reflector::layout::{
    check_power_of_two, choose_stride, PoolError, PoolLayout, BUFFER_HEADER_SIZE, HEADROOM_SIZE,
    MAX_PAYLOAD, PAGE_SIZE,
};

#[test]
fn standard_pool_is_two_slots_per_page() {
    let l = PoolLayout::plan(8192, 1518, PAGE_SIZE).unwrap();
    assert_eq!(l.slot_count, 8192);
    assert_eq!(l.stride, 2048);
    assert_eq!(l.alignment, 4096);
    assert_eq!(l.region_size, 16_781_312);
    assert_eq!(l.region_size, 8192 * 2048 + 4096);
    assert_eq!(PAGE_SIZE % l.stride, 0);
    assert_eq!(l.payload_capacity(), 1792);
}

#[test]
fn stride_holds_header_headroom_and_payload() {
    for payload in [0usize, 1, 64, 1500, 1518, 1792, 1793, 4000, 9000, MAX_PAYLOAD] {
        let s = choose_stride(payload).unwrap();
        let need = BUFFER_HEADER_SIZE + HEADROOM_SIZE + payload;
        assert!(s.is_power_of_two());
        assert!(s >= need);
        assert!(s / 2 < need);
    }
}

#[test]
fn stride_exact_values() {
    assert_eq!(choose_stride(0), Ok(256));
    assert_eq!(choose_stride(1500), Ok(2048));
    assert_eq!(choose_stride(1792), Ok(2048));
    assert_eq!(choose_stride(1793), Ok(4096));
    assert_eq!(choose_stride(MAX_PAYLOAD), Ok(131072));
    assert_eq!(choose_stride(MAX_PAYLOAD + 1), Err(PoolError::Population));
}

#[test]
fn powers_of_two_are_recognised() {
    assert!(!check_power_of_two(0));
    assert!(check_power_of_two(1));
    assert!(check_power_of_two(2));
    assert!(!check_power_of_two(3));
    assert!(check_power_of_two(4096));
    assert!(!check_power_of_two(4095));
    assert!(!check_power_of_two(6144));
    assert!(check_power_of_two(1usize << 62));
    assert!(!check_power_of_two(usize::MAX));
}

#[test]
fn alignment_must_be_a_power_of_two() {
    assert_eq!(PoolLayout::plan(8192, 1518, 3000).map(|l| l.stride), Err(PoolError::Allocation));
    assert_eq!(PoolLayout::plan(8192, 1518, 0).map(|l| l.stride), Err(PoolError::Allocation));
}

#[test]
fn oversized_payload_cannot_be_populated() {
    let r = PoolLayout::plan(16, MAX_PAYLOAD + 1, PAGE_SIZE);
    assert_eq!(r.map(|l| l.stride), Err(PoolError::Population));
}

#[test]
fn region_beyond_memory_is_an_allocation_error() {
    let r = PoolLayout::plan(u32::MAX, 1518, 1usize << 62);
    assert_eq!(r.map(|l| l.stride), Err(PoolError::Allocation));
}

#[test]
fn large_stride_is_whole_pages() {
    let l = PoolLayout::plan(4, 9000, PAGE_SIZE).unwrap();
    assert_eq!(l.stride, 16384);
    assert_eq!(l.stride % PAGE_SIZE, 0);
    assert_eq!(l.region_size, 4 * 16384 + 4096);
}

#[test]
fn slots_sit_after_the_aligned_base() {
    let l = PoolLayout::plan(8192, 1518, PAGE_SIZE).unwrap();
    assert_eq!(l.base_padding(4096), 0);
    assert_eq!(l.base_padding(4097), 4095);
    assert_eq!(l.slot_address(4097, 0), 8192);
    assert_eq!(l.slot_address(4097, 1), 10240);
    let last = l.slot_address(4097, 8191);
    assert_eq!(last, 8192 + 8191 * 2048);
    assert!(last + l.stride <= 4097 + l.region_size);
    assert_eq!(l.slot_address(8192, 3), 8192 + 3 * 2048);
}
