use kentos::kentos_memory::{BootInfoFrameAllocator, MemoryRegion};

fn region(start: u64, end: u64, usable: bool) -> MemoryRegion {
    MemoryRegion { start_addr: start, end_addr: end, usable }
}

#[test]
fn usable_frames_skip_unusable_regions() {
    let a = BootInfoFrameAllocator::init(vec![
        region(0x0, 0x1000, false),
        region(0x1000, 0x3000, true),
        region(0x3000, 0x8000, false),
        region(0x8000, 0xA000, true),
    ]);
    assert_eq!(a.usable(0), Some(0x1000));
    assert_eq!(a.usable(1), Some(0x2000));
    assert_eq!(a.usable(2), Some(0x8000));
    assert_eq!(a.usable(3), Some(0x9000));
    assert_eq!(a.usable(4), None);
}

#[test]
fn unaligned_region_steps_from_its_start() {
    // 0x1800, 0x2800, 0x3800 are visited; each gives the frame containing it
    let a = BootInfoFrameAllocator::init(vec![region(0x1800, 0x3801, true)]);
    assert_eq!(a.usable(0), Some(0x1000));
    assert_eq!(a.usable(1), Some(0x2000));
    assert_eq!(a.usable(2), Some(0x3000));
    assert_eq!(a.usable(3), None);
}

#[test]
fn empty_and_inverted_regions_have_no_frames() {
    let a = BootInfoFrameAllocator::init(vec![region(0x5000, 0x5000, true), region(0x9000, 0x4000, true)]);
    assert_eq!(a.usable(0), None);
}

#[test]
fn allocate_frame_hands_out_frames_in_order_then_none() {
    let mut a = BootInfoFrameAllocator::init(vec![region(0x10000, 0x12000, true), region(0x20000, 0x21000, true)]);
    assert_eq!(a.allocate_frame(), Some(0x10000));
    assert_eq!(a.allocate_frame(), Some(0x11000));
    assert_eq!(a.allocate_frame(), Some(0x20000));
    assert_eq!(a.allocate_frame(), None);
    assert_eq!(a.allocate_frame(), None);
}

#[test]
fn addresses_above_52_bits_are_reported() {
    let a = BootInfoFrameAllocator::init(vec![
        region(0x1000, 0x2000, true),
        region(0x10_0000_0000_0000 - 0x1000, 0x10_0000_0000_0000 + 0x2000, true),
    ]);
    assert!(a.addrs_valid(0));
    assert!(a.addrs_valid(1));
    assert!(!a.addrs_valid(2));
    assert!(!a.addrs_valid(100));
    assert_eq!(a.usable(1), Some(0x10_0000_0000_0000 - 0x1000));
}

#[test]
fn addrs_valid_on_a_small_map() {
    let a = BootInfoFrameAllocator::init(vec![region(0x1000, 0x3000, true)]);
    assert!(a.addrs_valid(0));
    assert!(a.addrs_valid(5));
}

#[test]
fn frames_never_repeat_on_a_sorted_aligned_map() {
    let mut a = BootInfoFrameAllocator::init(vec![
        region(0x0, 0x1000, false),
        region(0x1000, 0x9f000, true),
        region(0x9f000, 0x100000, false),
        region(0x100000, 0x140000, true),
    ]);
    let mut last = None;
    let mut n = 0;
    while let Some(f) = a.allocate_frame() {
        assert_eq!(f % 4096, 0);
        if let Some(prev) = last {
            assert!(f > prev);
        }
        last = Some(f);
        n += 1;
    }
    assert_eq!(n, 0x9e + 0x40);
    assert_eq!(a.allocated(), n + 1);
}

#[test]
fn frames_never_repeat_on_an_unsorted_disjoint_map() {
    let mut a = BootInfoFrameAllocator::init(vec![
        region(0x40000, 0x42000, true),
        region(0x0, 0x1000, false),
        region(0x10000, 0x13000, true),
    ]);
    let mut seen = Vec::new();
    while let Some(f) = a.allocate_frame() {
        assert!(!seen.contains(&f));
        assert!((0x40000..0x42000).contains(&f) || (0x10000..0x13000).contains(&f));
        seen.push(f);
    }
    assert_eq!(seen, vec![0x40000, 0x41000, 0x10000, 0x11000, 0x12000]);
}
