use kentos::kentos_alloc::{HeapInitError, HeapPages, HEAP_SIZE, HEAP_START};

#[test]
fn heap_constants() {
    assert_eq!(HEAP_START, 0x4444_4444_0000);
    assert_eq!(HEAP_SIZE, 1000 * 1024);
}

#[test]
fn heap_pages_start_at_heap_start() {
    let p = HeapPages::new();
    assert_eq!(p.next_page(), Some(HEAP_START));
}

#[test]
fn missing_frame_fails_and_keeps_the_page() {
    let mut p = HeapPages::new();
    assert_eq!(p.map_next(None), Err(HeapInitError::FrameAllocationFailed));
    assert_eq!(p.next_page(), Some(HEAP_START));
}

#[test]
fn heap_maps_251_pages_in_order() {
    let mut p = HeapPages::new();
    let mut count = 0u64;
    while let Some(page) = p.next_page() {
        assert_eq!(page, HEAP_START + count * 4096);
        let frame = 0x10_0000 + count * 4096;
        assert_eq!(p.map_next(Some(frame)), Ok((page, frame)));
        count += 1;
    }
    assert_eq!(count, 251);
    assert_eq!(count, HEAP_SIZE / 4096 + 1);
}

#[test]
fn heap_pages_cover_the_heap() {
    let mut p = HeapPages::new();
    let mut pages = Vec::new();
    while let Some(page) = p.next_page() {
        pages.push(page);
        p.map_next(Some(0)).unwrap();
    }
    for a in [HEAP_START, HEAP_START + 1, HEAP_START + HEAP_SIZE - 1, HEAP_START + HEAP_SIZE] {
        assert!(pages.iter().any(|&pg| pg <= a && a < pg + 4096));
    }
}
