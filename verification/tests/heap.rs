use pico_wasm_host::heap::{HeapRegion, MemoryUsage, OomReport, TrackingAllocator};

const START: usize = 0x2000_0000;
const SIZE: usize = 470 * 1024;

fn ledger() -> TrackingAllocator {
    TrackingAllocator::new(HeapRegion { start: START, size: SIZE }).unwrap()
}

#[test]
fn region_past_the_address_space_is_none() {
    assert!(TrackingAllocator::new(HeapRegion { start: usize::MAX, size: 1 }).is_none());
    assert!(TrackingAllocator::new(HeapRegion { start: usize::MAX - 1, size: 1 }).is_some());
}

#[test]
fn oversized_request_on_fresh_heap_fails_without_change() {
    let mut l = ledger();
    let r = l.allocate(SIZE + 1, 8, None);
    assert_eq!(r, Err(OomReport { size: SIZE + 1, align: 8, free: SIZE, total: SIZE }));
    assert_eq!(l.used(), 0);
    // even if the inner allocator claimed to have a block
    let r = l.allocate(SIZE + 1, 8, Some(START));
    assert_eq!(r, Err(OomReport { size: SIZE + 1, align: 8, free: SIZE, total: SIZE }));
    assert_eq!(l.used(), 0);
    assert_eq!(l.log_memory_usage(), MemoryUsage { used: 0, free: SIZE, peak: 0 });
}

#[test]
fn granted_request_adds_its_size_and_lifts_the_peak() {
    let mut l = ledger();
    assert_eq!(l.allocate(100, 4, Some(START + 16)), Ok(START + 16));
    assert_eq!(l.log_memory_usage(), MemoryUsage { used: 100, free: SIZE - 100, peak: 100 });
    assert_eq!(l.allocate(50, 2, Some(START + 200)), Ok(START + 200));
    assert_eq!(l.log_memory_usage(), MemoryUsage { used: 150, free: SIZE - 150, peak: 150 });
    l.dealloc(100);
    assert_eq!(l.log_memory_usage(), MemoryUsage { used: 50, free: SIZE - 50, peak: 150 });
    assert_eq!(l.allocate(20, 1, Some(START)), Ok(START));
    assert_eq!(l.log_memory_usage(), MemoryUsage { used: 70, free: SIZE - 70, peak: 150 });
}

#[test]
fn inner_failure_is_reported_with_the_free_bytes() {
    let mut l = ledger();
    assert_eq!(l.allocate(1000, 8, Some(START)), Ok(START));
    let r = l.allocate(64, 16, None);
    assert_eq!(r, Err(OomReport { size: 64, align: 16, free: SIZE - 1000, total: SIZE }));
    assert_eq!(l.used(), 1000);
}

#[test]
fn blocks_outside_the_region_or_misaligned_are_refused() {
    let mut l = ledger();
    assert!(l.allocate(8, 8, Some(START - 8)).is_err());
    assert!(l.allocate(8, 8, Some(START + SIZE - 4)).is_err());
    assert!(l.allocate(8, 8, Some(START + 4)).is_err());
    assert!(l.allocate(8, 0, Some(START)).is_err());
    assert_eq!(l.used(), 0);
    assert_eq!(l.allocate(8, 8, Some(START + SIZE - 8)), Ok(START + SIZE - 8));
    assert_eq!(l.used(), 8);
}

#[test]
fn live_bytes_never_pass_the_region() {
    let mut l = ledger();
    assert_eq!(l.allocate(SIZE, 1, Some(START)), Ok(START));
    assert_eq!(l.allocate(1, 1, Some(START)), Err(OomReport { size: 1, align: 1, free: 0, total: SIZE }));
    assert_eq!(l.log_memory_usage(), MemoryUsage { used: SIZE, free: 0, peak: SIZE });
    l.dealloc(SIZE);
    assert_eq!(l.used(), 0);
}
