use storage_bench::config::IoMode;
use storage_bench::io::patterns::{offset_from_draw, read_decision, sequential_offset, IoPattern};

#[test]
fn sequential_offsets_advance_by_a_block_and_wrap() {
    assert_eq!(sequential_offset(0, 4096, 40960), 4096);
    assert_eq!(sequential_offset(32768, 4096, 40960), 36864);
    assert_eq!(sequential_offset(36864, 4096, 40960), 0);
    assert_eq!(sequential_offset(40960, 4096, 40960), 0);
    // A device that ends within a block: the last block begun is still visited.
    assert_eq!(sequential_offset(4096, 4096, 10000), 8192);
    assert_eq!(sequential_offset(8192, 4096, 10000), 0);
    assert_eq!(sequential_offset(u64::MAX - 10, 4096, u64::MAX), 0);
    assert_eq!(sequential_offset(5, 0, 10), 5);
    assert_eq!(sequential_offset(0, 4096, 0), 0);
}

#[test]
fn sequential_pattern_visits_every_block_once() {
    let mut pattern = IoPattern::new(IoMode::Sequential, 4096, 40960);
    assert_eq!(pattern.mode(), IoMode::Sequential);
    assert_eq!(pattern.block_size(), 4096);
    assert_eq!(pattern.device_size(), 40960);
    let mut offset = 0u64;
    let mut seen = vec![offset];
    for _ in 0..9 {
        offset = pattern.next_offset(offset);
        seen.push(offset);
    }
    assert_eq!(seen, (0..10).map(|k| k * 4096).collect::<Vec<u64>>());
    assert_eq!(pattern.next_offset(offset), 0);
}

#[test]
fn draws_are_rounded_down_to_the_block() {
    assert_eq!(offset_from_draw(0, 4096), 0);
    assert_eq!(offset_from_draw(4095, 4096), 0);
    assert_eq!(offset_from_draw(4096, 4096), 4096);
    assert_eq!(offset_from_draw(10000, 4096), 8192);
    assert_eq!(offset_from_draw(u64::MAX, 512), u64::MAX - 511);
    assert_eq!(offset_from_draw(777, 0), 777);
}

#[test]
fn random_offsets_are_aligned_and_leave_room_for_a_block() {
    let device_size = 1u64 << 24;
    let mut pattern = IoPattern::new(IoMode::Random, 65536, device_size);
    let mut distinct = std::collections::HashSet::new();
    let mut current = 0;
    for _ in 0..5000 {
        current = pattern.next_offset(current);
        assert_eq!(current % 65536, 0);
        assert!(current + 65536 <= device_size);
        distinct.insert(current);
    }
    // 255 offsets are possible; a generator that stands still would give one.
    assert!(distinct.len() > 200);
}

#[test]
fn random_offsets_on_a_device_of_one_block() {
    let mut pattern = IoPattern::new(IoMode::Random, 4096, 4096);
    for _ in 0..100 {
        assert_eq!(pattern.next_offset(0), 0);
    }
    let mut pattern = IoPattern::new(IoMode::Random, 4096, 100);
    assert_eq!(pattern.next_offset(0), 0);
}

#[test]
fn mixed_pattern_is_mostly_sequential() {
    let device_size = 1u64 << 30;
    let mut pattern = IoPattern::new(IoMode::Mixed, 4096, device_size);
    let mut sequential = 0;
    let mut current = 0u64;
    let rounds = 20000;
    for _ in 0..rounds {
        let next = pattern.next_offset(current);
        assert_eq!(next % 4096, 0);
        assert!(next + 4096 <= device_size);
        if next == sequential_offset(current, 4096, device_size) {
            sequential += 1;
        }
        current = next;
    }
    let share = sequential as f64 / rounds as f64;
    assert!(share > 0.67 && share < 0.73, "sequential share: {}", share);
}

#[test]
fn read_decision_compares_the_draw_with_the_percentage() {
    assert!(read_decision(50, 0));
    assert!(read_decision(50, 49));
    assert!(!read_decision(50, 50));
    assert!(!read_decision(50, 99));
    assert!(!read_decision(0, 0));
    assert!(read_decision(100, 99));
    assert!(read_decision(1, 0));
    assert!(!read_decision(1, 1));
}

#[test]
fn fixed_read_percentages_are_certain() {
    let mut pattern = IoPattern::new(IoMode::Random, 4096, 1 << 20);
    for _ in 0..1000 {
        assert!(pattern.is_read(100));
        assert!(pattern.is_read(255));
        assert!(!pattern.is_read(0));
    }
}

#[test]
fn half_the_operations_are_reads_at_fifty_percent() {
    let mut pattern = IoPattern::new(IoMode::Sequential, 4096, 1 << 20);
    let rounds = 20000;
    let reads = (0..rounds).filter(|_| pattern.is_read(50)).count();
    let share = reads as f64 / rounds as f64;
    assert!(share > 0.48 && share < 0.52, "share of reads: {}", share);
    let reads = (0..rounds).filter(|_| pattern.is_read(10)).count();
    let share = reads as f64 / rounds as f64;
    assert!(share > 0.08 && share < 0.12, "share of reads: {}", share);
}
