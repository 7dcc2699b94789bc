use stress_all::rng::{seed_from_time, Rng, DEFAULT_SEED};
use stress_all::workers::{
    write_pattern, CpuWorker, DiskWorker, MemStep, MemWorker, BLOCK_MAX, BLOCK_MIN, FILE_MIN,
    MEM_CHUNK,
};

#[test]
fn xorshift_from_seed_one() {
    let mut rng = Rng::new(1);
    assert_eq!(rng.next_u64(), 1082269761);
    assert_eq!(rng.next_u64(), 1152992998833853505);
    assert_eq!(rng.next_u64(), 11177516664432764457);
}

#[test]
fn next_u32_is_the_low_half() {
    let mut a = Rng::new(1);
    let mut b = Rng::new(1);
    a.next_u64();
    b.next_u64();
    assert_eq!(a.next_u32(), 201397313);
    assert_eq!(b.next_u64(), 1152992998833853505);
    assert_eq!(a.next_u32(), 1854285353);
}

#[test]
fn zero_seed_is_replaced() {
    let mut zero = Rng::new(0);
    let mut default = Rng::new(DEFAULT_SEED);
    let first = zero.next_u64();
    assert_eq!(first, 15860402102123842989);
    assert_eq!(first, default.next_u64());
    assert_ne!(first, 0);
}

#[test]
fn generator_never_reaches_zero() {
    let mut rng = Rng::new(0xffff_ffff_ffff_ffff);
    for _ in 0..10_000 {
        assert_ne!(rng.next_u64(), 0);
    }
}

#[test]
fn seed_mixes_time_and_thread() {
    assert_eq!(
        seed_from_time(123456789012345678901234567890, 0xdeadbeef),
        14083847774950044733
    );
    assert_eq!(seed_from_time(5, 5), 0);
    assert_ne!(seed_from_time(1000, 1), seed_from_time(1000, 2));
}

#[test]
fn cpu_worker_round() {
    let mut w = CpuWorker::new(42);
    assert_eq!(w.value(), 0);
    let step = w.step();
    assert_eq!(step.ops, 17714);
    assert!(!step.pause);
    assert_eq!(w.value(), 17693904009814027940);
}

#[test]
fn cpu_bursts_stay_in_range() {
    let mut w = CpuWorker::new(7);
    let mut total = 0u64;
    for _ in 0..50 {
        let step = w.step();
        assert!(step.ops >= 5000 && step.ops < 20000);
        total += step.ops;
    }
    assert!(total >= 50 * 5000);
}

#[test]
fn memory_worker_with_zero_target_idles() {
    let mut w = MemWorker::new(0, 9);
    assert!(!w.needs_allocation());
    assert!(!w.allocate_next());
    assert_eq!(w.buffer_count(), 0);
    assert_eq!(w.allocated_bytes(), 0);
    for _ in 0..100 {
        assert_eq!(w.step(), MemStep::Idle);
    }
    assert_eq!(w.buffer_count(), 0);
}

#[test]
fn memory_worker_allocates_in_chunks() {
    let mut w = MemWorker::new(9, 1);
    assert!(w.needs_allocation());
    assert!(w.allocate_next());
    assert_eq!(w.buffer_count(), 1);
    assert_eq!(w.buffer_len(0), MEM_CHUNK);
    assert!(w.needs_allocation());
    assert!(w.allocate_next());
    assert_eq!(w.buffer_count(), 2);
    assert_eq!(w.buffer_len(1), 1024 * 1024);
    assert_eq!(w.allocated_bytes(), 9 * 1024 * 1024);
    assert!(!w.needs_allocation());
    assert!(!w.allocate_next());
    assert_eq!(w.buffer_count(), 2);
}

#[test]
fn fresh_buffer_has_every_page_touched() {
    let mut w = MemWorker::new(1, 1);
    assert!(w.allocate_next());
    assert_eq!(w.byte_at(0, 0), 1);
    assert_eq!(w.byte_at(0, 1), 0);
    assert_eq!(w.byte_at(0, 4095), 0);
    assert_eq!(w.byte_at(0, 4096), 1);
    assert_eq!(w.byte_at(0, 1024 * 1024 - 4096), 1);
    assert_eq!(w.byte_at(0, 1024 * 1024 - 1), 0);
}

#[test]
fn memory_worker_touches_one_byte() {
    let mut w = MemWorker::new(1, 3);
    assert!(w.allocate_next());
    assert_eq!(w.byte_at(0, 81090), 0);
    assert_eq!(w.step(), MemStep::Touched { pause: false });
    assert_eq!(w.byte_at(0, 81090), 1);
    assert_eq!(w.allocated_bytes(), 1024 * 1024);
}

#[test]
fn disk_writes_for_a_known_seed() {
    let mut w = DiskWorker::new(16 * 1024 * 1024, 7);
    assert_eq!(w.file_size(), 16 * 1024 * 1024);
    let a = w.next_write();
    assert_eq!((a.offset, a.len, a.flush), (8773632, 4177920, false));
    let b = w.next_write();
    assert_eq!((b.offset, b.len, b.flush), (7708672, 491520, false));
    let c = w.next_write();
    assert_eq!((c.offset, c.len, c.flush), (1785856, 2244608, false));
}

#[test]
fn disk_file_has_a_least_size() {
    let mut w = DiskWorker::new(1000, 7);
    assert_eq!(w.file_size(), FILE_MIN);
    let a = w.next_write();
    assert_eq!((a.offset, a.len), (8192, 4177920));
    assert_eq!(DiskWorker::new(0, 1).file_size(), 4 * 1024 * 1024);
}

#[test]
fn disk_writes_stay_inside_the_file() {
    for (seed, size) in [(1u64, 0u64), (2, 4 * 1024 * 1024), (3, 5_000_000), (4, 1 << 30)] {
        let mut w = DiskWorker::new(size, seed);
        let file_size = w.file_size();
        for _ in 0..2000 {
            let wr = w.next_write();
            assert!(wr.len as u64 >= BLOCK_MIN && wr.len as u64 <= BLOCK_MAX);
            assert_eq!(wr.len as u64 % BLOCK_MIN, 0);
            assert_eq!(wr.offset % BLOCK_MIN, 0);
            assert!(wr.offset + wr.len as u64 <= file_size);
        }
    }
}

#[test]
fn pattern_marks_every_page() {
    let buf = write_pattern();
    assert_eq!(buf.len() as u64, BLOCK_MAX);
    assert_eq!(buf[0], 0);
    assert_eq!(buf[4096], 1);
    assert_eq!(buf[2 * 4096], 2);
    assert_eq!(buf[255 * 4096], 255);
    assert_eq!(buf[256 * 4096], 0);
    assert_eq!(buf[257 * 4096], 1);
    assert_eq!(buf[4097], 0);
    assert_eq!(buf[buf.len() - 1], 0);
}
