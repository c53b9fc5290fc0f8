use pandagen::kernel_mem::{align_down, align_up, AllocationLifetime, BumpHeap, FrameAllocator, Range};
use pandagen::kernel_sched::{Channel, ChannelError, CooperativeScheduler, TaskId, TimeSlice};

#[test]
fn test_frame_allocator_reclaims() {
    let mut allocator = FrameAllocator::new();
    allocator.add_range(0x1000, 0x9000);
    allocator.reset_cursor();

    let first = allocator.allocate_frame().unwrap();
    let second = allocator.allocate_frame().unwrap();
    allocator.free_frame(first);

    let reclaimed = allocator.allocate_frame().unwrap();
    assert_eq!(reclaimed, first);
    assert_ne!(reclaimed, second);
}

#[test]
fn test_frame_allocator_excludes_reserved() {
    let mut allocator = FrameAllocator::new();
    allocator.add_range(0x1000, 0x9000);
    allocator.add_reserved_range(0x3000, 0x2000);
    allocator.reset_cursor();

    let a = allocator.allocate_frame().unwrap();
    let b = allocator.allocate_frame().unwrap();
    let c = allocator.allocate_frame().unwrap();

    assert_eq!(a, 0x1000);
    assert_eq!(b, 0x2000);
    assert_eq!(c, 0x5000);
}

#[test]
fn test_bump_heap_stats() {
    let mut heap = BumpHeap::new(0x1000, 0x1000);
    let stats = heap.stats();
    assert_eq!(stats.used, 0);
    assert_eq!(stats.free, 0x1000);

    let alloc = heap
        .allocate(64, 16, AllocationLifetime::KernelTransient)
        .unwrap();
    assert_eq!(alloc.size, 64);

    let stats = heap.stats();
    assert_eq!(stats.allocations, 1);
    assert!(stats.used >= 64);
}

#[test]
fn test_time_slice_preemption() {
    let mut slice = TimeSlice::new(3);
    assert!(!slice.should_preempt());
    slice.advance(1);
    assert!(!slice.should_preempt());
    slice.advance(1);
    assert!(!slice.should_preempt());
    slice.advance(1);
    assert!(slice.should_preempt());
}

#[test]
fn test_frame_allocator_contiguous_and_exhaustion() {
    let mut allocator = FrameAllocator::new();
    allocator.add_range(0x1000, 0x3000);
    allocator.add_range(0x10_0800, 0x2800);
    allocator.add_range(0x20_0000, 0x0800);
    assert_eq!(allocator.range_count(), 2);
    assert_eq!(allocator.total_frames(), 5);
    allocator.reset_cursor();
    assert_eq!(allocator.next_frame(), 0x1000);
    assert_eq!(allocator.allocate_contiguous(0), None);
    assert_eq!(allocator.allocate_contiguous(2), Some(0x1000));
    assert_eq!(allocator.allocate_contiguous(2), Some(0x10_1000));
    assert_eq!(allocator.allocate_frame(), None);
    allocator.free_frame(0x7000);
    assert_eq!(allocator.reclaimed_count(), 1);
    assert_eq!(allocator.allocate_frame(), Some(0x7000));
    assert_eq!(allocator.first_reserved_overlap(0, 10), None);
    allocator.add_reserved_range(0, 0x800);
    assert_eq!(allocator.reserved_range_count(), 0);
    allocator.add_reserved_range(0, 0x1000);
    assert_eq!(allocator.first_reserved_overlap(0xfff, 0x2000), Some(Range { start: 0, end: 0x1000 }));
}

#[test]
fn test_alignment_helpers() {
    assert_eq!(align_up(0x1001, 0x1000), 0x2000);
    assert_eq!(align_up(0x1000, 0x1000), 0x1000);
    assert_eq!(align_up(5, 0), 5);
    assert_eq!(align_down(0x1fff, 0x1000), 0x1000);
    assert_eq!(align_down(7, 0), 7);
}

#[test]
fn test_bump_heap_exhaustion() {
    let mut heap = BumpHeap::new(0x1001, 0x40);
    let a = heap.allocate(16, 16, AllocationLifetime::KernelStatic).unwrap();
    assert_eq!(a.start, 0x1010);
    assert!(heap.allocate(64, 16, AllocationLifetime::KernelTransient).is_none());
    let stats = heap.stats();
    assert_eq!(stats.used, 0x1f);
    assert_eq!(stats.free, 0x21);
    assert_eq!(stats.total, 0x40);
    assert_eq!(stats.allocations, 1);
}

#[test]
fn test_scheduler_round_robin() {
    let mut sched = CooperativeScheduler::new();
    assert_eq!(sched.next_task(), None);
    for i in 0..10u32 {
        sched.add_task(TaskId(i));
    }
    let turns: Vec<u32> = (0..10).map(|_| sched.next_task().unwrap().0).collect();
    assert_eq!(turns, vec![0, 1, 2, 3, 4, 5, 6, 7, 0, 1]);
}

#[test]
fn test_channel_fifo_and_capacity() {
    let mut channel: Channel<u32> = Channel::new(0);
    assert!(channel.is_empty());
    for i in 1..=8u32 {
        assert_eq!(channel.send(i), Ok(()));
    }
    assert_eq!(channel.send(9), Err(ChannelError::Full));
    assert_eq!(channel.recv(), Some(1));
    assert_eq!(channel.send(9), Ok(()));
    for i in 2..=9u32 {
        assert_eq!(channel.recv(), Some(i));
    }
    assert_eq!(channel.recv(), None);
    channel.send(5).unwrap();
    channel.reset(0);
    assert!(channel.is_empty());
}

#[test]
fn successive_contiguous_blocks_do_not_overlap() {
    let mut allocator = FrameAllocator::new();
    allocator.add_range(0x10000, 0x3000);
    allocator.add_range(0x1000, 0x4000);
    let mut blocks: Vec<(u64, u64)> = Vec::new();
    for pages in [2u64, 1, 2, 1, 3] {
        if let Some(s) = allocator.allocate_contiguous(pages) {
            assert_eq!(s % 4096, 0);
            blocks.push((s, s + pages * 4096));
        }
    }
    assert!(blocks.len() >= 3);
    for (i, a) in blocks.iter().enumerate() {
        for b in blocks.iter().skip(i + 1) {
            assert!(a.1 <= b.0 || b.1 <= a.0);
        }
    }
}
