use pandagen::kernel_console::{
    handle_command, BootInfo, ChannelId, CommandErrorCode, CommandOutcome, CommandRequest, CommandResponse,
    CommandStatus, MessageId,
};
use pandagen::kernel_mem::{BumpHeap, FrameAllocator};

fn request(line: &[u8]) -> CommandRequest {
    CommandRequest::from_bytes(line, MessageId(7), ChannelId(1)).unwrap()
}

fn run(
    line: &[u8],
    boot: &BootInfo,
    allocator: &mut Option<FrameAllocator>,
    heap: &mut Option<BumpHeap>,
) -> CommandResponse {
    match handle_command(boot, allocator, heap, None, false, &request(line)) {
        CommandOutcome::Respond(r) => r,
        CommandOutcome::Halt => panic!("unexpected halt"),
    }
}

fn output(r: &CommandResponse) -> String {
    assert!(matches!(r.status(), CommandStatus::Success));
    r.output_str().unwrap().to_string()
}

fn error(r: &CommandResponse) -> (CommandErrorCode, String) {
    match r.status() {
        CommandStatus::Error(e) => (e.code(), e.as_str().unwrap().to_string()),
        CommandStatus::Success => panic!("expected an error"),
    }
}

#[test]
fn test_console_commands() {
    let mut boot = BootInfo::empty();
    boot.hhdm_offset = Some(0xffff_8000_0000_0000);
    boot.kernel_phys = Some(0x20_0000);
    boot.kernel_virt = Some(0xffff_ffff_8000_0000);
    boot.mem_entries = 3;
    boot.mem_total_kib = 4096;
    boot.mem_usable_kib = 2048;
    let mut fa = FrameAllocator::new();
    fa.add_range(0x1000, 0x2000);
    fa.reset_cursor();
    let mut allocator = Some(fa);
    let mut heap = Some(BumpHeap::new(0x1000, 0x60));

    let r = run(b"  help ", &boot, &mut allocator, &mut heap);
    assert_eq!(output(&r), "commands: help, halt, boot, mem, alloc, heap, heap-alloc, ticks\n");
    assert_eq!(r.correlation_id(), MessageId(7));
    assert_eq!(output(&run(b"", &boot, &mut allocator, &mut heap)), "");
    assert_eq!(
        output(&run(b"boot", &boot, &mut allocator, &mut heap)),
        "hhdm: offset=0xffff800000000000\nkernel: phys=0x200000 virt=0xffffffff80000000\n"
    );
    assert_eq!(
        output(&run(b"mem", &boot, &mut allocator, &mut heap)),
        "memory: entries=3 total=4096 KiB usable=2048 KiB\nallocator: ranges=1 frames=2 next=0x1000 reclaimed=0\n"
    );
    assert_eq!(
        output(&run(b"alloc", &boot, &mut allocator, &mut heap)),
        "frame: phys=0x1000 virt=0xffff800000001000\n"
    );
    run(b"alloc", &boot, &mut allocator, &mut heap);
    assert_eq!(
        error(&run(b"alloc", &boot, &mut allocator, &mut heap)),
        (CommandErrorCode::Internal, "out of memory".to_string())
    );
    assert_eq!(
        output(&run(b"heap-alloc", &boot, &mut allocator, &mut heap)),
        "heap: allocated 64 bytes at 0x1000 (KernelTransient)\n"
    );
    assert_eq!(
        error(&run(b"heap-alloc", &boot, &mut allocator, &mut heap)),
        (CommandErrorCode::Internal, "heap out of memory".to_string())
    );
    assert_eq!(
        output(&run(b"heap", &boot, &mut allocator, &mut heap)),
        "heap: used=64 bytes free=32 bytes total=96 allocs=1\n"
    );
    assert_eq!(output(&run(b"ticks", &boot, &mut allocator, &mut heap)), "ticks: unavailable in test mode\n");
    assert_eq!(
        error(&run(b"halt", &boot, &mut allocator, &mut heap)),
        (CommandErrorCode::ServiceUnavailable, "halt unavailable".to_string())
    );
    assert_eq!(
        error(&run(b"reboot", &boot, &mut allocator, &mut heap)),
        (CommandErrorCode::InvalidCommand, "unknown command".to_string())
    );
    assert_eq!(
        error(&run(&[0xff, 0xfe], &boot, &mut allocator, &mut heap)),
        (CommandErrorCode::InvalidCommand, "invalid utf-8".to_string())
    );
    let mut none_alloc = None;
    let mut none_heap = None;
    assert_eq!(
        error(&run(b"alloc", &BootInfo::empty(), &mut none_alloc, &mut none_heap)),
        (CommandErrorCode::ServiceUnavailable, "allocator unavailable".to_string())
    );
    assert_eq!(
        output(&run(b"mem", &BootInfo::empty(), &mut none_alloc, &mut none_heap)),
        "memory: entries=0 total=0 KiB usable=0 KiB\nallocator: unavailable\n"
    );
    assert_eq!(
        output(&run(b"boot", &BootInfo::empty(), &mut none_alloc, &mut none_heap)),
        "hhdm: unavailable\nkernel: address unavailable\n"
    );
}

#[test]
fn test_console_halt_and_ticks_on_hardware() {
    let boot = BootInfo::empty();
    let mut allocator = None;
    let mut heap = None;
    assert!(matches!(
        handle_command(&boot, &mut allocator, &mut heap, Some(5), true, &request(b"halt")),
        CommandOutcome::Halt
    ));
    match handle_command(&boot, &mut allocator, &mut heap, Some(5), true, &request(b"ticks")) {
        CommandOutcome::Respond(r) => assert_eq!(output(&r), "kernel ticks: 5 (at 100 Hz)\n"),
        CommandOutcome::Halt => panic!("unexpected halt"),
    }
    assert!(CommandRequest::from_bytes(&[b'a'; 65], MessageId(1), ChannelId(0)).is_none());
    let long = [b'x'; 300];
    let r = CommandResponse::ok(MessageId(1), &long);
    assert_eq!(r.output_str().unwrap().len(), 256);
}
