//! The boot kernel's command service: fixed-size command requests and
//! responses, and the commands a console can run against the boot
//! information, the frame allocator and the heap.

use vstd::prelude::*;
use vstd::utf8::{decode_utf8, encode_utf8, valid_utf8};
use crate::kernel_mem::{align_up_spec, AllocationLifetime, AllocationRecord, BumpHeap, FrameAllocator, sat_sub};
use crate::text::{chars_of, decimal, eq_str, hex_digits, push_decimal, push_hex, push_str, trim, trimmed_all, utf8_text};

verus! {

/// Longest command line, in bytes.
pub const COMMAND_MAX: usize = 64;

/// Longest command output, in bytes.
pub const RESPONSE_MAX: usize = 256;

/// Longest error message, in bytes.
pub const ERROR_MAX: usize = 96;

/// A kernel channel, by index.
#[derive(Debug, Clone, Copy, PartialEq, Eq, Structural)]
pub struct ChannelId(pub u8);

impl ChannelId {
    /// The channel's index.
    pub fn index(self) -> (r: usize)
        ensures
            r == self.0,
    {
        self.0 as usize
    }
}

/// A kernel message identifier.
#[derive(Debug, Clone, Copy, PartialEq, Eq, Structural)]
pub struct MessageId(pub u64);

/// The schema version of kernel command messages.
#[derive(Debug, Clone, Copy, PartialEq, Eq, Structural)]
pub struct SchemaVersion {
    pub major: u16,
    pub minor: u16,
}

/// The schema version of kernel command messages (v1.0).
pub open spec fn command_schema() -> SchemaVersion {
    SchemaVersion { major: 1, minor: 0 }
}

/// Why a command failed.
#[derive(Debug, Clone, Copy, PartialEq, Eq, Structural)]
pub enum CommandErrorCode {
    InvalidCommand,
    InvalidArguments,
    Internal,
    ServiceUnavailable,
}

/// `bytes` cut to at most `max` bytes.
pub open spec fn capped(bytes: Seq<u8>, max: nat) -> Seq<u8> {
    if bytes.len() <= max {
        bytes
    } else {
        bytes.take(max as int)
    }
}

/// Copies at most `max` bytes of `src` into the start of `dst` and returns
/// how many it copied.
fn copy_capped<const N: usize>(dst: &mut [u8; N], src: &[u8], max: usize) -> (r: usize)
    requires
        max <= N,
        old(dst)@.len() == N,
    ensures
        r == capped(src@, max as nat).len(),
        r <= max,
        final(dst)@.take(r as int) == capped(src@, max as nat),
        final(dst)@.len() == N,
{
    let len = if src.len() < max {
        src.len()
    } else {
        max
    };
    let mut i: usize = 0;
    while i < len
        invariant
            len <= max <= N,
            len <= src@.len(),
            i <= len,
            dst@.len() == N,
            dst@.take(i as int) == src@.take(i as int),
        decreases len - i,
    {
        dst[i] = src[i];
        assert(dst@.take(i + 1) =~= src@.take(i + 1));
        i = i + 1;
    }
    assert(capped(src@, max as nat) =~= src@.take(len as int));
    len
}

/// The first `len` bytes of an array, as text when they are valid UTF-8.
fn prefix_text<const N: usize>(bytes: &[u8; N], len: usize) -> (r: Option<&str>)
    requires
        len <= N,
        bytes@.len() == N,
    ensures
        r is Some <==> valid_utf8(bytes@.take(len as int)),
        r matches Some(t) ==> t@ == decode_utf8(bytes@.take(len as int)),
{
    let slice = vstd::slice::slice_subrange(bytes.as_slice(), 0, len);
    assert(slice@ == bytes@.take(len as int));
    utf8_text(slice)
}

/// A structured command error, its message cut to `ERROR_MAX` bytes.
#[derive(Debug, Clone, Copy)]
pub struct CommandError {
    code: CommandErrorCode,
    len: usize,
    message: [u8; 96],
}

impl View for CommandError {
    type V = (CommandErrorCode, Seq<u8>);

    closed spec fn view(&self) -> (CommandErrorCode, Seq<u8>) {
        (self.code, self.message@.take(self.len as int))
    }
}

impl CommandError {
    #[verifier::type_invariant]
    spec fn fits(&self) -> bool {
        self.len <= ERROR_MAX && self.message@.len() == ERROR_MAX
    }

    /// An error with a code and a message (cut to `ERROR_MAX` bytes).
    pub fn new(code: CommandErrorCode, message: &str) -> (r: Self)
        ensures
            r@ == (code, capped(encode_utf8(message@), ERROR_MAX as nat)),
    {
        let mut buf = [0u8; 96];
        let len = copy_capped(&mut buf, message.as_bytes(), ERROR_MAX);
        CommandError { code, len, message: buf }
    }

    /// The error's code.
    pub fn code(&self) -> (r: CommandErrorCode)
        ensures
            r == self@.0,
    {
        self.code
    }

    /// The message, when its bytes are valid UTF-8.
    pub fn as_str(&self) -> (r: Option<&str>)
        ensures
            r is Some <==> valid_utf8(self@.1),
            r matches Some(t) ==> t@ == decode_utf8(self@.1),
    {
        proof {
            use_type_invariant(self);
        }
        prefix_text(&self.message, self.len)
    }
}

/// Whether a command succeeded.
#[derive(Debug, Clone, Copy)]
pub enum CommandStatus {
    Success,
    Error(CommandError),
}

/// A command line sent to the command service, at most `COMMAND_MAX` bytes.
#[derive(Debug, Clone, Copy)]
pub struct CommandRequest {
    version: SchemaVersion,
    request_id: MessageId,
    reply_channel: ChannelId,
    len: usize,
    data: [u8; 64],
}

impl CommandRequest {
    #[verifier::type_invariant]
    spec fn fits(&self) -> bool {
        self.len <= COMMAND_MAX && self.data@.len() == COMMAND_MAX
    }

    /// The bytes of the command line.
    pub closed spec fn bytes(&self) -> Seq<u8> {
        self.data@.take(self.len as int)
    }

    /// The request's identifier.
    pub closed spec fn request_id_spec(&self) -> MessageId {
        self.request_id
    }

    /// The channel the response goes to.
    pub closed spec fn reply_channel_spec(&self) -> ChannelId {
        self.reply_channel
    }

    /// The schema version of the request.
    pub closed spec fn version_spec(&self) -> SchemaVersion {
        self.version
    }

    /// A request holding a command line; None for a line longer than
    /// `COMMAND_MAX` bytes.
    pub fn from_bytes(line: &[u8], request_id: MessageId, reply_channel: ChannelId) -> (r: Option<Self>)
        ensures
            line@.len() > COMMAND_MAX ==> r is None,
            line@.len() <= COMMAND_MAX ==> (r matches Some(req) && req.bytes() == line@
                && req.request_id_spec() == request_id && req.reply_channel_spec() == reply_channel
                && req.version_spec() == command_schema()),
    {
        if line.len() > COMMAND_MAX {
            return None;
        }
        let mut data = [0u8; 64];
        let len = copy_capped(&mut data, line, COMMAND_MAX);
        Some(
            CommandRequest {
                version: SchemaVersion { major: 1, minor: 0 },
                request_id,
                reply_channel,
                len,
                data,
            },
        )
    }

    /// The request's identifier.
    pub fn request_id(&self) -> (r: MessageId)
        ensures
            r == self.request_id_spec(),
    {
        self.request_id
    }

    /// The channel the response goes to.
    pub fn reply_channel(&self) -> (r: ChannelId)
        ensures
            r == self.reply_channel_spec(),
    {
        self.reply_channel
    }

    /// The command line, when its bytes are valid UTF-8.
    pub fn as_str(&self) -> (r: Option<&str>)
        ensures
            r is Some <==> valid_utf8(self.bytes()),
            r matches Some(t) ==> t@ == decode_utf8(self.bytes()),
    {
        proof {
            use_type_invariant(self);
        }
        prefix_text(&self.data, self.len)
    }
}

/// The response to a command request.
#[derive(Debug, Clone, Copy)]
pub struct CommandResponse {
    version: SchemaVersion,
    correlation_id: MessageId,
    status: CommandStatus,
    len: usize,
    output: [u8; 256],
}

impl CommandResponse {
    #[verifier::type_invariant]
    spec fn fits(&self) -> bool {
        self.len <= RESPONSE_MAX && self.output@.len() == RESPONSE_MAX
    }

    /// The bytes of the output.
    pub closed spec fn output_bytes(&self) -> Seq<u8> {
        self.output@.take(self.len as int)
    }

    /// The request the response answers.
    pub closed spec fn correlation_spec(&self) -> MessageId {
        self.correlation_id
    }

    /// Whether the command succeeded.
    pub closed spec fn status_spec(&self) -> CommandStatus {
        self.status
    }

    /// The schema version of the response.
    pub closed spec fn version_spec(&self) -> SchemaVersion {
        self.version
    }

    /// A successful response carrying the output (cut to `RESPONSE_MAX`
    /// bytes).
    pub fn ok(correlation_id: MessageId, output: &[u8]) -> (r: Self)
        ensures
            r.output_bytes() == capped(output@, RESPONSE_MAX as nat),
            r.correlation_spec() == correlation_id,
            r.status_spec() is Success,
            r.version_spec() == command_schema(),
    {
        let mut buf = [0u8; 256];
        let len = copy_capped(&mut buf, output, RESPONSE_MAX);
        CommandResponse {
            version: SchemaVersion { major: 1, minor: 0 },
            correlation_id,
            status: CommandStatus::Success,
            len,
            output: buf,
        }
    }

    /// A failed response, without output.
    pub fn error(correlation_id: MessageId, error: CommandError) -> (r: Self)
        ensures
            r.output_bytes() == Seq::<u8>::empty(),
            r.correlation_spec() == correlation_id,
            r.status_spec() == CommandStatus::Error(error),
            r.version_spec() == command_schema(),
    {
        let r = CommandResponse {
            version: SchemaVersion { major: 1, minor: 0 },
            correlation_id,
            status: CommandStatus::Error(error),
            len: 0,
            output: [0u8; 256],
        };
        assert(r.output_bytes() =~= Seq::<u8>::empty());
        r
    }

    /// Whether the command succeeded.
    pub fn status(&self) -> (r: CommandStatus)
        ensures
            r == self.status_spec(),
    {
        self.status
    }

    /// The request the response answers.
    pub fn correlation_id(&self) -> (r: MessageId)
        ensures
            r == self.correlation_spec(),
    {
        self.correlation_id
    }

    /// The output, when its bytes are valid UTF-8.
    pub fn output_str(&self) -> (r: Option<&str>)
        ensures
            r is Some <==> valid_utf8(self.output_bytes()),
            r matches Some(t) ==> t@ == decode_utf8(self.output_bytes()),
    {
        proof {
            use_type_invariant(self);
        }
        prefix_text(&self.output, self.len)
    }
}

/// A message on a kernel channel.
#[derive(Debug, Clone, Copy)]
pub enum KernelMessage {
    Empty,
    CommandRequest(CommandRequest),
    CommandResponse(CommandResponse),
}

/// What the kernel learned at boot.
#[derive(Debug, Clone, Copy, PartialEq, Eq, Structural)]
pub struct BootInfo {
    pub hhdm_offset: Option<u64>,
    pub kernel_phys: Option<u64>,
    pub kernel_virt: Option<u64>,
    pub mem_entries: usize,
    pub mem_total_kib: u64,
    pub mem_usable_kib: u64,
}

impl BootInfo {
    /// Boot information with nothing known.
    pub fn empty() -> (r: Self)
        ensures
            r == (BootInfo {
                hhdm_offset: None,
                kernel_phys: None,
                kernel_virt: None,
                mem_entries: 0,
                mem_total_kib: 0,
                mem_usable_kib: 0,
            }),
    {
        BootInfo {
            hhdm_offset: None,
            kernel_phys: None,
            kernel_virt: None,
            mem_entries: 0,
            mem_total_kib: 0,
            mem_usable_kib: 0,
        }
    }
}

/// The answer of the command service to a command line, as plain values.
pub enum ConsoleReply {
    /// The command ran and printed this text.
    Output(Seq<char>),
    /// The command failed.
    Failure(CommandErrorCode, Seq<char>),
    /// The system halts.
    Halt,
}

/// The command list.
pub open spec fn help_text() -> Seq<char> {
    "commands: help, halt, boot, mem, alloc, heap, heap-alloc, ticks\n"@
}

/// What the `boot` command prints.
pub open spec fn boot_text(boot: BootInfo) -> Seq<char> {
    (match boot.hhdm_offset {
        Some(o) => "hhdm: offset=0x"@ + hex_digits(o as nat) + "\n"@,
        None => "hhdm: unavailable\n"@,
    }) + match (boot.kernel_phys, boot.kernel_virt) {
        (Some(p), Some(v)) => "kernel: phys=0x"@ + hex_digits(p as nat) + " virt=0x"@ + hex_digits(v as nat)
            + "\n"@,
        _ => "kernel: address unavailable\n"@,
    }
}

/// What the `mem` command prints.
pub open spec fn mem_text(boot: BootInfo, allocator: Option<FrameAllocator>) -> Seq<char> {
    "memory: entries="@ + decimal(boot.mem_entries as nat) + " total="@ + decimal(boot.mem_total_kib as nat)
        + " KiB usable="@ + decimal(boot.mem_usable_kib as nat) + " KiB\n"@ + match allocator {
        Some(a) => "allocator: ranges="@ + decimal(a.ranges_spec().len()) + " frames="@ + decimal(
            FrameAllocator::frames_in(a.ranges_spec()) as nat,
        ) + " next=0x"@ + hex_digits(a.next_spec() as nat) + " reclaimed="@ + decimal(a.reclaimed_spec().len())
            + "\n"@,
        None => "allocator: unavailable\n"@,
    }
}

/// What the `heap` command prints.
pub open spec fn heap_text(heap: Option<BumpHeap>) -> Seq<char> {
    match heap {
        Some(h) => "heap: used="@ + decimal(sat_sub(h.next, h.start) as nat) + " bytes free="@ + decimal(
            sat_sub(h.end, h.next) as nat,
        ) + " bytes total="@ + decimal(sat_sub(h.end, h.start) as nat) + " allocs="@ + decimal(
            h.allocations as nat,
        ) + "\n"@,
        None => "heap: unavailable\n"@,
    }
}

/// What the `ticks` command prints.
pub open spec fn ticks_text(ticks: Option<u64>) -> Seq<char> {
    match ticks {
        Some(t) => "kernel ticks: "@ + decimal(t as nat) + " (at 100 Hz)\n"@,
        None => "ticks: unavailable in test mode\n"@,
    }
}

/// How the command service answers a (trimmed) command line, given the
/// boot information, the allocator and heap before the command, the tick
/// count (where the hardware counts ticks) and whether the system can halt.
pub open spec fn console_reply(
    cmd: Seq<char>,
    boot: BootInfo,
    allocator: Option<FrameAllocator>,
    heap: Option<BumpHeap>,
    ticks: Option<u64>,
    halt_supported: bool,
) -> ConsoleReply {
    if cmd.len() == 0 {
        ConsoleReply::Output(Seq::empty())
    } else if cmd == "help"@ {
        ConsoleReply::Output(help_text())
    } else if cmd == "halt"@ {
        if halt_supported {
            ConsoleReply::Halt
        } else {
            ConsoleReply::Failure(CommandErrorCode::ServiceUnavailable, "halt unavailable"@)
        }
    } else if cmd == "boot"@ {
        ConsoleReply::Output(boot_text(boot))
    } else if cmd == "mem"@ {
        ConsoleReply::Output(mem_text(boot, allocator))
    } else if cmd == "alloc"@ {
        match allocator {
            None => ConsoleReply::Failure(CommandErrorCode::ServiceUnavailable, "allocator unavailable"@),
            Some(a) => match FrameAllocator::frame_result(a) {
                None => ConsoleReply::Failure(CommandErrorCode::Internal, "out of memory"@),
                Some(f) => ConsoleReply::Output(
                    match boot.hhdm_offset {
                        Some(o) => "frame: phys=0x"@ + hex_digits(f as nat) + " virt=0x"@ + hex_digits(
                            (o + f) as nat,
                        ) + "\n"@,
                        None => "frame: phys=0x"@ + hex_digits(f as nat) + "\n"@,
                    },
                ),
            },
        }
    } else if cmd == "heap"@ {
        ConsoleReply::Output(heap_text(heap))
    } else if cmd == "heap-alloc"@ {
        match heap {
            None => ConsoleReply::Failure(CommandErrorCode::ServiceUnavailable, "heap unavailable"@),
            Some(h) => match BumpHeap::block_result(h, 64, 16, AllocationLifetime::KernelTransient) {
                None => ConsoleReply::Failure(CommandErrorCode::Internal, "heap out of memory"@),
                Some(rec) => ConsoleReply::Output(
                    "heap: allocated 64 bytes at 0x"@ + hex_digits(rec.start as nat) + " (KernelTransient)\n"@,
                ),
            },
        }
    } else if cmd == "ticks"@ {
        ConsoleReply::Output(ticks_text(ticks))
    } else {
        ConsoleReply::Failure(CommandErrorCode::InvalidCommand, "unknown command"@)
    }
}

/// The command line of a request, trimmed; None where its bytes are not
/// valid UTF-8.
pub open spec fn request_command(request: CommandRequest) -> Option<Seq<char>> {
    if valid_utf8(request.bytes()) {
        Some(trim(decode_utf8(request.bytes())))
    } else {
        None
    }
}

/// What the command service does with a request.
#[derive(Debug, Clone, Copy)]
pub enum CommandOutcome {
    /// Send this response.
    Respond(CommandResponse),
    /// Halt the system.
    Halt,
}

/// A response carries a reply: the output of a command that ran (cut to
/// `RESPONSE_MAX` bytes), or the error of one that failed.
pub open spec fn responds(r: CommandResponse, correlation: MessageId, reply: ConsoleReply) -> bool {
    &&& r.correlation_spec() == correlation
    &&& r.version_spec() == command_schema()
    &&& match reply {
        ConsoleReply::Output(text) => r.status_spec() is Success && r.output_bytes() == capped(
            encode_utf8(text),
            RESPONSE_MAX as nat,
        ),
        ConsoleReply::Failure(code, message) => r.output_bytes() == Seq::<u8>::empty() && (
        r.status_spec() matches CommandStatus::Error(e) && e@ == (
            code,
            capped(encode_utf8(message), ERROR_MAX as nat),
        )),
        ConsoleReply::Halt => false,
    }
}

/// Runs a command request against the kernel state. `ticks` is the tick
/// count where the hardware counts ticks; `halt_supported` says whether the
/// system can halt.
pub fn handle_command(
    boot: &BootInfo,
    allocator: &mut Option<FrameAllocator>,
    heap: &mut Option<BumpHeap>,
    ticks: Option<u64>,
    halt_supported: bool,
    request: &CommandRequest,
) -> (r: CommandOutcome)
    requires
        request_command(*request) == Some("alloc"@) ==> match (boot.hhdm_offset, *old(allocator)) {
            (Some(o), Some(a)) => match FrameAllocator::frame_result(a) {
                Some(f) => o + f <= u64::MAX,
                None => true,
            },
            _ => true,
        },
        request_command(*request) == Some("heap-alloc"@) ==> match *old(heap) {
            Some(h) => h.next + 16 <= usize::MAX && h.allocations < usize::MAX,
            None => true,
        },
    ensures
        match request_command(*request) {
            None => r matches CommandOutcome::Respond(resp) && responds(
                resp,
                request.request_id_spec(),
                ConsoleReply::Failure(CommandErrorCode::InvalidCommand, "invalid utf-8"@),
            ) && *final(allocator) == *old(allocator) && *final(heap) == *old(heap),
            Some(cmd) => {
                let reply = console_reply(cmd, *boot, *old(allocator), *old(heap), ticks, halt_supported);
                &&& reply is Halt ==> r is Halt
                &&& !(reply is Halt) ==> (r matches CommandOutcome::Respond(resp) && responds(
                    resp,
                    request.request_id_spec(),
                    reply,
                ))
                &&& (cmd == "alloc"@ && (*old(allocator)) is Some) ==> (*final(allocator) matches Some(a2)
                    && FrameAllocator::allocates_frame((*old(allocator))->0, a2, FrameAllocator::frame_result(
                    (*old(allocator))->0,
                )))
                &&& !(cmd == "alloc"@ && (*old(allocator)) is Some) ==> *final(allocator) == *old(allocator)
                &&& (cmd == "heap-alloc"@ && (*old(heap)) is Some) ==> (*final(heap) matches Some(h2)
                    && BumpHeap::allocates(
                    (*old(heap))->0,
                    h2,
                    64,
                    16,
                    AllocationLifetime::KernelTransient,
                    BumpHeap::block_result((*old(heap))->0, 64, 16, AllocationLifetime::KernelTransient),
                ))
                &&& !(cmd == "heap-alloc"@ && (*old(heap)) is Some) ==> *final(heap) == *old(heap)
            },
        },
{
    let correlation_id = request.request_id();
    let text = match request.as_str() {
        None => {
            return CommandOutcome::Respond(
                CommandResponse::error(
                    correlation_id,
                    CommandError::new(CommandErrorCode::InvalidCommand, "invalid utf-8"),
                ),
            );
        },
        Some(t) => t,
    };
    let command = trimmed_all(&chars_of(text));
    proof {
        reveal_strlit("help");
        reveal_strlit("halt");
        reveal_strlit("boot");
        reveal_strlit("mem");
        reveal_strlit("alloc");
        reveal_strlit("heap");
        reveal_strlit("heap-alloc");
        reveal_strlit("ticks");
    }
    let mut out = String::new();
    if command.len() == 0 {
    } else if eq_str(&command, "help") {
        push_str(&mut out, "commands: help, halt, boot, mem, alloc, heap, heap-alloc, ticks\n");
        assert(out@ =~= help_text());
    } else if eq_str(&command, "halt") {
        if halt_supported {
            return CommandOutcome::Halt;
        }
        return CommandOutcome::Respond(
            CommandResponse::error(
                correlation_id,
                CommandError::new(CommandErrorCode::ServiceUnavailable, "halt unavailable"),
            ),
        );
    } else if eq_str(&command, "boot") {
        match boot.hhdm_offset {
            Some(offset) => {
                push_str(&mut out, "hhdm: offset=0x");
                push_hex(&mut out, offset);
                push_str(&mut out, "\n");
            },
            None => {
                push_str(&mut out, "hhdm: unavailable\n");
            },
        }
        match (boot.kernel_phys, boot.kernel_virt) {
            (Some(phys), Some(virt)) => {
                push_str(&mut out, "kernel: phys=0x");
                push_hex(&mut out, phys);
                push_str(&mut out, " virt=0x");
                push_hex(&mut out, virt);
                push_str(&mut out, "\n");
            },
            _ => {
                push_str(&mut out, "kernel: address unavailable\n");
            },
        }
        assert(out@ =~= boot_text(*boot));
    } else if eq_str(&command, "mem") {
        push_str(&mut out, "memory: entries=");
        push_decimal(&mut out, boot.mem_entries as u64);
        push_str(&mut out, " total=");
        push_decimal(&mut out, boot.mem_total_kib);
        push_str(&mut out, " KiB usable=");
        push_decimal(&mut out, boot.mem_usable_kib);
        push_str(&mut out, " KiB\n");
        match allocator {
            Some(a) => {
                push_str(&mut out, "allocator: ranges=");
                push_decimal(&mut out, a.range_count() as u64);
                push_str(&mut out, " frames=");
                push_decimal(&mut out, a.total_frames());
                push_str(&mut out, " next=0x");
                push_hex(&mut out, a.next_frame());
                push_str(&mut out, " reclaimed=");
                push_decimal(&mut out, a.reclaimed_count() as u64);
                push_str(&mut out, "\n");
            },
            None => {
                push_str(&mut out, "allocator: unavailable\n");
            },
        }
        assert(out@ =~= mem_text(*boot, *old(allocator)));
    } else if eq_str(&command, "alloc") {
        match allocator {
            Some(a) => match a.allocate_frame() {
                Some(frame) => match boot.hhdm_offset {
                    Some(offset) => {
                        push_str(&mut out, "frame: phys=0x");
                        push_hex(&mut out, frame);
                        push_str(&mut out, " virt=0x");
                        push_hex(&mut out, offset + frame);
                        push_str(&mut out, "\n");
                        assert(out@ =~= "frame: phys=0x"@ + hex_digits(frame as nat) + " virt=0x"@ + hex_digits(
                            (offset + frame) as nat,
                        ) + "\n"@);
                    },
                    None => {
                        push_str(&mut out, "frame: phys=0x");
                        push_hex(&mut out, frame);
                        push_str(&mut out, "\n");
                        assert(out@ =~= "frame: phys=0x"@ + hex_digits(frame as nat) + "\n"@);
                    },
                },
                None => {
                    return CommandOutcome::Respond(
                        CommandResponse::error(
                            correlation_id,
                            CommandError::new(CommandErrorCode::Internal, "out of memory"),
                        ),
                    );
                },
            },
            None => {
                return CommandOutcome::Respond(
                    CommandResponse::error(
                        correlation_id,
                        CommandError::new(CommandErrorCode::ServiceUnavailable, "allocator unavailable"),
                    ),
                );
            },
        }
    } else if eq_str(&command, "heap") {
        match heap {
            Some(h) => {
                let stats = h.stats();
                push_str(&mut out, "heap: used=");
                push_decimal(&mut out, stats.used as u64);
                push_str(&mut out, " bytes free=");
                push_decimal(&mut out, stats.free as u64);
                push_str(&mut out, " bytes total=");
                push_decimal(&mut out, stats.total as u64);
                push_str(&mut out, " allocs=");
                push_decimal(&mut out, stats.allocations as u64);
                push_str(&mut out, "\n");
            },
            None => {
                push_str(&mut out, "heap: unavailable\n");
            },
        }
        assert(out@ =~= heap_text(*old(heap)));
    } else if eq_str(&command, "heap-alloc") {
        match heap {
            Some(h) => match h.allocate(64, 16, AllocationLifetime::KernelTransient) {
                Some(record) => {
                    push_str(&mut out, "heap: allocated 64 bytes at 0x");
                    push_hex(&mut out, record.start as u64);
                    push_str(&mut out, " (KernelTransient)\n");
                    assert(out@ =~= "heap: allocated 64 bytes at 0x"@ + hex_digits(record.start as nat)
                        + " (KernelTransient)\n"@);
                },
                None => {
                    return CommandOutcome::Respond(
                        CommandResponse::error(
                            correlation_id,
                            CommandError::new(CommandErrorCode::Internal, "heap out of memory"),
                        ),
                    );
                },
            },
            None => {
                return CommandOutcome::Respond(
                    CommandResponse::error(
                        correlation_id,
                        CommandError::new(CommandErrorCode::ServiceUnavailable, "heap unavailable"),
                    ),
                );
            },
        }
    } else if eq_str(&command, "ticks") {
        match ticks {
            Some(t) => {
                push_str(&mut out, "kernel ticks: ");
                push_decimal(&mut out, t);
                push_str(&mut out, " (at 100 Hz)\n");
            },
            None => {
                push_str(&mut out, "ticks: unavailable in test mode\n");
            },
        }
        assert(out@ =~= ticks_text(ticks));
    } else {
        return CommandOutcome::Respond(
            CommandResponse::error(
                correlation_id,
                CommandError::new(CommandErrorCode::InvalidCommand, "unknown command"),
            ),
        );
    }
    CommandOutcome::Respond(CommandResponse::ok(correlation_id, out.as_str().as_bytes()))
}

} // verus!
