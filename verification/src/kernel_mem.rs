//! Early-boot memory management: page alignment, a physical frame allocator
//! that hands out page frames from usable ranges while avoiding reserved
//! ones, and a bump heap with allocation statistics.

use vstd::prelude::*;

verus! {

/// Size of a page frame, in bytes.
pub const PAGE_SIZE: u64 = 4096;

/// Most usable ranges a frame allocator keeps.
pub const MAX_RANGES: usize = 32;

/// Most reserved ranges a frame allocator keeps.
pub const MAX_RESERVED: usize = 32;

/// Most freed frames a frame allocator keeps for reuse.
pub const MAX_RECLAIMED: usize = 64;

/// `value` rounded up to a multiple of `align` (unchanged for align 0).
pub open spec fn align_up_spec(value: int, align: int) -> int {
    if align == 0 {
        value
    } else {
        (value + align - 1) / align * align
    }
}

/// `value` rounded down to a multiple of `align` (unchanged for align 0).
pub open spec fn align_down_spec(value: int, align: int) -> int {
    if align == 0 {
        value
    } else {
        value / align * align
    }
}

/// `a + b`, or the largest `u64` where that overflows.
pub open spec fn sat_add(a: u64, b: u64) -> u64 {
    if a + b > u64::MAX {
        u64::MAX
    } else {
        (a + b) as u64
    }
}

/// Rounds a value up to a multiple of `align`.
pub fn align_up(value: u64, align: u64) -> (r: u64)
    requires
        align == 0 || value + align <= u64::MAX,
    ensures
        r == align_up_spec(value as int, align as int),
{
    if align == 0 {
        return value;
    }
    let q = (value + align - 1) / align;
    assert(q * align <= value + align - 1) by (nonlinear_arith)
        requires
            q == (value + align - 1) as int / align as int,
            align > 0,
    ;
    q * align
}

/// Rounds a value down to a multiple of `align`.
pub fn align_down(value: u64, align: u64) -> (r: u64)
    ensures
        r == align_down_spec(value as int, align as int),
{
    if align == 0 {
        return value;
    }
    let q = value / align;
    assert(q * align <= value) by (nonlinear_arith)
        requires
            q == value / align,
            align > 0,
    ;
    q * align
}

/// Rounds a value up to a multiple of `align`.
pub fn align_up_usize(value: usize, align: usize) -> (r: usize)
    requires
        align == 0 || value + align <= usize::MAX,
    ensures
        r == align_up_spec(value as int, align as int),
{
    if align == 0 {
        return value;
    }
    let q = (value + align - 1) / align;
    assert(q * align <= value + align - 1) by (nonlinear_arith)
        requires
            q == (value + align - 1) as int / align as int,
            align > 0,
    ;
    q * align
}

/// Rounding up gives the least multiple of `align` at or above the value;
/// rounding down the greatest at or below it.
pub proof fn lemma_alignment(value: int, align: int)
    requires
        value >= 0,
        align > 0,
    ensures
        align_up_spec(value, align) % align == 0,
        value <= align_up_spec(value, align) < value + align,
        align_down_spec(value, align) % align == 0,
        value - align < align_down_spec(value, align) <= value,
{
    let q = (value + align - 1) / align;
    let r = (value + align - 1) % align;
    assert(value + align - 1 == q * align + r && 0 <= r < align) by (nonlinear_arith)
        requires
            q == (value + align - 1) / align,
            r == (value + align - 1) % align,
            align > 0,
    ;
    assert((q * align) % align == 0) by (nonlinear_arith)
        requires
            align > 0,
    ;
    let q2 = value / align;
    let r2 = value % align;
    assert(value == q2 * align + r2 && 0 <= r2 < align) by (nonlinear_arith)
        requires
            q2 == value / align,
            r2 == value % align,
            align > 0,
    ;
    assert((q2 * align) % align == 0) by (nonlinear_arith)
        requires
            align > 0,
    ;
}

/// A range of physical memory, `start..end`.
#[derive(Debug, Clone, Copy, PartialEq, Eq, Structural)]
pub struct Range {
    pub start: u64,
    pub end: u64,
}

/// The first reserved range that overlaps `start..end`, if any.
pub open spec fn first_overlap(reserved: Seq<Range>, start: u64, end: u64) -> Option<Range>
    decreases reserved.len(),
{
    if reserved.len() == 0 {
        None
    } else if start < reserved[0].end && end > reserved[0].start {
        Some(reserved[0])
    } else {
        first_overlap(reserved.drop_first(), start, end)
    }
}

/// Where a block of `bytes` fits in a range ending at `range_end`, searching
/// up from `start` and skipping past each reserved range it would overlap.
pub open spec fn fit_in_range(reserved: Seq<Range>, start: u64, range_end: u64, bytes: u64) -> Option<u64>
    decreases u64::MAX - start,
{
    let end = sat_add(start, bytes);
    if end > range_end {
        None
    } else {
        match first_overlap(reserved, start, end) {
            None => Some(start),
            Some(r) => if r.end > start {
                fit_in_range(reserved, r.end, range_end, bytes)
            } else {
                None
            },
        }
    }
}

/// The scan of an allocation of `bytes`: from the range at `current`, at
/// `next` or its start, on through later ranges. Gives the block found, and
/// the range and position the scan ends at.
pub open spec fn alloc_scan(ranges: Seq<Range>, reserved: Seq<Range>, current: nat, next: u64, bytes: u64) -> (
    Option<u64>,
    nat,
    u64,
)
    decreases ranges.len() - current,
{
    if current >= ranges.len() {
        (None, current, next)
    } else {
        let range = ranges[current as int];
        let start = if next < range.start {
            range.start
        } else {
            next
        };
        match fit_in_range(reserved, start, range.end, bytes) {
            Some(s) => (Some(s), current, sat_add(s, bytes)),
            None => {
                let c = current + 1;
                let n = if c < ranges.len() {
                    ranges[c as int].start
                } else {
                    next
                };
                alloc_scan(ranges, reserved, c, n, bytes)
            },
        }
    }
}

/// A block of `bytes` at `s` lies in a usable range and overlaps no
/// reserved range.
pub open spec fn block_is_free(ranges: Seq<Range>, reserved: Seq<Range>, s: u64, bytes: u64) -> bool {
    &&& exists|i: int| 0 <= i < ranges.len() && ranges[i].start <= s && sat_add(s, bytes) <= #[trigger] ranges[i].end
    &&& forall|j: int| 0 <= j < reserved.len() ==> !(s < (#[trigger] reserved[j]).end && sat_add(s, bytes) > reserved[j].start)
}

/// The reserved range an overlap search finds is one of them.
proof fn lemma_overlap_found(reserved: Seq<Range>, start: u64, end: u64)
    ensures
        first_overlap(reserved, start, end) matches Some(r) ==> reserved.contains(r),
    decreases reserved.len(),
{
    if reserved.len() > 0 {
        lemma_overlap_found(reserved.drop_first(), start, end);
        match first_overlap(reserved.drop_first(), start, end) {
            Some(r) => {
                if !(start < reserved[0].end && end > reserved[0].start) {
                    let k = choose|k: int| 0 <= k < reserved.drop_first().len() && reserved.drop_first()[k] == r;
                    assert(reserved[k + 1] == r);
                }
            },
            None => {},
        }
        if start < reserved[0].end && end > reserved[0].start {
            assert(reserved.contains(reserved[0]));
        }
    }
}

/// A search within a range that starts on a page boundary, past reserved
/// ranges that end on one, finds a block on a page boundary.
proof fn lemma_fit_aligned(reserved: Seq<Range>, start: u64, range_end: u64, bytes: u64)
    requires
        start % PAGE_SIZE == 0,
        forall|j: int| 0 <= j < reserved.len() ==> (#[trigger] reserved[j]).end % PAGE_SIZE == 0,
    ensures
        fit_in_range(reserved, start, range_end, bytes) matches Some(s) ==> s % PAGE_SIZE == 0,
    decreases u64::MAX - start,
{
    let end = sat_add(start, bytes);
    if end <= range_end {
        lemma_overlap_found(reserved, start, end);
        match first_overlap(reserved, start, end) {
            Some(r) => {
                if r.end > start {
                    let k = choose|k: int| 0 <= k < reserved.len() && reserved[k] == r;
                    assert(reserved[k].end % PAGE_SIZE == 0);
                    lemma_fit_aligned(reserved, r.end, range_end, bytes);
                }
            },
            None => {},
        }
    }
}

/// Where every usable range starts on a page boundary, every reserved
/// range ends on one, the search starts on one and asks for whole pages,
/// an allocation scan finds a block that starts on a page boundary, and
/// the next search starts on one too.
pub proof fn lemma_scan_aligned(ranges: Seq<Range>, reserved: Seq<Range>, current: nat, next: u64, bytes: u64)
    requires
        forall|i: int| 0 <= i < ranges.len() ==> (#[trigger] ranges[i]).start % PAGE_SIZE == 0,
        forall|i: int| 0 <= i < ranges.len() ==> (#[trigger] ranges[i]).end % PAGE_SIZE == 0,
        forall|j: int| 0 <= j < reserved.len() ==> (#[trigger] reserved[j]).end % PAGE_SIZE == 0,
        next % PAGE_SIZE == 0,
        bytes % PAGE_SIZE == 0,
    ensures
        alloc_scan(ranges, reserved, current, next, bytes).0 matches Some(s) ==> s % PAGE_SIZE == 0,
        alloc_scan(ranges, reserved, current, next, bytes).2 % PAGE_SIZE == 0,
    decreases ranges.len() - current,
{
    if current < ranges.len() {
        let range = ranges[current as int];
        let start = if next < range.start {
            range.start
        } else {
            next
        };
        lemma_fit_aligned(reserved, start, range.end, bytes);
        match fit_in_range(reserved, start, range.end, bytes) {
            Some(s) => {
                lemma_fit_sound(reserved, start, range.end, bytes);
                assert((s + bytes) % 4096 == 0) by (nonlinear_arith)
                    requires
                        s % 4096 == 0,
                        bytes % 4096 == 0,
                ;
            },
            None => {
                let c = current + 1;
                let n = if c < ranges.len() {
                    ranges[c as int].start
                } else {
                    next
                };
                lemma_scan_aligned(ranges, reserved, c, n, bytes);
            },
        }
    }
}

/// No reserved range overlaps a block when the search finds none.
proof fn lemma_no_overlap(reserved: Seq<Range>, start: u64, end: u64)
    requires
        first_overlap(reserved, start, end) is None,
    ensures
        forall|j: int| 0 <= j < reserved.len() ==> !(start < (#[trigger] reserved[j]).end && end > reserved[j].start),
    decreases reserved.len(),
{
    if reserved.len() > 0 {
        lemma_no_overlap(reserved.drop_first(), start, end);
        assert forall|j: int| 0 <= j < reserved.len() implies !(start < (#[trigger] reserved[j]).end && end
            > reserved[j].start) by {
            if j > 0 {
                assert(reserved[j] == reserved.drop_first()[j - 1]);
            }
        }
    }
}

/// The overlap the search finds does overlap the block.
proof fn lemma_first_overlap_overlaps(reserved: Seq<Range>, start: u64, end: u64)
    ensures
        first_overlap(reserved, start, end) matches Some(r) ==> start < r.end && end > r.start,
    decreases reserved.len(),
{
    if reserved.len() > 0 {
        lemma_first_overlap_overlaps(reserved.drop_first(), start, end);
    }
}

/// What the search in a range finds lies in the range, at or above where
/// the search started, and overlaps no reserved range.
proof fn lemma_fit_sound(reserved: Seq<Range>, start: u64, range_end: u64, bytes: u64)
    ensures
        fit_in_range(reserved, start, range_end, bytes) matches Some(s) ==> start <= s && sat_add(s, bytes)
            <= range_end && forall|j: int| 0 <= j < reserved.len() ==> !(s < (#[trigger] reserved[j]).end
            && sat_add(s, bytes) > reserved[j].start),
    decreases u64::MAX - start,
{
    let end = sat_add(start, bytes);
    if end <= range_end {
        match first_overlap(reserved, start, end) {
            None => {
                lemma_no_overlap(reserved, start, end);
            },
            Some(r) => {
                if r.end > start {
                    lemma_fit_sound(reserved, r.end, range_end, bytes);
                }
            },
        }
    }
}

/// Where a scan finds a block: in the range it ends at, which is the one
/// it started from or a later one, at or past the start position when it
/// is the first; the next search starts at the block's end.
proof fn lemma_scan_place(ranges: Seq<Range>, reserved: Seq<Range>, current: nat, next: u64, bytes: u64)
    ensures
        alloc_scan(ranges, reserved, current, next, bytes).0 matches Some(s) ==> {
            let c = alloc_scan(ranges, reserved, current, next, bytes).1;
            &&& current <= c < ranges.len()
            &&& ranges[c as int].start <= s
            &&& sat_add(s, bytes) <= ranges[c as int].end
            &&& c == current ==> next <= s
            &&& alloc_scan(ranges, reserved, current, next, bytes).2 == sat_add(s, bytes)
        },
    decreases ranges.len() - current,
{
    if current < ranges.len() {
        let range = ranges[current as int];
        let start = if next < range.start {
            range.start
        } else {
            next
        };
        lemma_fit_sound(reserved, start, range.end, bytes);
        match fit_in_range(reserved, start, range.end, bytes) {
            Some(s) => {},
            None => {
                let c = current + 1;
                let n = if c < ranges.len() {
                    ranges[c as int].start
                } else {
                    next
                };
                lemma_scan_place(ranges, reserved, c, n, bytes);
            },
        }
    }
}

/// Where the usable ranges do not overlap one another, two blocks found by
/// successive scans, the second starting where the first ended, do not
/// overlap: without a cursor reset in between, successive allocations
/// never hand out the same memory twice.
pub proof fn lemma_successive_scans_disjoint(
    ranges: Seq<Range>,
    reserved: Seq<Range>,
    current: nat,
    next: u64,
    b1: u64,
    b2: u64,
)
    requires
        forall|i: int, j: int|
            0 <= i < ranges.len() && 0 <= j < ranges.len() && i != j ==> #[trigger] ranges[i].end <= #[trigger] ranges[j].start
                || ranges[j].end <= ranges[i].start,
    ensures
        ({
            let first = alloc_scan(ranges, reserved, current, next, b1);
            let second = alloc_scan(ranges, reserved, first.1, first.2, b2);
            (first.0 is Some && second.0 is Some) ==> (sat_add(first.0->0, b1) <= second.0->0 || sat_add(
                second.0->0,
                b2,
            ) <= first.0->0)
        }),
{
    let first = alloc_scan(ranges, reserved, current, next, b1);
    lemma_scan_place(ranges, reserved, current, next, b1);
    lemma_scan_place(ranges, reserved, first.1, first.2, b2);
    let second = alloc_scan(ranges, reserved, first.1, first.2, b2);
    if first.0 is Some && second.0 is Some {
        let c1 = first.1 as int;
        let c2 = second.1 as int;
        if c1 != c2 {
            assert(ranges[c1].end <= ranges[c2].start || ranges[c2].end <= ranges[c1].start);
        }
    }
}

/// Every block an allocation finds lies in a usable range and overlaps no
/// reserved range.
pub proof fn lemma_alloc_scan_sound(ranges: Seq<Range>, reserved: Seq<Range>, current: nat, next: u64, bytes: u64)
    ensures
        alloc_scan(ranges, reserved, current, next, bytes).0 matches Some(s) ==> block_is_free(
            ranges,
            reserved,
            s,
            bytes,
        ),
    decreases ranges.len() - current,
{
    if current < ranges.len() {
        let range = ranges[current as int];
        let start = if next < range.start {
            range.start
        } else {
            next
        };
        lemma_fit_sound(reserved, start, range.end, bytes);
        match fit_in_range(reserved, start, range.end, bytes) {
            Some(s) => {
                assert(ranges[current as int].start <= s && sat_add(s, bytes) <= ranges[current as int].end);
            },
            None => {
                let c = current + 1;
                let n = if c < ranges.len() {
                    ranges[c as int].start
                } else {
                    next
                };
                lemma_alloc_scan_sound(ranges, reserved, c, n, bytes);
            },
        }
    }
}

/// Hands out physical page frames: freed frames first (last freed first),
/// then blocks from the usable ranges in order, never overlapping a
/// reserved range.
#[derive(Debug)]
pub struct FrameAllocator {
    ranges: Vec<Range>,
    current: usize,
    next: u64,
    reclaimed: Vec<u64>,
    reserved: Vec<Range>,
}

impl FrameAllocator {
    #[verifier::type_invariant]
    spec fn bounded(&self) -> bool {
        &&& self.ranges@.len() <= MAX_RANGES
        &&& self.reserved@.len() <= MAX_RESERVED
        &&& self.reclaimed@.len() <= MAX_RECLAIMED
        &&& forall|i: int| 0 <= i < self.ranges@.len() ==> (#[trigger] self.ranges@[i]).start < self.ranges@[i].end
    }

    /// The usable ranges, in the order they were added.
    pub closed spec fn ranges_spec(&self) -> Seq<Range> {
        self.ranges@
    }

    /// The reserved ranges, in the order they were added.
    pub closed spec fn reserved_spec(&self) -> Seq<Range> {
        self.reserved@
    }

    /// The freed frames kept for reuse, the last freed last.
    pub closed spec fn reclaimed_spec(&self) -> Seq<u64> {
        self.reclaimed@
    }

    /// The index of the range the next allocation searches first.
    pub closed spec fn current_spec(&self) -> nat {
        self.current as nat
    }

    /// Where the next allocation starts searching.
    pub closed spec fn next_spec(&self) -> u64 {
        self.next
    }

    /// An allocator with no ranges.
    pub fn new() -> (r: Self)
        ensures
            r.ranges_spec() == Seq::<Range>::empty(),
            r.reserved_spec() == Seq::<Range>::empty(),
            r.reclaimed_spec() == Seq::<u64>::empty(),
            r.current_spec() == 0,
            r.next_spec() == 0,
    {
        FrameAllocator {
            ranges: Vec::new(),
            current: 0,
            next: 0,
            reclaimed: Vec::new(),
            reserved: Vec::new(),
        }
    }

    /// The page-aligned range inside `base..base + length` (the end
    /// saturating), if it holds at least a page.
    pub open spec fn page_range(base: u64, length: u64) -> Option<Range> {
        let start = align_up_spec(base as int, PAGE_SIZE as int);
        let end = align_down_spec(sat_add(base, length) as int, PAGE_SIZE as int);
        if end <= start {
            None
        } else {
            Some(Range { start: start as u64, end: end as u64 })
        }
    }

    /// Adds a usable range, shrunk to whole pages; ignored when it holds no
    /// page or the allocator already keeps the most ranges it can.
    pub fn add_range(&mut self, base: u64, length: u64)
        requires
            base + PAGE_SIZE <= u64::MAX,
        ensures
            match Self::page_range(base, length) {
                Some(r) => old(self).ranges_spec().len() < MAX_RANGES ==> final(self).ranges_spec() == old(self).ranges_spec().push(r),
                None => true,
            },
            (Self::page_range(base, length) is None || old(self).ranges_spec().len() >= MAX_RANGES) ==> final(self).ranges_spec() == old(self).ranges_spec(),
            final(self).reserved_spec() == old(self).reserved_spec(),
            final(self).reclaimed_spec() == old(self).reclaimed_spec(),
            final(self).current_spec() == old(self).current_spec(),
            final(self).next_spec() == old(self).next_spec(),
    {
        proof {
            use_type_invariant(&*self);
        }
        let start = align_up(base, PAGE_SIZE);
        let end = align_down(base.saturating_add(length), PAGE_SIZE);
        if end <= start || self.ranges.len() >= MAX_RANGES {
            return;
        }
        let mut ranges: Vec<Range> = Vec::new();
        std::mem::swap(&mut ranges, &mut self.ranges);
        ranges.push(Range { start, end });
        self.ranges = ranges;
    }

    /// Adds a reserved range, shrunk to whole pages; ignored when it holds
    /// no page or the allocator already keeps the most it can.
    pub fn add_reserved_range(&mut self, base: u64, length: u64)
        requires
            base + PAGE_SIZE <= u64::MAX,
        ensures
            match Self::page_range(base, length) {
                Some(r) => old(self).reserved_spec().len() < MAX_RESERVED ==> final(self).reserved_spec()
                    == old(self).reserved_spec().push(r),
                None => true,
            },
            (Self::page_range(base, length) is None || old(self).reserved_spec().len() >= MAX_RESERVED)
                ==> final(self).reserved_spec() == old(self).reserved_spec(),
            final(self).ranges_spec() == old(self).ranges_spec(),
            final(self).reclaimed_spec() == old(self).reclaimed_spec(),
            final(self).current_spec() == old(self).current_spec(),
            final(self).next_spec() == old(self).next_spec(),
    {
        proof {
            use_type_invariant(&*self);
        }
        let start = align_up(base, PAGE_SIZE);
        let end = align_down(base.saturating_add(length), PAGE_SIZE);
        if end <= start || self.reserved.len() >= MAX_RESERVED {
            return;
        }
        let mut reserved: Vec<Range> = Vec::new();
        std::mem::swap(&mut reserved, &mut self.reserved);
        reserved.push(Range { start, end });
        self.reserved = reserved;
    }

    /// The number of reserved ranges.
    pub fn reserved_range_count(&self) -> (r: usize)
        ensures
            r == self.reserved_spec().len(),
    {
        self.reserved.len()
    }

    /// Restarts the search at the start of the first range.
    pub fn reset_cursor(&mut self)
        ensures
            final(self).current_spec() == 0,
            final(self).next_spec() == if old(self).ranges_spec().len() > 0 {
                old(self).ranges_spec()[0].start
            } else {
                0
            },
            final(self).ranges_spec() == old(self).ranges_spec(),
            final(self).reserved_spec() == old(self).reserved_spec(),
            final(self).reclaimed_spec() == old(self).reclaimed_spec(),
    {
        proof {
            use_type_invariant(&*self);
        }
        self.current = 0;
        self.next = if self.ranges.len() > 0 {
            self.ranges[0].start
        } else {
            0
        };
    }

    /// The number of usable ranges.
    pub fn range_count(&self) -> (r: usize)
        ensures
            r == self.ranges_spec().len(),
    {
        self.ranges.len()
    }

    /// The whole pages in the usable ranges, the sum saturating.
    pub open spec fn frames_in(ranges: Seq<Range>) -> u64
        decreases ranges.len(),
    {
        if ranges.len() == 0 {
            0
        } else {
            let r = ranges.last();
            sat_add(Self::frames_in(ranges.drop_last()), ((r.end - r.start) / PAGE_SIZE as int) as u64)
        }
    }

    /// The number of whole pages in the usable ranges (saturating).
    pub fn total_frames(&self) -> (r: u64)
        ensures
            r == Self::frames_in(self.ranges_spec()),
    {
        proof {
            use_type_invariant(self);
        }
        let mut total: u64 = 0;
        let mut i: usize = 0;
        while i < self.ranges.len()
            invariant
                i <= self.ranges@.len(),
                forall|k: int| 0 <= k < self.ranges@.len() ==> (#[trigger] self.ranges@[k]).start < self.ranges@[k].end,
                total == Self::frames_in(self.ranges@.take(i as int)),
            decreases self.ranges.len() - i,
        {
            let range = self.ranges[i];
            assert(self.ranges@.take(i + 1).drop_last() == self.ranges@.take(i as int));
            total = total.saturating_add((range.end - range.start) / PAGE_SIZE);
            i = i + 1;
        }
        assert(self.ranges@.take(self.ranges@.len() as int) == self.ranges@);
        total
    }

    /// Where the next allocation starts searching.
    pub fn next_frame(&self) -> (r: u64)
        ensures
            r == self.next_spec(),
    {
        self.next
    }

    /// The number of freed frames kept for reuse.
    pub fn reclaimed_count(&self) -> (r: usize)
        ensures
            r == self.reclaimed_spec().len(),
    {
        self.reclaimed.len()
    }

    /// The frame an allocation of one frame gives: the last freed frame if
    /// any, else a page from the ranges.
    pub open spec fn frame_result(a: FrameAllocator) -> Option<u64> {
        if a.reclaimed_spec().len() > 0 {
            Some(a.reclaimed_spec().last())
        } else {
            alloc_scan(a.ranges_spec(), a.reserved_spec(), a.current_spec(), a.next_spec(), PAGE_SIZE).0
        }
    }

    /// `after` is `before` after allocating one frame, which gave `r`.
    pub open spec fn allocates_frame(before: FrameAllocator, after: FrameAllocator, r: Option<u64>) -> bool {
        &&& r == Self::frame_result(before)
        &&& before.reclaimed_spec().len() > 0 ==> after.reclaimed_spec() == before.reclaimed_spec().drop_last()
            && after.current_spec() == before.current_spec() && after.next_spec() == before.next_spec()
        &&& before.reclaimed_spec().len() == 0 ==> ({
            let scan = alloc_scan(
                before.ranges_spec(),
                before.reserved_spec(),
                before.current_spec(),
                before.next_spec(),
                PAGE_SIZE,
            );
            &&& after.current_spec() == scan.1
            &&& after.next_spec() == scan.2
            &&& after.reclaimed_spec() == before.reclaimed_spec()
        })
        &&& after.ranges_spec() == before.ranges_spec()
        &&& after.reserved_spec() == before.reserved_spec()
    }

    /// Allocates one frame: the last freed frame if any, else a page from
    /// the ranges.
    pub fn allocate_frame(&mut self) -> (r: Option<u64>)
        ensures
            Self::allocates_frame(*old(self), *final(self), r),
    {
        proof {
            use_type_invariant(&*self);
        }
        if self.reclaimed.len() > 0 {
            let mut reclaimed: Vec<u64> = Vec::new();
            std::mem::swap(&mut reclaimed, &mut self.reclaimed);
            let frame = reclaimed.pop();
            self.reclaimed = reclaimed;
            return frame;
        }
        self.allocate_contiguous(1)
    }

    /// Keeps a freed frame for reuse, unless the most are kept already.
    pub fn free_frame(&mut self, frame: u64)
        ensures
            old(self).reclaimed_spec().len() < MAX_RECLAIMED ==> final(self).reclaimed_spec() == old(self).reclaimed_spec().push(frame),
            old(self).reclaimed_spec().len() >= MAX_RECLAIMED ==> final(self).reclaimed_spec() == old(self).reclaimed_spec(),
            final(self).ranges_spec() == old(self).ranges_spec(),
            final(self).reserved_spec() == old(self).reserved_spec(),
            final(self).current_spec() == old(self).current_spec(),
            final(self).next_spec() == old(self).next_spec(),
    {
        proof {
            use_type_invariant(&*self);
        }
        if self.reclaimed.len() >= MAX_RECLAIMED {
            return;
        }
        let mut reclaimed: Vec<u64> = Vec::new();
        std::mem::swap(&mut reclaimed, &mut self.reclaimed);
        reclaimed.push(frame);
        self.reclaimed = reclaimed;
    }

    /// Allocates `pages` contiguous pages from the ranges: searching from
    /// where the last allocation ended, skipping reserved ranges, moving on
    /// to the next range when one is exhausted. None for zero pages.
    pub fn allocate_contiguous(&mut self, pages: u64) -> (r: Option<u64>)
        ensures
            pages == 0 ==> r is None && final(self).current_spec() == old(self).current_spec()
                && final(self).next_spec() == old(self).next_spec(),
            pages > 0 ==> ({
                let bytes = if pages * PAGE_SIZE > u64::MAX {
                    u64::MAX
                } else {
                    (pages * PAGE_SIZE) as u64
                };
                let scan = alloc_scan(
                    old(self).ranges_spec(),
                    old(self).reserved_spec(),
                    old(self).current_spec(),
                    old(self).next_spec(),
                    bytes,
                );
                &&& r == scan.0
                &&& final(self).current_spec() == scan.1
                &&& final(self).next_spec() == scan.2
            }),
            final(self).ranges_spec() == old(self).ranges_spec(),
            final(self).reserved_spec() == old(self).reserved_spec(),
            final(self).reclaimed_spec() == old(self).reclaimed_spec(),
    {
        proof {
            use_type_invariant(&*self);
        }
        if pages == 0 {
            return None;
        }
        let bytes = match pages.checked_mul(PAGE_SIZE) {
            Some(b) => b,
            None => u64::MAX,
        };
        let ghost ranges = self.ranges@;
        let ghost reserved = self.reserved@;
        let ghost reclaimed = self.reclaimed@;
        let ghost goal = alloc_scan(ranges, reserved, self.current as nat, self.next, bytes);
        while self.current < self.ranges.len()
            invariant
                self.bounded(),
                ranges == self.ranges@,
                reserved == self.reserved@,
                reclaimed == self.reclaimed@,
                ranges == old(self).ranges@,
                reserved == old(self).reserved@,
                reclaimed == old(self).reclaimed@,
                pages > 0,
                bytes == (if pages * PAGE_SIZE > u64::MAX {
                    u64::MAX
                } else {
                    (pages * PAGE_SIZE) as u64
                }),
                goal == alloc_scan(ranges, reserved, old(self).current as nat, old(self).next, bytes),
                goal == alloc_scan(ranges, reserved, self.current as nat, self.next, bytes),
            decreases self.ranges@.len() - self.current,
        {
            let range = self.ranges[self.current];
            let mut start = if self.next < range.start {
                range.start
            } else {
                self.next
            };
            let ghost first = start;
            let ghost cur = self.current;
            let ghost nxt = self.next;
            loop
                invariant
                    self.bounded(),
                    ranges == self.ranges@,
                    reserved == self.reserved@,
                    reclaimed == self.reclaimed@,
                    ranges == old(self).ranges@,
                    reserved == old(self).reserved@,
                    reclaimed == old(self).reclaimed@,
                    pages > 0,
                    bytes == (if pages * PAGE_SIZE > u64::MAX {
                        u64::MAX
                    } else {
                        (pages * PAGE_SIZE) as u64
                    }),
                    goal == alloc_scan(ranges, reserved, old(self).current as nat, old(self).next, bytes),
                    self.current == cur,
                    self.next == nxt,
                    cur < ranges.len(),
                    range == ranges[cur as int],
                    goal == alloc_scan(ranges, reserved, cur as nat, nxt, bytes),
                    first == (if nxt < range.start {
                        range.start
                    } else {
                        nxt
                    }),
                    fit_in_range(reserved, first, range.end, bytes) == fit_in_range(
                        reserved,
                        start,
                        range.end,
                        bytes,
                    ),
                ensures
                    fit_in_range(reserved, first, range.end, bytes) is None,
                    self.bounded(),
                    ranges == self.ranges@,
                    reserved == self.reserved@,
                    reclaimed == self.reclaimed@,
                    self.current == cur,
                    self.next == nxt,
                decreases u64::MAX - start,
            {
                let end = start.saturating_add(bytes);
                if end > range.end {
                    break;
                }
                match self.first_reserved_overlap(start, end) {
                    Some(reserved_range) => {
                        proof {
                            lemma_first_overlap_overlaps(reserved, start, end);
                        }
                        start = reserved_range.end;
                    },
                    None => {
                        self.next = end;
                        return Some(start);
                    },
                }
            }
            self.current = self.current + 1;
            if self.current < self.ranges.len() {
                self.next = self.ranges[self.current].start;
            }
        }
        None
    }

    /// The first reserved range overlapping `start..end`, if any.
    pub fn first_reserved_overlap(&self, start: u64, end: u64) -> (r: Option<Range>)
        ensures
            r == first_overlap(self.reserved_spec(), start, end),
    {
        let ghost reserved = self.reserved@;
        let mut i: usize = 0;
        assert(reserved.skip(0) == reserved);
        while i < self.reserved.len()
            invariant
                reserved == self.reserved@,
                i <= reserved.len(),
                first_overlap(reserved, start, end) == first_overlap(reserved.skip(i as int), start, end),
            decreases self.reserved.len() - i,
        {
            let range = self.reserved[i];
            assert(reserved.skip(i as int)[0] == range);
            assert(reserved.skip(i as int).drop_first() == reserved.skip(i + 1));
            if start < range.end && end > range.start {
                return Some(range);
            }
            i = i + 1;
        }
        None
    }
}

/// Whether an allocation lives for the whole run of the kernel.
#[derive(Debug, Clone, Copy, PartialEq, Eq, Structural)]
pub enum AllocationLifetime {
    KernelStatic,
    KernelTransient,
}

/// An allocation: where it starts, its size and its lifetime.
#[derive(Debug, Clone, Copy, PartialEq, Eq, Structural)]
pub struct AllocationRecord {
    pub start: usize,
    pub size: usize,
    pub lifetime: AllocationLifetime,
}

/// Use of a heap.
#[derive(Debug, Clone, Copy, PartialEq, Eq, Structural)]
pub struct AllocationStats {
    pub used: usize,
    pub free: usize,
    pub total: usize,
    pub allocations: usize,
}

/// A heap that allocates upwards and never frees.
#[derive(Debug, Clone, Copy, PartialEq, Eq, Structural)]
pub struct BumpHeap {
    pub start: usize,
    pub end: usize,
    pub next: usize,
    pub allocations: usize,
}

/// `a - b`, or 0 where that is negative.
pub open spec fn sat_sub(a: usize, b: usize) -> usize {
    if a >= b {
        (a - b) as usize
    } else {
        0
    }
}

impl BumpHeap {
    /// A heap over `start..start + size` (the end saturating).
    pub fn new(start: usize, size: usize) -> (r: Self)
        ensures
            r.start == start,
            r.end == if start + size > usize::MAX {
                usize::MAX
            } else {
                (start + size) as usize
            },
            r.next == start,
            r.allocations == 0,
    {
        BumpHeap { start, end: start.saturating_add(size), next: start, allocations: 0 }
    }

    /// Where an allocation of `size` bytes aligned to `align` would end (the
    /// sum saturating).
    pub open spec fn block_end(h: BumpHeap, size: usize, align: usize) -> int {
        let aligned = align_up_spec(h.next as int, align as int);
        if aligned + size > usize::MAX {
            usize::MAX as int
        } else {
            aligned + size
        }
    }

    /// The block an allocation gives: at the next position rounded up to
    /// `align`, unless it would pass the end.
    pub open spec fn block_result(h: BumpHeap, size: usize, align: usize, lifetime: AllocationLifetime) -> Option<
        AllocationRecord,
    > {
        if Self::block_end(h, size, align) > h.end {
            None
        } else {
            Some(
                AllocationRecord {
                    start: align_up_spec(h.next as int, align as int) as usize,
                    size,
                    lifetime,
                },
            )
        }
    }

    /// `after` is `before` after an allocation, which gave `r`.
    pub open spec fn allocates(
        before: BumpHeap,
        after: BumpHeap,
        size: usize,
        align: usize,
        lifetime: AllocationLifetime,
        r: Option<AllocationRecord>,
    ) -> bool {
        &&& r == Self::block_result(before, size, align, lifetime)
        &&& r is None ==> after == before
        &&& r is Some ==> after == (BumpHeap {
            next: Self::block_end(before, size, align) as usize,
            allocations: (before.allocations + 1) as usize,
            ..before
        })
    }

    /// Allocates at the next position rounded up to `align`; fails, leaving
    /// the heap unchanged, where the block would pass the end.
    pub fn allocate(&mut self, size: usize, align: usize, lifetime: AllocationLifetime) -> (r: Option<AllocationRecord>)
        requires
            align == 0 || old(self).next + align <= usize::MAX,
            old(self).allocations < usize::MAX,
        ensures
            Self::allocates(*old(self), *final(self), size, align, lifetime, r),
    {
        let aligned = align_up_usize(self.next, align);
        let end = aligned.saturating_add(size);
        if end > self.end {
            return None;
        }
        self.next = end;
        self.allocations = self.allocations + 1;
        Some(AllocationRecord { start: aligned, size, lifetime })
    }

    /// Bytes used, free and in all (each saturating at zero), and the
    /// number of allocations.
    pub fn stats(&self) -> (r: AllocationStats)
        ensures
            r == (AllocationStats {
                used: sat_sub(self.next, self.start),
                free: sat_sub(self.end, self.next),
                total: sat_sub(self.end, self.start),
                allocations: self.allocations,
            }),
    {
        AllocationStats {
            used: self.next.saturating_sub(self.start),
            free: self.end.saturating_sub(self.next),
            total: self.end.saturating_sub(self.start),
            allocations: self.allocations,
        }
    }
}

} // verus!
