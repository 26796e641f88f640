//! Per-prefix file system latency statistics.
//!
//! Each traced kernel function keeps one [`FsLatencyStats`] per configured
//! path prefix.  When a traced call returns, its latency is added to the
//! statistics of every prefix that the file's path starts with.

use vstd::prelude::*;
use vstd::array::spec_array_update;

verus! {

/// Number of configurable path prefixes.
pub const NUM_PATH_PREFIX: u32 = 8;
/// Length of a path fragment (and of a path prefix) in bytes.
pub const PATHFRAGLEN: usize = 32;
/// Length of one path component buffer in bytes.
pub const PATHCOMPLEN: usize = 32;
/// Number of path components kept, counted from the root.
pub const NUM_COMP: u32 = 4;
/// Number of recent call intervals remembered to compute active time.
pub const NUM_INTERVAL: usize = 16;
/// Aggregation window length in nanoseconds.
pub const AGG_INTERVAL: u64 = 1_000_000_000;
/// Size of one ring buffer record in bytes.
pub const BUFSIZE: usize = 1024;

/// A path fragment: the first `PATHFRAGLEN` bytes of a path.
pub type PathSlice = [u8; PATHFRAGLEN];
/// One path component.
pub type PathCompSlice = [u8; PATHCOMPLEN];
/// Process and thread id of a traced call.
pub type PidTgid = (u32, u32);

/// One path component and its length.
#[derive(Clone, Copy)]
pub struct PathComponent {
    pub len: usize,
    pub pathcomp: PathCompSlice,
}

/// The time span of one traced call, in nanoseconds.  An all-zero interval is
/// an empty slot.
#[derive(Clone, Copy, PartialEq, Eq, Debug)]
pub struct Interval {
    pub start: u64,
    pub end: u64,
}

/// Statistics of one path prefix within the current aggregation window.
#[derive(Clone, Copy)]
pub struct FsLatencyStats {
    pub pathlen: u32,
    pub path_prefix: PathSlice,
    /// Smallest latency of the window; the window's first call sets it.
    pub min: u64,
    /// Largest latency of the window.
    pub max: u64,
    pub total_lat: u64,
    pub total_bytes: u64,
    /// Number of calls in the window.
    pub count: u64,
    pub lastpublish: u64,
    pub is_frozen: bool,
    /// Time covered by at least one call, counting overlaps once.
    pub active_time: u64,
    /// Recent call intervals, a ring with its next slot at `interval_head`.
    pub intervals: [Interval; NUM_INTERVAL],
    pub interval_head: u32,
}

/// What was recorded when a traced call started.
pub struct EntryRec {
    pub timestamp: u64,
    pub path: PathSlice,
}

/// Header fields of a published record.
pub struct EventFields<'a> {
    pub id: &'a str,
    pub monotonic: u64,
    pub seq: u64,
    pub path_prefix: &'a PathSlice,
}

/// The statistics of one prefix, without their bookkeeping.
#[derive(Clone, Copy)]
pub struct StatsSnapshot {
    pub pathlen: u32,
    pub path_prefix: PathSlice,
    pub min: u64,
    pub max: u64,
    pub total_lat: u64,
    pub total_bytes: u64,
    pub count: u64,
}

/// `haystack` starts with the first `len` bytes of `needle`, of which at most
/// `PATHFRAGLEN` are compared; an empty prefix, or one longer than
/// `haystack`, matches nothing.
pub open spec fn prefix_matches(needle: Seq<u8>, haystack: Seq<u8>, len: int) -> bool {
    &&& 1 <= len <= haystack.len()
    &&& forall|i: int| 0 <= i < len && i < PATHFRAGLEN ==> haystack[i] == needle[i]
}

/// Does `haystack` start with the first `len` bytes of `needle`?
pub fn starts_with(needle: &[u8], haystack: &[u8], len: usize) -> (r: bool)
    requires
        1 <= len <= haystack@.len() ==> needle@.len() >= (if len < PATHFRAGLEN { len } else { PATHFRAGLEN }),
    ensures
        r == prefix_matches(needle@, haystack@, len as int),
{
    if len == 0 || len > haystack.len() {
        return false;
    }
    let n = if len < PATHFRAGLEN { len } else { PATHFRAGLEN };
    for i in 0..n
        invariant
            n <= len <= haystack@.len(),
            n <= needle@.len(),
            n == (if len < PATHFRAGLEN { len } else { PATHFRAGLEN }),
            forall|j: int| 0 <= j < i ==> haystack@[j] == needle@[j],
    {
        if haystack[i] != needle[i] {
            return false;
        }
    }
    true
}

/// Nanoseconds of the call from `start` to `end` that `iv` already covers.
pub open spec fn interval_overlap(iv: Interval, start: u64, end: u64) -> int {
    if iv.start == 0 && iv.end == 0 {
        0
    } else if start <= iv.end && iv.start <= end {
        (if end < iv.end { end } else { iv.end }) - (if start > iv.start { start } else { iv.start })
    } else {
        0
    }
}

/// Sum of the overlaps of the call from `start` to `end` with `ivs`.
pub open spec fn overlap_sum(ivs: Seq<Interval>, start: u64, end: u64) -> int
    decreases ivs.len(),
{
    if ivs.len() == 0 {
        0
    } else {
        overlap_sum(ivs.drop_last(), start, end) + interval_overlap(ivs.last(), start, end)
    }
}

/// Time that the call from `start` to `end` adds to the active time: its
/// length less what the remembered intervals already cover.
pub open spec fn new_coverage(s: FsLatencyStats, start: u64, end: u64) -> int {
    (end - start) - overlap_sum(s.intervals@, start, end)
}

impl FsLatencyStats {
    /// The interval ring has a valid head and every interval ends no
    /// earlier than it starts.
    pub open spec fn wf(&self) -> bool {
        &&& self.interval_head < NUM_INTERVAL
        &&& forall|i: int| 0 <= i < NUM_INTERVAL ==> #[trigger] self.intervals@[i].start <= self.intervals@[i].end
    }

    /// Adding the call from `start` to `end` overflows no counter.
    pub open spec fn sample_fits(&self, start: u64, end: u64, bytes: u64) -> bool {
        let cov = new_coverage(*self, start, end);
        &&& start <= end
        &&& end - start <= i64::MAX
        &&& cov >= i64::MIN
        &&& self.count < u64::MAX
        &&& self.total_lat + (end - start) <= u64::MAX
        &&& self.total_bytes + bytes <= u64::MAX
        &&& cov > 0 ==> self.active_time + cov <= u64::MAX
    }

    /// The statistics after the call from `start` to `end`, which moved
    /// `bytes` bytes.
    pub open spec fn with_sample(self, start: u64, end: u64, bytes: u64) -> FsLatencyStats {
        let lat = (end - start) as u64;
        let cov = new_coverage(self, start, end);
        FsLatencyStats {
            min: if lat < self.min || self.count == 0 { lat } else { self.min },
            max: if lat > self.max || self.max == 0 { lat } else { self.max },
            count: (self.count + 1) as u64,
            total_lat: (self.total_lat + lat) as u64,
            total_bytes: (self.total_bytes + bytes) as u64,
            active_time: if cov > 0 { (self.active_time + cov) as u64 } else { self.active_time },
            intervals: spec_array_update(self.intervals, self.interval_head as int, Interval { start, end }),
            interval_head: ((self.interval_head + 1) % (NUM_INTERVAL as int)) as u32,
            ..self
        }
    }

    /// The statistics at the start of a new aggregation window beginning at `now`.
    pub open spec fn cleared(self, now: u64) -> FsLatencyStats {
        FsLatencyStats {
            lastpublish: now,
            count: 0,
            total_lat: 0,
            total_bytes: 0,
            min: u64::MAX,
            max: 0,
            active_time: 0,
            interval_head: 0,
            ..self
        }
    }
}

/// Every overlap is at least zero and at most the call's length.
pub proof fn lemma_interval_overlap_bounds(iv: Interval, start: u64, end: u64)
    requires
        start <= end,
        iv.start <= iv.end,
    ensures
        0 <= interval_overlap(iv, start, end) <= end - start,
{
}

/// Prefixes of the remembered intervals overlap the call no more than all of them.
pub proof fn lemma_overlap_sum_monotone(ivs: Seq<Interval>, start: u64, end: u64, i: int)
    requires
        start <= end,
        0 <= i <= ivs.len(),
        forall|k: int| 0 <= k < ivs.len() ==> #[trigger] ivs[k].start <= ivs[k].end,
    ensures
        0 <= overlap_sum(ivs.take(i), start, end) <= overlap_sum(ivs, start, end),
    decreases ivs.len(),
{
    if ivs.len() > 0 {
        if i == ivs.len() {
            assert(ivs.take(i) =~= ivs);
            lemma_overlap_sum_monotone(ivs.drop_last(), start, end, i - 1);
            assert(ivs.drop_last().take(i - 1) =~= ivs.take(i - 1));
            lemma_interval_overlap_bounds(ivs.last(), start, end);
            assert(ivs.take(i).drop_last() =~= ivs.take(i - 1));
        } else {
            lemma_overlap_sum_monotone(ivs.drop_last(), start, end, i);
            assert(ivs.drop_last().take(i) =~= ivs.take(i));
            lemma_interval_overlap_bounds(ivs.last(), start, end);
        }
    }
}

/// After a call is added, the smallest and largest latencies bound it, the
/// count grows by one and the totals by the call's latency and bytes.
pub proof fn lemma_sample_bounds(s: FsLatencyStats, start: u64, end: u64, bytes: u64)
    requires
        s.sample_fits(start, end, bytes),
    ensures
        ({
            let t = s.with_sample(start, end, bytes);
            &&& t.min <= end - start <= t.max
            &&& t.count == s.count + 1
            &&& t.total_lat == s.total_lat + (end - start)
            &&& t.total_bytes == s.total_bytes + bytes
            &&& t.lastpublish == s.lastpublish
            &&& t.path_prefix == s.path_prefix
            &&& t.pathlen == s.pathlen
        }),
{
}

/// The first call of a new window sets both the smallest and the largest
/// latency to its own, and the count to one.
pub proof fn lemma_first_sample_of_window(s: FsLatencyStats, now: u64, start: u64, end: u64, bytes: u64)
    requires
        s.cleared(now).sample_fits(start, end, bytes),
    ensures
        ({
            let t = s.cleared(now).with_sample(start, end, bytes);
            &&& t.min == end - start
            &&& t.max == end - start
            &&& t.count == 1
            &&& t.total_lat == end - start
            &&& t.total_bytes == bytes
        }),
{
}

/// Length of the intersection of the spans `[a0, a1]` and `[b0, b1]`.
pub open spec fn intersection_len(a0: u64, a1: u64, b0: u64, b1: u64) -> int {
    let lo = if a0 > b0 { a0 } else { b0 };
    let hi = if a1 < b1 { a1 } else { b1 };
    if lo < hi { hi - lo } else { 0 }
}

/// Sum of the lengths of the intersections of the call from `start` to
/// `end` with each of `ivs`.
pub open spec fn covered_by(ivs: Seq<Interval>, start: u64, end: u64) -> int
    decreases ivs.len(),
{
    if ivs.len() == 0 {
        0
    } else {
        covered_by(ivs.drop_last(), start, end) + intersection_len(ivs.last().start, ivs.last().end, start, end)
    }
}

/// The overlap of a call with a remembered interval is the length of their
/// intersection, whichever starts first; an empty slot overlaps nothing.
pub proof fn lemma_overlap_is_intersection(iv: Interval, start: u64, end: u64)
    requires
        iv.start <= iv.end,
        start <= end,
    ensures
        interval_overlap(iv, start, end) == intersection_len(iv.start, iv.end, start, end),
{
}

/// The remembered intervals together overlap a call by the sum of their
/// intersections with it.
pub proof fn lemma_overlap_sum_is_covered(ivs: Seq<Interval>, start: u64, end: u64)
    requires
        start <= end,
        forall|k: int| 0 <= k < ivs.len() ==> #[trigger] ivs[k].start <= ivs[k].end,
    ensures
        overlap_sum(ivs, start, end) == covered_by(ivs, start, end),
    decreases ivs.len(),
{
    if ivs.len() > 0 {
        lemma_overlap_sum_is_covered(ivs.drop_last(), start, end);
        lemma_overlap_is_intersection(ivs.last(), start, end);
    }
}

/// A call adds to the active time its length less the lengths of its
/// intersections with the remembered intervals, and nothing when those cover
/// it; the count, totals and extremes move as for any call.  With pairwise
/// disjoint remembered intervals this is the part of the call that no
/// remembered interval covers.
pub proof fn lemma_update_active_time(s: FsLatencyStats, start: u64, end: u64, bytes: u64)
    requires
        s.wf(),
        s.sample_fits(start, end, bytes),
    ensures
        ({
            let added = (end - start) - covered_by(s.intervals@, start, end);
            s.with_sample(start, end, bytes).active_time == s.active_time + if added > 0 { added } else { 0 }
        }),
{
    lemma_overlap_sum_is_covered(s.intervals@, start, end);
}

/// Each remembered interval's intersection counts toward what covers a call.
proof fn lemma_covered_by_at_least(ivs: Seq<Interval>, start: u64, end: u64, i: int)
    requires
        0 <= i < ivs.len(),
    ensures
        covered_by(ivs, start, end) >= intersection_len(ivs[i].start, ivs[i].end, start, end),
    decreases ivs.len(),
{
    lemma_covered_by_nonneg(ivs.drop_last(), start, end);
    if i < ivs.len() - 1 {
        lemma_covered_by_at_least(ivs.drop_last(), start, end, i);
    }
}

/// What covers a call is never negative.
proof fn lemma_covered_by_nonneg(ivs: Seq<Interval>, start: u64, end: u64)
    ensures
        covered_by(ivs, start, end) >= 0,
    decreases ivs.len(),
{
    if ivs.len() > 0 {
        lemma_covered_by_nonneg(ivs.drop_last(), start, end);
    }
}

/// The same call accounted twice adds to the active time only once: the
/// first time remembers it, so the second adds nothing.
pub proof fn lemma_repeated_call_adds_no_active_time(s: FsLatencyStats, start: u64, end: u64, bytes: u64)
    requires
        s.wf(),
        s.sample_fits(start, end, bytes),
        s.with_sample(start, end, bytes).sample_fits(start, end, bytes),
    ensures
        s.with_sample(start, end, bytes).with_sample(start, end, bytes).active_time
            == s.with_sample(start, end, bytes).active_time,
{
    let t = s.with_sample(start, end, bytes);
    assert(t.wf());
    lemma_update_active_time(t, start, end, bytes);
    assert(t.intervals@[s.interval_head as int] == Interval { start, end });
    lemma_covered_by_at_least(t.intervals@, start, end, s.interval_head as int);
}

/// The active time never exceeds the total latency: a call adds its whole
/// length to the total and at most that much to the active time.
pub proof fn lemma_active_time_within_total(s: FsLatencyStats, start: u64, end: u64, bytes: u64)
    requires
        s.wf(),
        s.sample_fits(start, end, bytes),
        s.active_time <= s.total_lat,
    ensures
        s.with_sample(start, end, bytes).active_time <= s.with_sample(start, end, bytes).total_lat,
{
    lemma_overlap_sum_monotone(s.intervals@, start, end, NUM_INTERVAL as int);
    assert(s.intervals@.take(NUM_INTERVAL as int) =~= s.intervals@);
}

/// A new window starts with no active time and no latency.
pub proof fn lemma_cleared_active_time(s: FsLatencyStats, now: u64)
    ensures
        s.cleared(now).active_time == 0,
        s.cleared(now).total_lat == 0,
{
}

/// The statistics after the calls of `samples`, each a start, an end and a
/// byte count, in order.
pub open spec fn with_samples(s: FsLatencyStats, samples: Seq<(u64, u64, u64)>) -> FsLatencyStats
    decreases samples.len(),
{
    if samples.len() == 0 {
        s
    } else {
        let last = samples.last();
        with_samples(s, samples.drop_last()).with_sample(last.0, last.1, last.2)
    }
}

/// The smallest latency of `samples`; `u64::MAX` when there is none.
pub open spec fn latency_min(samples: Seq<(u64, u64, u64)>) -> u64
    decreases samples.len(),
{
    if samples.len() == 0 {
        u64::MAX
    } else {
        let lat = (samples.last().1 - samples.last().0) as u64;
        let rest = latency_min(samples.drop_last());
        if lat < rest { lat } else { rest }
    }
}

/// The largest latency of `samples`; 0 when there is none.
pub open spec fn latency_max(samples: Seq<(u64, u64, u64)>) -> u64
    decreases samples.len(),
{
    if samples.len() == 0 {
        0
    } else {
        let lat = (samples.last().1 - samples.last().0) as u64;
        let rest = latency_max(samples.drop_last());
        if lat > rest { lat } else { rest }
    }
}

/// Over an aggregation window, the statistics hold the smallest and the
/// largest latency of the calls added since the window started, and count
/// them.
pub proof fn lemma_window_extremes(s: FsLatencyStats, now: u64, samples: Seq<(u64, u64, u64)>)
    requires
        forall|i: int| 0 <= i < samples.len() ==> #[trigger] samples[i].0 <= samples[i].1,
        samples.len() <= u64::MAX,
    ensures
        with_samples(s.cleared(now), samples).min == latency_min(samples),
        with_samples(s.cleared(now), samples).max == latency_max(samples),
        with_samples(s.cleared(now), samples).count == samples.len(),
    decreases samples.len(),
{
    if samples.len() > 0 {
        let rest = samples.drop_last();
        assert forall|i: int| 0 <= i < rest.len() implies #[trigger] rest[i].0 <= rest[i].1 by {
            assert(rest[i] == samples[i]);
        }
        lemma_window_extremes(s, now, rest);
        assert(samples.last() == samples[samples.len() - 1]);
    }
}

/// Add the call from `start` to `end`, which moved `bytes` bytes, to the
/// statistics.  Always returns 0.
pub fn update_stats(fsstat: &mut FsLatencyStats, start: u64, end: u64, bytes: u64) -> (r: u32)
    requires
        old(fsstat).wf(),
        old(fsstat).sample_fits(start, end, bytes),
    ensures
        *final(fsstat) == old(fsstat).with_sample(start, end, bytes),
        final(fsstat).wf(),
        r == 0,
{
    let ghost ivs = fsstat.intervals@;
    let latency = end - start;
    if latency < fsstat.min || fsstat.count == 0 {
        fsstat.min = latency;
    }
    if latency > fsstat.max || fsstat.max == 0 {
        fsstat.max = latency;
    }
    fsstat.count = fsstat.count + 1;
    fsstat.total_lat = fsstat.total_lat + latency;
    fsstat.total_bytes = fsstat.total_bytes + bytes;

    // Net new coverage of this call: its length less the parts that the
    // intervals still remembered already cover.
    let mut contribution: i64 = latency as i64;
    for i in 0..NUM_INTERVAL
        invariant
            fsstat.intervals@ == ivs,
            ivs.len() == NUM_INTERVAL,
            start <= end,
            latency == end - start,
            latency <= i64::MAX,
            (end - start) - overlap_sum(ivs, start, end) >= i64::MIN,
            forall|k: int| 0 <= k < ivs.len() ==> #[trigger] ivs[k].start <= ivs[k].end,
            contribution == latency - overlap_sum(ivs.take(i as int), start, end),
    {
        let iv = fsstat.intervals[i];
        proof {
            assert(ivs.take(i + 1).drop_last() =~= ivs.take(i as int));
            lemma_interval_overlap_bounds(iv, start, end);
            lemma_overlap_sum_monotone(ivs, start, end, i + 1);
        }
        let empty_slot = iv.start == 0 && iv.end == 0;
        if !empty_slot && start <= iv.end && iv.start <= end {
            let overlap_start = if start > iv.start { start } else { iv.start };
            let overlap_end = if end < iv.end { end } else { iv.end };
            contribution = contribution - (overlap_end - overlap_start) as i64;
        }
    }
    assert(ivs.take(NUM_INTERVAL as int) =~= ivs);
    if contribution > 0 {
        fsstat.active_time = fsstat.active_time + contribution as u64;
    }

    // Remember this call, replacing the oldest interval when the ring is full.
    let slot = fsstat.interval_head as usize;
    fsstat.intervals[slot] = Interval { start, end };
    fsstat.interval_head = (fsstat.interval_head + 1) % (NUM_INTERVAL as u32);
    0
}

/// Start a new aggregation window at `now`.  Always returns `Ok(0)`.
pub fn clear_stats(fsstat: &mut FsLatencyStats, now: u64) -> (r: Result<u32, u32>)
    ensures
        *final(fsstat) == old(fsstat).cleared(now),
        old(fsstat).wf() ==> final(fsstat).wf(),
        r == Ok::<u32, u32>(0),
{
    fsstat.lastpublish = now;
    fsstat.count = 0;
    fsstat.total_lat = 0;
    fsstat.total_bytes = 0;
    fsstat.min = u64::MAX;
    fsstat.max = u64::MIN;
    fsstat.active_time = 0;
    fsstat.interval_head = 0;
    Ok(0)
}

} // verus!
