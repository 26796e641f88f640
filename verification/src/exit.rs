//! Accounting for a traced call when it returns, and publishing the
//! statistics of each aggregation window.

use vstd::prelude::*;
use vstd::string::StringSliceAdditionalSpecFns;

use crate::cbor::{encode_stats_record, has_entry, lemma_stats_record_entries, stats_record, text_item, uint_item};
use crate::fslat::{
    clear_stats, prefix_matches, starts_with, update_stats, EntryRec, EventFields, FsLatencyStats,
    AGG_INTERVAL, NUM_PATH_PREFIX, PATHFRAGLEN,
};

verus! {

/// A bounded queue of published records, oldest first: the producer side of
/// the shared ring buffer.  A record is refused when the queue is full.
pub struct RecordRing {
    records: Vec<Vec<u8>>,
    max_records: usize,
}

impl RecordRing {
    /// The records queued, oldest first.
    pub closed spec fn contents(&self) -> Seq<Seq<u8>> {
        self.records@.map_values(|r: Vec<u8>| r@)
    }

    /// How many records the ring holds at most.
    pub closed spec fn max_records(&self) -> nat {
        self.max_records as nat
    }

    /// An empty ring that holds at most `max_records` records.
    pub fn new(max_records: usize) -> (ring: Self)
        ensures
            ring.contents() == Seq::<Seq<u8>>::empty(),
            ring.max_records() == max_records,
    {
        let ring = RecordRing { records: Vec::new(), max_records };
        assert(ring.contents() =~= Seq::<Seq<u8>>::empty());
        ring
    }

    /// Number of records queued.
    pub fn len(&self) -> (n: usize)
        ensures
            n == self.contents().len(),
    {
        self.records.len()
    }

    /// Whether a record can be reserved now.
    pub fn has_room(&self) -> (b: bool)
        ensures
            b == (self.contents().len() < self.max_records()),
    {
        self.records.len() < self.max_records
    }

    /// Queue `record` if there is room.
    pub fn push(&mut self, record: Vec<u8>) -> (ok: bool)
        ensures
            ok == (old(self).contents().len() < old(self).max_records()),
            final(self).max_records() == old(self).max_records(),
            final(self).contents() == (if ok {
                old(self).contents().push(record@)
            } else {
                old(self).contents()
            }),
    {
        if self.records.len() < self.max_records {
            let ghost before = self.records@;
            self.records.push(record);
            assert(self.records@.map_values(|r: Vec<u8>| r@) =~= before.map_values(|r: Vec<u8>| r@).push(record@));
            true
        } else {
            false
        }
    }

    /// Take every queued record out of the ring, oldest first.
    pub fn drain(&mut self) -> (out: Vec<Vec<u8>>)
        ensures
            out@.map_values(|r: Vec<u8>| r@) == old(self).contents(),
            final(self).contents() == Seq::<Seq<u8>>::empty(),
            final(self).max_records() == old(self).max_records(),
    {
        let mut out: Vec<Vec<u8>> = Vec::new();
        core::mem::swap(&mut out, &mut self.records);
        assert(self.contents() =~= Seq::<Seq<u8>>::empty());
        out
    }
}

/// Encode the statistics `fsstat` of operation `filpop` and queue them on `ring`.
///
/// Fails, leaving the ring as it was, when the ring is full or the prefix
/// length of `fsstat` is not between 1 and `PATHFRAGLEN`.
pub fn ringbuf_put(eventf: &EventFields, fsstat: &FsLatencyStats, filpop: &str, unit: &str, ring: &mut RecordRing) -> (r: Result<u32, u32>)
    ensures
        r is Ok <==> old(ring).contents().len() < old(ring).max_records() && 1 <= fsstat.pathlen <= PATHFRAGLEN,
        r is Ok ==> r == Ok::<u32, u32>(0),
        r is Err ==> r == Err::<u32, u32>(1),
        final(ring).max_records() == old(ring).max_records(),
        final(ring).contents() == (if r is Ok {
            old(ring).contents().push(
                stats_record(
                    eventf.id.spec_bytes(),
                    eventf.monotonic,
                    filpop.spec_bytes(),
                    eventf.seq,
                    unit.spec_bytes(),
                    *fsstat,
                    eventf.path_prefix@.take(fsstat.pathlen as int),
                ),
            )
        } else {
            old(ring).contents()
        }),
{
    if !ring.has_room() {
        return Err(1);
    }
    match encode_stats_record(eventf, fsstat, filpop, unit) {
        Some(bytes) => {
            ring.push(bytes);
            Ok(0)
        },
        None => Err(1),
    }
}

/// Where the accounting of one returning call stands after some prefixes.
pub struct ExitState {
    pub stats: Seq<FsLatencyStats>,
    pub counter: u64,
    pub records: Seq<Seq<u8>>,
    pub failed: bool,
}

/// What accounting a returning call to one prefix statistics leaves behind.
pub struct PrefixOutcome {
    pub stat: FsLatencyStats,
    pub counter: u64,
    pub records: Seq<Seq<u8>>,
    pub failed: bool,
}

/// Accounting of the returning call to the statistics `s`, with the record
/// counter at `counter` and the ring holding `records`.
///
/// When the path recorded at entry starts with the prefix, the call's latency
/// is added.  When the aggregation window of the prefix is over (the time
/// since the last publication, computed with wrap-around as the probe does,
/// exceeds `AGG_INTERVAL`), the statistics are also published, numbered by the counter, and a new window
/// starts; a full ring makes the accounting fail.
#[verifier::opaque]
pub open spec fn exit_prefix(
    s: FsLatencyStats,
    counter: u64,
    records: Seq<Seq<u8>>,
    entry: EntryRec,
    opname: Seq<u8>,
    now: u64,
    publish_ns: u64,
    ret: u64,
    max_records: nat,
) -> PrefixOutcome {
    if !prefix_matches(s.path_prefix@, entry.path@, s.pathlen as int) {
        PrefixOutcome { stat: s, counter, records, failed: false }
    } else {
        let s1 = s.with_sample(entry.timestamp, now, ret);
        if now.wrapping_sub(s.lastpublish) > AGG_INTERVAL {
            if records.len() >= max_records {
                PrefixOutcome { stat: s1, counter, records, failed: true }
            } else {
                let rec = stats_record(
                    "fslat/v2".spec_bytes(),
                    publish_ns,
                    opname,
                    counter,
                    "ns".spec_bytes(),
                    s1,
                    s.path_prefix@.take(s.pathlen as int),
                );
                PrefixOutcome {
                    stat: s1.cleared(now),
                    counter: (counter + 1) as u64,
                    records: records.push(rec),
                    failed: false,
                }
            }
        } else {
            PrefixOutcome { stat: s1, counter, records, failed: false }
        }
    }
}

/// Accounting of the returning call for the statistics at `idx`.
pub open spec fn exit_step(
    st: ExitState,
    idx: int,
    entry: EntryRec,
    opname: Seq<u8>,
    now: u64,
    publish_ns: u64,
    ret: u64,
    max_records: nat,
) -> ExitState {
    let o = exit_prefix(st.stats[idx], st.counter, st.records, entry, opname, now, publish_ns, ret, max_records);
    ExitState { stats: st.stats.update(idx, o.stat), counter: o.counter, records: o.records, failed: o.failed }
}

/// Accounting over the first `k` prefixes, stopping at the first failure.
pub open spec fn exit_upto(
    init: ExitState,
    k: int,
    entry: EntryRec,
    opname: Seq<u8>,
    now: u64,
    publish_ns: u64,
    ret: u64,
    max_records: nat,
) -> ExitState
    decreases k,
{
    if k <= 0 {
        init
    } else {
        let prev = exit_upto(init, k - 1, entry, opname, now, publish_ns, ret, max_records);
        if prev.failed {
            prev
        } else {
            exit_step(prev, k - 1, entry, opname, now, publish_ns, ret, max_records)
        }
    }
}

/// The returning call can be accounted to the statistics `s` without a
/// counter overflowing.
pub open spec fn exit_fits(s: FsLatencyStats, entry: EntryRec, now: u64, ret: u64) -> bool {
    &&& s.wf()
    &&& prefix_matches(s.path_prefix@, entry.path@, s.pathlen as int) ==> s.sample_fits(entry.timestamp, now, ret)
}

/// Steps before `k` leave the statistics from `k` on as they were.
proof fn lemma_exit_upto_frame(
    init: ExitState,
    k: int,
    entry: EntryRec,
    opname: Seq<u8>,
    now: u64,
    publish_ns: u64,
    ret: u64,
    max_records: nat,
)
    requires
        0 <= k <= init.stats.len(),
    ensures
        ({
            let st = exit_upto(init, k, entry, opname, now, publish_ns, ret, max_records);
            &&& st.stats.len() == init.stats.len()
            &&& forall|i: int| k <= i < init.stats.len() ==> st.stats[i] == init.stats[i]
            &&& st.counter <= init.counter + k
        }),
    decreases k,
{
    if k > 0 {
        lemma_exit_upto_frame(init, k - 1, entry, opname, now, publish_ns, ret, max_records);
        reveal(exit_prefix);
    }
}

/// Account the returning call to the statistics `fsstat`; returns whether
/// publishing failed.
fn account_prefix(
    fsstat: &mut FsLatencyStats,
    entry: &EntryRec,
    filpop: &str,
    now: u64,
    publish_ns: u64,
    ret: u64,
    counter: &mut u64,
    ring: &mut RecordRing,
) -> (failed: bool)
    requires
        exit_fits(*old(fsstat), *entry, now, ret),
        *old(counter) < u64::MAX,
    ensures
        ({
            let o = exit_prefix(*old(fsstat), *old(counter), old(ring).contents(), *entry, filpop.spec_bytes(), now, publish_ns, ret, old(ring).max_records());
            &&& *final(fsstat) == o.stat
            &&& *final(counter) == o.counter
            &&& final(ring).contents() == o.records
            &&& failed == o.failed
        }),
        final(ring).max_records() == old(ring).max_records(),
{
    reveal(exit_prefix);
    if !starts_with(&fsstat.path_prefix, &entry.path, fsstat.pathlen as usize) {
        return false;
    }
    if now.wrapping_sub(fsstat.lastpublish) > AGG_INTERVAL {
        let seq = *counter;
        update_stats(fsstat, entry.timestamp, now, ret);
        let prefix = fsstat.path_prefix;
        let eventf = EventFields { id: "fslat/v2", monotonic: publish_ns, seq, path_prefix: &prefix };
        let put = ringbuf_put(&eventf, fsstat, filpop, "ns", ring);
        if put.is_err() {
            return true;
        }
        clear_stats(fsstat, now);
        *counter = *counter + 1;
    } else {
        update_stats(fsstat, entry.timestamp, now, ret);
    }
    false
}

/// Account the call that returned `ret` at time `now` and entered as `entry`
/// to every prefix statistics in `stats`, publishing the windows that are over
/// at the clock reading `publish_ns`, numbered from `*counter`, into `ring`.
///
/// Returns `Err(1)` when a record could not be queued; the caller then keeps
/// the entry record, otherwise it removes it.
pub fn try_fslat_exit(
    stats: &mut Vec<FsLatencyStats>,
    entry: &EntryRec,
    filpop: &str,
    now: u64,
    publish_ns: u64,
    ret: u64,
    counter: &mut u64,
    ring: &mut RecordRing,
) -> (r: Result<u32, u32>)
    requires
        old(stats)@.len() == NUM_PATH_PREFIX,
        forall|i: int| 0 <= i < NUM_PATH_PREFIX ==> exit_fits(#[trigger] old(stats)@[i], *entry, now, ret),
        *old(counter) + NUM_PATH_PREFIX <= u64::MAX,
    ensures
        ({
            let init = ExitState {
                stats: old(stats)@,
                counter: *old(counter),
                records: old(ring).contents(),
                failed: false,
            };
            let st = exit_upto(init, NUM_PATH_PREFIX as int, *entry, filpop.spec_bytes(), now, publish_ns, ret, old(ring).max_records());
            &&& final(stats)@ == st.stats
            &&& *final(counter) == st.counter
            &&& final(ring).contents() == st.records
            &&& final(ring).max_records() == old(ring).max_records()
            &&& r == (if st.failed { Err::<u32, u32>(1) } else { Ok::<u32, u32>(0) })
        }),
{
    let ghost init = ExitState {
        stats: stats@,
        counter: *counter,
        records: ring.contents(),
        failed: false,
    };
    let ghost opname = filpop.spec_bytes();
    let ghost max = ring.max_records();
    let mut idx: u32 = 0;
    while idx < NUM_PATH_PREFIX
        invariant
            0 <= idx <= NUM_PATH_PREFIX,
            init.stats.len() == NUM_PATH_PREFIX,
            forall|i: int| 0 <= i < NUM_PATH_PREFIX ==> exit_fits(#[trigger] init.stats[i], *entry, now, ret),
            init.counter + NUM_PATH_PREFIX <= u64::MAX,
            max == ring.max_records(),
            opname == filpop.spec_bytes(),
            init == (ExitState { stats: old(stats)@, counter: *old(counter), records: old(ring).contents(), failed: false }),
            max == old(ring).max_records(),
            ({
                let st = exit_upto(init, idx as int, *entry, opname, now, publish_ns, ret, max);
                &&& !st.failed
                &&& stats@ == st.stats
                &&& *counter == st.counter
                &&& ring.contents() == st.records
            }),
        decreases NUM_PATH_PREFIX - idx,
    {
        proof {
            lemma_exit_upto_frame(init, idx as int, *entry, opname, now, publish_ns, ret, max);
        }
        let ghost prev = exit_upto(init, idx as int, *entry, opname, now, publish_ns, ret, max);
        let mut fsstat = stats[idx as usize];
        assert(fsstat == init.stats[idx as int]);
        let failed = account_prefix(&mut fsstat, entry, filpop, now, publish_ns, ret, counter, ring);
        stats.set(idx as usize, fsstat);
        assert(stats@ =~= exit_upto(init, idx + 1, *entry, opname, now, publish_ns, ret, max).stats);
        if failed {
            proof {
                lemma_exit_stays_failed(init, idx as int + 1, NUM_PATH_PREFIX as int, *entry, opname, now, publish_ns, ret, max);
            }
            return Err(1);
        }
        idx = idx + 1;
    }
    Ok(0)
}

/// Each record published by the accounting takes the next sequence number:
/// the counter grows by exactly the number of records queued.
pub proof fn lemma_exit_counter_counts_records(
    init: ExitState,
    k: int,
    entry: EntryRec,
    opname: Seq<u8>,
    now: u64,
    publish_ns: u64,
    ret: u64,
    max_records: nat,
)
    requires
        0 <= k <= init.stats.len(),
        init.counter + k <= u64::MAX,
    ensures
        ({
            let st = exit_upto(init, k, entry, opname, now, publish_ns, ret, max_records);
            &&& st.counter - init.counter == st.records.len() - init.records.len()
            &&& st.records.len() >= init.records.len()
            &&& st.records.take(init.records.len() as int) == init.records
            &&& numbered_from(st.records, init.records.len() as int, init.counter as int)
        }),
    decreases k,
{
    reveal(exit_prefix);
    if k > 0 {
        lemma_exit_counter_counts_records(init, k - 1, entry, opname, now, publish_ns, ret, max_records);
        lemma_exit_upto_frame(init, k - 1, entry, opname, now, publish_ns, ret, max_records);
        let prev = exit_upto(init, k - 1, entry, opname, now, publish_ns, ret, max_records);
        let st = exit_upto(init, k, entry, opname, now, publish_ns, ret, max_records);
        if !prev.failed && st.records.len() != prev.records.len() {
            assert(st.records.take(init.records.len() as int) =~= prev.records.take(init.records.len() as int));
            let s = prev.stats[k - 1];
            let s1 = s.with_sample(entry.timestamp, now, ret);
            let rec = stats_record(
                "fslat/v2".spec_bytes(),
                publish_ns,
                opname,
                prev.counter,
                "ns".spec_bytes(),
                s1,
                s.path_prefix@.take(s.pathlen as int),
            );
            assert(st.records == prev.records.push(rec));
            assert(record_numbered(rec, prev.counter));
            assert forall|j: int| init.records.len() <= j < st.records.len() implies record_numbered(
                #[trigger] st.records[j],
                (init.counter + (j - init.records.len())) as u64,
            ) by {
                if j < prev.records.len() {
                    assert(st.records[j] == prev.records[j]);
                }
            }
        }
    }
}

/// `r` is a record of the producer `fslat/v2` about the traced operation
/// `opname`, its latencies in nanoseconds, stamped with `publish_ns`.
pub open spec fn names_operation(r: Seq<u8>, opname: Seq<u8>, publish_ns: u64) -> bool {
    &&& has_entry(r, "id".spec_bytes(), text_item("fslat/v2".spec_bytes()))
    &&& has_entry(r, "timestamp_monotonic".spec_bytes(), uint_item(publish_ns))
    &&& has_entry(r, "opname".spec_bytes(), text_item(opname))
    &&& has_entry(r, "unit".spec_bytes(), text_item("ns".spec_bytes()))
}

/// Every record that the accounting of a returning call to the operation
/// `opname` queues names that operation, with the unit `ns` and the clock
/// reading `publish_ns`, and the records already queued stay as they were.
pub proof fn lemma_exit_records_name_operation(
    init: ExitState,
    k: int,
    entry: EntryRec,
    opname: Seq<u8>,
    now: u64,
    publish_ns: u64,
    ret: u64,
    max_records: nat,
)
    requires
        0 <= k <= init.stats.len(),
    ensures
        ({
            let st = exit_upto(init, k, entry, opname, now, publish_ns, ret, max_records);
            &&& st.records.len() >= init.records.len()
            &&& st.records.take(init.records.len() as int) == init.records
            &&& forall|j: int| init.records.len() <= j < st.records.len() ==> names_operation(#[trigger] st.records[j], opname, publish_ns)
        }),
    decreases k,
{
    reveal(exit_prefix);
    if k > 0 {
        lemma_exit_records_name_operation(init, k - 1, entry, opname, now, publish_ns, ret, max_records);
        lemma_exit_upto_frame(init, k - 1, entry, opname, now, publish_ns, ret, max_records);
        let prev = exit_upto(init, k - 1, entry, opname, now, publish_ns, ret, max_records);
        let st = exit_upto(init, k, entry, opname, now, publish_ns, ret, max_records);
        if !prev.failed && st.records.len() != prev.records.len() {
            assert(st.records.take(init.records.len() as int) =~= prev.records.take(init.records.len() as int));
            let s = prev.stats[k - 1];
            let s1 = s.with_sample(entry.timestamp, now, ret);
            let rec = stats_record(
                "fslat/v2".spec_bytes(),
                publish_ns,
                opname,
                prev.counter,
                "ns".spec_bytes(),
                s1,
                s.path_prefix@.take(s.pathlen as int),
            );
            assert(st.records == prev.records.push(rec));
            lemma_stats_record_entries(
                "fslat/v2".spec_bytes(),
                publish_ns,
                opname,
                prev.counter,
                "ns".spec_bytes(),
                s1,
                s.path_prefix@.take(s.pathlen as int),
            );
            assert forall|j: int| init.records.len() <= j < st.records.len() implies names_operation(
                #[trigger] st.records[j],
                opname,
                publish_ns,
            ) by {
                if j < prev.records.len() {
                    assert(st.records[j] == prev.records[j]);
                }
            }
        }
    }
}

/// The aggregation window of `s` is over at `now` for a call whose path the
/// prefix of `s` matches: more than `AGG_INTERVAL` nanoseconds (with
/// wrap-around) have passed since its last publication.
pub open spec fn window_due(s: FsLatencyStats, entry: EntryRec, now: u64) -> bool {
    &&& prefix_matches(s.path_prefix@, entry.path@, s.pathlen as int)
    &&& now.wrapping_sub(s.lastpublish) > AGG_INTERVAL
}

/// Number of the first `k` statistics whose window is due.
pub open spec fn due_count(stats: Seq<FsLatencyStats>, k: int, entry: EntryRec, now: u64) -> int
    decreases k,
{
    if k <= 0 {
        0
    } else {
        due_count(stats, k - 1, entry, now) + if window_due(stats[k - 1], entry, now) { 1int } else { 0 }
    }
}

/// While the ring has room, the accounting of a returning call queues one
/// record for each prefix that the call's path matches and whose window is
/// over, never fails, and leaves the statistics of the prefixes the path
/// does not match as they were.
pub proof fn lemma_exit_publishes_due_windows(
    init: ExitState,
    k: int,
    entry: EntryRec,
    opname: Seq<u8>,
    now: u64,
    publish_ns: u64,
    ret: u64,
    max_records: nat,
)
    requires
        0 <= k <= init.stats.len(),
        !init.failed,
        init.records.len() + k <= max_records,
    ensures
        ({
            let st = exit_upto(init, k, entry, opname, now, publish_ns, ret, max_records);
            &&& !st.failed
            &&& st.records.len() == init.records.len() + due_count(init.stats, k, entry, now)
            &&& 0 <= due_count(init.stats, k, entry, now) <= k
            &&& forall|i: int|
                0 <= i < k && !prefix_matches(init.stats[i].path_prefix@, entry.path@, init.stats[i].pathlen as int)
                    ==> #[trigger] st.stats[i] == init.stats[i]
        }),
    decreases k,
{
    reveal(exit_prefix);
    if k > 0 {
        lemma_exit_publishes_due_windows(init, k - 1, entry, opname, now, publish_ns, ret, max_records);
        lemma_exit_upto_frame(init, k - 1, entry, opname, now, publish_ns, ret, max_records);
        let prev = exit_upto(init, k - 1, entry, opname, now, publish_ns, ret, max_records);
        let st = exit_upto(init, k, entry, opname, now, publish_ns, ret, max_records);
        assert(prev.stats[k - 1] == init.stats[k - 1]);
        assert forall|i: int|
            0 <= i < k && !prefix_matches(init.stats[i].path_prefix@, entry.path@, init.stats[i].pathlen as int)
                implies #[trigger] st.stats[i] == init.stats[i] by {
            if i < k - 1 {
                assert(st.stats[i] == prev.stats[i]);
            }
        }
    }
}

/// Records published by two consecutive returning calls carry consecutive
/// sequence numbers: the second call numbers its records from where the
/// first one left the counter, whatever the reader took out of the ring in
/// between.
pub proof fn lemma_exit_calls_number_consecutively(
    init: ExitState,
    between: Seq<Seq<u8>>,
    entry1: EntryRec,
    opname1: Seq<u8>,
    now1: u64,
    publish_ns1: u64,
    ret1: u64,
    entry2: EntryRec,
    opname2: Seq<u8>,
    now2: u64,
    publish_ns2: u64,
    ret2: u64,
    max_records: nat,
)
    requires
        init.stats.len() == NUM_PATH_PREFIX,
        init.counter + 2 * NUM_PATH_PREFIX <= u64::MAX,
    ensures
        ({
            let n = NUM_PATH_PREFIX as int;
            let st1 = exit_upto(init, n, entry1, opname1, now1, publish_ns1, ret1, max_records);
            let mid = ExitState { stats: st1.stats, counter: st1.counter, records: between, failed: false };
            let st2 = exit_upto(mid, n, entry2, opname2, now2, publish_ns2, ret2, max_records);
            let published = st1.records.skip(init.records.len() as int) + st2.records.skip(between.len() as int);
            &&& numbered_from(published, 0, init.counter as int)
            &&& st2.counter == init.counter + published.len()
        }),
{
    let n = NUM_PATH_PREFIX as int;
    lemma_exit_counter_counts_records(init, n, entry1, opname1, now1, publish_ns1, ret1, max_records);
    lemma_exit_upto_frame(init, n, entry1, opname1, now1, publish_ns1, ret1, max_records);
    let st1 = exit_upto(init, n, entry1, opname1, now1, publish_ns1, ret1, max_records);
    let mid = ExitState { stats: st1.stats, counter: st1.counter, records: between, failed: false };
    lemma_exit_counter_counts_records(mid, n, entry2, opname2, now2, publish_ns2, ret2, max_records);
    let st2 = exit_upto(mid, n, entry2, opname2, now2, publish_ns2, ret2, max_records);
    let new1 = st1.records.skip(init.records.len() as int);
    let new2 = st2.records.skip(between.len() as int);
    let published = new1 + new2;
    assert forall|j: int| 0 <= j < published.len() implies record_numbered(
        #[trigger] published[j],
        (init.counter + (j - 0)) as u64,
    ) by {
        if j < new1.len() {
            assert(published[j] == st1.records[init.records.len() + j]);
            assert(record_numbered(st1.records[init.records.len() + j], (init.counter + ((init.records.len() + j) - init.records.len())) as u64));
        } else {
            let j2 = between.len() + (j - new1.len());
            assert(published[j] == st2.records[j2]);
            assert(record_numbered(st2.records[j2], (mid.counter + (j2 - between.len())) as u64));
        }
    }
}

/// `r` is a statistics record numbered `seq`.
pub open spec fn record_numbered(r: Seq<u8>, seq: u64) -> bool {
    exists|id: Seq<u8>, monotonic: u64, opname: Seq<u8>, unit: Seq<u8>, s: FsLatencyStats, prefix: Seq<u8>|
        r == #[trigger] stats_record(id, monotonic, opname, seq, unit, s, prefix)
}

/// The records from index `from` on are numbered consecutively, the one at
/// `from` with `first`.
pub open spec fn numbered_from(records: Seq<Seq<u8>>, from: int, first: int) -> bool {
    forall|j: int| from <= j < records.len() ==> record_numbered(#[trigger] records[j], (first + (j - from)) as u64)
}

/// Once the accounting has failed, further prefixes change nothing.
proof fn lemma_exit_stays_failed(
    init: ExitState,
    k: int,
    m: int,
    entry: EntryRec,
    opname: Seq<u8>,
    now: u64,
    publish_ns: u64,
    ret: u64,
    max_records: nat,
)
    requires
        k <= m,
        exit_upto(init, k, entry, opname, now, publish_ns, ret, max_records).failed,
    ensures
        exit_upto(init, m, entry, opname, now, publish_ns, ret, max_records) == exit_upto(init, k, entry, opname, now, publish_ns, ret, max_records),
    decreases m - k,
{
    if k < m {
        lemma_exit_stays_failed(init, k, m - 1, entry, opname, now, publish_ns, ret, max_records);
    }
}

} // verus!
