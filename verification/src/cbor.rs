//! CBOR framing of published statistics records.
//!
//! Records are CBOR maps of indefinite length, written with `minicbor`.

use vstd::prelude::*;
use vstd::string::StringSliceAdditionalSpecFns;

use crate::fslat::{EventFields, FsLatencyStats, PATHFRAGLEN};

verus! {

/// `n` big-endian bytes of `x` (the low `n` bytes).
pub open spec fn be_bytes(x: nat, n: nat) -> Seq<u8>
    decreases n,
{
    if n == 0 {
        Seq::empty()
    } else {
        be_bytes(x / 256, (n - 1) as nat).push((x % 256) as u8)
    }
}

/// The head of a CBOR item whose first byte has the major type bits `t`
/// (low five bits zero) and whose argument is `x`, in the shortest form.
#[verifier::opaque]
pub open spec fn cbor_head(t: u8, x: u64) -> Seq<u8> {
    if x <= 0x17 {
        seq![(t + x) as u8]
    } else if x <= 0xff {
        seq![(t + 24) as u8, x as u8]
    } else if x <= 0xffff {
        seq![(t + 25) as u8] + be_bytes(x as nat, 2)
    } else if x <= 0xffff_ffff {
        seq![(t + 26) as u8] + be_bytes(x as nat, 4)
    } else {
        seq![(t + 27) as u8] + be_bytes(x as nat, 8)
    }
}

/// Major type bits of an unsigned integer.
pub open spec fn major_uint() -> u8 {
    0x00
}

/// Major type bits of a text string.
pub open spec fn major_text() -> u8 {
    0x60
}

/// An unsigned integer item.
pub open spec fn uint_item(x: u64) -> Seq<u8> {
    cbor_head(major_uint(), x)
}

/// A text string item holding the bytes `b`.
pub open spec fn text_item(b: Seq<u8>) -> Seq<u8> {
    cbor_head(major_text(), b.len() as u64) + b
}

/// Start of a map of indefinite length.
pub open spec fn begin_map_item() -> Seq<u8> {
    seq![0xbfu8]
}

/// End of an item of indefinite length.
pub open spec fn end_item() -> Seq<u8> {
    seq![0xffu8]
}

/// A map entry from the text key `k` to the encoded value `v`.
pub open spec fn entry(k: &str, v: Seq<u8>) -> Seq<u8> {
    text_item(k.spec_bytes()) + v
}

/// The inner `metrics` map of a statistics record.
pub open spec fn metrics_map(s: FsLatencyStats) -> Seq<u8> {
    begin_map_item()
        + entry("min_latency", uint_item(s.min))
        + entry("max_latency", uint_item(s.max))
        + entry("total_latency", uint_item(s.total_lat))
        + entry("total_bytes", uint_item(s.total_bytes))
        + entry("count_samples", uint_item(s.count))
        + entry("active_time", uint_item(s.active_time))
        + end_item()
}

/// A whole statistics record: identity, timestamp, operation, sequence
/// number, unit, the metrics of `s` and the path prefix bytes `prefix`.
pub open spec fn stats_record(
    id: Seq<u8>,
    monotonic: u64,
    opname: Seq<u8>,
    seq: u64,
    unit: Seq<u8>,
    s: FsLatencyStats,
    prefix: Seq<u8>,
) -> Seq<u8> {
    begin_map_item()
        + entry("id", text_item(id))
        + entry("timestamp_monotonic", uint_item(monotonic))
        + entry("opname", text_item(opname))
        + entry("sequence", uint_item(seq))
        + entry("unit", text_item(unit))
        + entry("metrics", metrics_map(s))
        + entry("path_prefix", text_item(prefix))
        + end_item()
}

/// The bytes of `p`, then the text key `key`, then the item `value`, then
/// the bytes of `q`.
pub open spec fn entry_at(p: Seq<u8>, key: Seq<u8>, value: Seq<u8>, q: Seq<u8>) -> Seq<u8> {
    p + text_item(key) + value + q
}

/// `r` holds the text key `key` immediately followed by the item `value`:
/// a map in `r` maps `key` to `value`.
pub open spec fn has_entry(r: Seq<u8>, key: Seq<u8>, value: Seq<u8>) -> bool {
    exists|p: Seq<u8>, q: Seq<u8>| r == #[trigger] entry_at(p, key, value, q)
}

/// A map entry holds itself.
proof fn lemma_has_entry_alone(key: &str, value: Seq<u8>)
    ensures
        has_entry(entry(key, value), key.spec_bytes(), value),
{
    let e = Seq::<u8>::empty();
    assert(entry(key, value) =~= entry_at(e, key.spec_bytes(), value, e));
}

/// Bytes written before an entry keep it.
proof fn lemma_has_entry_left(r: Seq<u8>, key: Seq<u8>, value: Seq<u8>, x: Seq<u8>)
    requires
        has_entry(r, key, value),
    ensures
        has_entry(x + r, key, value),
{
    let (p, q) = choose|p: Seq<u8>, q: Seq<u8>| r == #[trigger] entry_at(p, key, value, q);
    assert(x + r =~= entry_at(x + p, key, value, q));
}

/// Bytes written after an entry keep it.
proof fn lemma_has_entry_right(r: Seq<u8>, key: Seq<u8>, value: Seq<u8>, x: Seq<u8>)
    requires
        has_entry(r, key, value),
    ensures
        has_entry(r + x, key, value),
{
    let (p, q) = choose|p: Seq<u8>, q: Seq<u8>| r == #[trigger] entry_at(p, key, value, q);
    assert(r + x =~= entry_at(p, key, value, q + x));
}

/// The metrics map maps `min_latency` to its statistics field.
proof fn lemma_metrics_min_latency(s: FsLatencyStats)
    ensures
        has_entry(metrics_map(s), "min_latency".spec_bytes(), uint_item(s.min)),
{
    lemma_has_entry_alone("min_latency", uint_item(s.min));
    lemma_has_entry_left(entry("min_latency", uint_item(s.min)), "min_latency".spec_bytes(), uint_item(s.min), begin_map_item());
    lemma_has_entry_right(begin_map_item() + entry("min_latency", uint_item(s.min)), "min_latency".spec_bytes(), uint_item(s.min), entry("max_latency", uint_item(s.max)));
    lemma_has_entry_right(begin_map_item() + entry("min_latency", uint_item(s.min)) + entry("max_latency", uint_item(s.max)), "min_latency".spec_bytes(), uint_item(s.min), entry("total_latency", uint_item(s.total_lat)));
    lemma_has_entry_right(begin_map_item() + entry("min_latency", uint_item(s.min)) + entry("max_latency", uint_item(s.max)) + entry("total_latency", uint_item(s.total_lat)), "min_latency".spec_bytes(), uint_item(s.min), entry("total_bytes", uint_item(s.total_bytes)));
    lemma_has_entry_right(begin_map_item() + entry("min_latency", uint_item(s.min)) + entry("max_latency", uint_item(s.max)) + entry("total_latency", uint_item(s.total_lat)) + entry("total_bytes", uint_item(s.total_bytes)), "min_latency".spec_bytes(), uint_item(s.min), entry("count_samples", uint_item(s.count)));
    lemma_has_entry_right(begin_map_item() + entry("min_latency", uint_item(s.min)) + entry("max_latency", uint_item(s.max)) + entry("total_latency", uint_item(s.total_lat)) + entry("total_bytes", uint_item(s.total_bytes)) + entry("count_samples", uint_item(s.count)), "min_latency".spec_bytes(), uint_item(s.min), entry("active_time", uint_item(s.active_time)));
    lemma_has_entry_right(begin_map_item() + entry("min_latency", uint_item(s.min)) + entry("max_latency", uint_item(s.max)) + entry("total_latency", uint_item(s.total_lat)) + entry("total_bytes", uint_item(s.total_bytes)) + entry("count_samples", uint_item(s.count)) + entry("active_time", uint_item(s.active_time)), "min_latency".spec_bytes(), uint_item(s.min), end_item());
}

/// The metrics map maps `max_latency` to its statistics field.
proof fn lemma_metrics_max_latency(s: FsLatencyStats)
    ensures
        has_entry(metrics_map(s), "max_latency".spec_bytes(), uint_item(s.max)),
{
    lemma_has_entry_alone("max_latency", uint_item(s.max));
    lemma_has_entry_left(entry("max_latency", uint_item(s.max)), "max_latency".spec_bytes(), uint_item(s.max), begin_map_item() + entry("min_latency", uint_item(s.min)));
    lemma_has_entry_right(begin_map_item() + entry("min_latency", uint_item(s.min)) + entry("max_latency", uint_item(s.max)), "max_latency".spec_bytes(), uint_item(s.max), entry("total_latency", uint_item(s.total_lat)));
    lemma_has_entry_right(begin_map_item() + entry("min_latency", uint_item(s.min)) + entry("max_latency", uint_item(s.max)) + entry("total_latency", uint_item(s.total_lat)), "max_latency".spec_bytes(), uint_item(s.max), entry("total_bytes", uint_item(s.total_bytes)));
    lemma_has_entry_right(begin_map_item() + entry("min_latency", uint_item(s.min)) + entry("max_latency", uint_item(s.max)) + entry("total_latency", uint_item(s.total_lat)) + entry("total_bytes", uint_item(s.total_bytes)), "max_latency".spec_bytes(), uint_item(s.max), entry("count_samples", uint_item(s.count)));
    lemma_has_entry_right(begin_map_item() + entry("min_latency", uint_item(s.min)) + entry("max_latency", uint_item(s.max)) + entry("total_latency", uint_item(s.total_lat)) + entry("total_bytes", uint_item(s.total_bytes)) + entry("count_samples", uint_item(s.count)), "max_latency".spec_bytes(), uint_item(s.max), entry("active_time", uint_item(s.active_time)));
    lemma_has_entry_right(begin_map_item() + entry("min_latency", uint_item(s.min)) + entry("max_latency", uint_item(s.max)) + entry("total_latency", uint_item(s.total_lat)) + entry("total_bytes", uint_item(s.total_bytes)) + entry("count_samples", uint_item(s.count)) + entry("active_time", uint_item(s.active_time)), "max_latency".spec_bytes(), uint_item(s.max), end_item());
}

/// The metrics map maps `total_latency` to its statistics field.
proof fn lemma_metrics_total_latency(s: FsLatencyStats)
    ensures
        has_entry(metrics_map(s), "total_latency".spec_bytes(), uint_item(s.total_lat)),
{
    lemma_has_entry_alone("total_latency", uint_item(s.total_lat));
    lemma_has_entry_left(entry("total_latency", uint_item(s.total_lat)), "total_latency".spec_bytes(), uint_item(s.total_lat), begin_map_item() + entry("min_latency", uint_item(s.min)) + entry("max_latency", uint_item(s.max)));
    lemma_has_entry_right(begin_map_item() + entry("min_latency", uint_item(s.min)) + entry("max_latency", uint_item(s.max)) + entry("total_latency", uint_item(s.total_lat)), "total_latency".spec_bytes(), uint_item(s.total_lat), entry("total_bytes", uint_item(s.total_bytes)));
    lemma_has_entry_right(begin_map_item() + entry("min_latency", uint_item(s.min)) + entry("max_latency", uint_item(s.max)) + entry("total_latency", uint_item(s.total_lat)) + entry("total_bytes", uint_item(s.total_bytes)), "total_latency".spec_bytes(), uint_item(s.total_lat), entry("count_samples", uint_item(s.count)));
    lemma_has_entry_right(begin_map_item() + entry("min_latency", uint_item(s.min)) + entry("max_latency", uint_item(s.max)) + entry("total_latency", uint_item(s.total_lat)) + entry("total_bytes", uint_item(s.total_bytes)) + entry("count_samples", uint_item(s.count)), "total_latency".spec_bytes(), uint_item(s.total_lat), entry("active_time", uint_item(s.active_time)));
    lemma_has_entry_right(begin_map_item() + entry("min_latency", uint_item(s.min)) + entry("max_latency", uint_item(s.max)) + entry("total_latency", uint_item(s.total_lat)) + entry("total_bytes", uint_item(s.total_bytes)) + entry("count_samples", uint_item(s.count)) + entry("active_time", uint_item(s.active_time)), "total_latency".spec_bytes(), uint_item(s.total_lat), end_item());
}

/// The metrics map maps `total_bytes` to its statistics field.
proof fn lemma_metrics_total_bytes(s: FsLatencyStats)
    ensures
        has_entry(metrics_map(s), "total_bytes".spec_bytes(), uint_item(s.total_bytes)),
{
    lemma_has_entry_alone("total_bytes", uint_item(s.total_bytes));
    lemma_has_entry_left(entry("total_bytes", uint_item(s.total_bytes)), "total_bytes".spec_bytes(), uint_item(s.total_bytes), begin_map_item() + entry("min_latency", uint_item(s.min)) + entry("max_latency", uint_item(s.max)) + entry("total_latency", uint_item(s.total_lat)));
    lemma_has_entry_right(begin_map_item() + entry("min_latency", uint_item(s.min)) + entry("max_latency", uint_item(s.max)) + entry("total_latency", uint_item(s.total_lat)) + entry("total_bytes", uint_item(s.total_bytes)), "total_bytes".spec_bytes(), uint_item(s.total_bytes), entry("count_samples", uint_item(s.count)));
    lemma_has_entry_right(begin_map_item() + entry("min_latency", uint_item(s.min)) + entry("max_latency", uint_item(s.max)) + entry("total_latency", uint_item(s.total_lat)) + entry("total_bytes", uint_item(s.total_bytes)) + entry("count_samples", uint_item(s.count)), "total_bytes".spec_bytes(), uint_item(s.total_bytes), entry("active_time", uint_item(s.active_time)));
    lemma_has_entry_right(begin_map_item() + entry("min_latency", uint_item(s.min)) + entry("max_latency", uint_item(s.max)) + entry("total_latency", uint_item(s.total_lat)) + entry("total_bytes", uint_item(s.total_bytes)) + entry("count_samples", uint_item(s.count)) + entry("active_time", uint_item(s.active_time)), "total_bytes".spec_bytes(), uint_item(s.total_bytes), end_item());
}

/// The metrics map maps `count_samples` to its statistics field.
proof fn lemma_metrics_count_samples(s: FsLatencyStats)
    ensures
        has_entry(metrics_map(s), "count_samples".spec_bytes(), uint_item(s.count)),
{
    lemma_has_entry_alone("count_samples", uint_item(s.count));
    lemma_has_entry_left(entry("count_samples", uint_item(s.count)), "count_samples".spec_bytes(), uint_item(s.count), begin_map_item() + entry("min_latency", uint_item(s.min)) + entry("max_latency", uint_item(s.max)) + entry("total_latency", uint_item(s.total_lat)) + entry("total_bytes", uint_item(s.total_bytes)));
    lemma_has_entry_right(begin_map_item() + entry("min_latency", uint_item(s.min)) + entry("max_latency", uint_item(s.max)) + entry("total_latency", uint_item(s.total_lat)) + entry("total_bytes", uint_item(s.total_bytes)) + entry("count_samples", uint_item(s.count)), "count_samples".spec_bytes(), uint_item(s.count), entry("active_time", uint_item(s.active_time)));
    lemma_has_entry_right(begin_map_item() + entry("min_latency", uint_item(s.min)) + entry("max_latency", uint_item(s.max)) + entry("total_latency", uint_item(s.total_lat)) + entry("total_bytes", uint_item(s.total_bytes)) + entry("count_samples", uint_item(s.count)) + entry("active_time", uint_item(s.active_time)), "count_samples".spec_bytes(), uint_item(s.count), end_item());
}

/// The metrics map maps `active_time` to its statistics field.
proof fn lemma_metrics_active_time(s: FsLatencyStats)
    ensures
        has_entry(metrics_map(s), "active_time".spec_bytes(), uint_item(s.active_time)),
{
    lemma_has_entry_alone("active_time", uint_item(s.active_time));
    lemma_has_entry_left(entry("active_time", uint_item(s.active_time)), "active_time".spec_bytes(), uint_item(s.active_time), begin_map_item() + entry("min_latency", uint_item(s.min)) + entry("max_latency", uint_item(s.max)) + entry("total_latency", uint_item(s.total_lat)) + entry("total_bytes", uint_item(s.total_bytes)) + entry("count_samples", uint_item(s.count)));
    lemma_has_entry_right(begin_map_item() + entry("min_latency", uint_item(s.min)) + entry("max_latency", uint_item(s.max)) + entry("total_latency", uint_item(s.total_lat)) + entry("total_bytes", uint_item(s.total_bytes)) + entry("count_samples", uint_item(s.count)) + entry("active_time", uint_item(s.active_time)), "active_time".spec_bytes(), uint_item(s.active_time), end_item());
}

proof fn lemma_record_id(id: Seq<u8>, monotonic: u64, opname: Seq<u8>, seq: u64, unit: Seq<u8>, s: FsLatencyStats, prefix: Seq<u8>)
    ensures
        has_entry(stats_record(id, monotonic, opname, seq, unit, s, prefix), "id".spec_bytes(), text_item(id)),
{
    lemma_has_entry_alone("id", text_item(id));
    lemma_has_entry_left(entry("id", text_item(id)), "id".spec_bytes(), text_item(id), begin_map_item());
    lemma_has_entry_right(begin_map_item() + entry("id", text_item(id)), "id".spec_bytes(), text_item(id), entry("timestamp_monotonic", uint_item(monotonic)));
    lemma_has_entry_right(begin_map_item() + entry("id", text_item(id)) + entry("timestamp_monotonic", uint_item(monotonic)), "id".spec_bytes(), text_item(id), entry("opname", text_item(opname)));
    lemma_has_entry_right(begin_map_item() + entry("id", text_item(id)) + entry("timestamp_monotonic", uint_item(monotonic)) + entry("opname", text_item(opname)), "id".spec_bytes(), text_item(id), entry("sequence", uint_item(seq)));
    lemma_has_entry_right(begin_map_item() + entry("id", text_item(id)) + entry("timestamp_monotonic", uint_item(monotonic)) + entry("opname", text_item(opname)) + entry("sequence", uint_item(seq)), "id".spec_bytes(), text_item(id), entry("unit", text_item(unit)));
    lemma_has_entry_right(begin_map_item() + entry("id", text_item(id)) + entry("timestamp_monotonic", uint_item(monotonic)) + entry("opname", text_item(opname)) + entry("sequence", uint_item(seq)) + entry("unit", text_item(unit)), "id".spec_bytes(), text_item(id), entry("metrics", metrics_map(s)));
    lemma_has_entry_right(begin_map_item() + entry("id", text_item(id)) + entry("timestamp_monotonic", uint_item(monotonic)) + entry("opname", text_item(opname)) + entry("sequence", uint_item(seq)) + entry("unit", text_item(unit)) + entry("metrics", metrics_map(s)), "id".spec_bytes(), text_item(id), entry("path_prefix", text_item(prefix)));
    lemma_has_entry_right(begin_map_item() + entry("id", text_item(id)) + entry("timestamp_monotonic", uint_item(monotonic)) + entry("opname", text_item(opname)) + entry("sequence", uint_item(seq)) + entry("unit", text_item(unit)) + entry("metrics", metrics_map(s)) + entry("path_prefix", text_item(prefix)), "id".spec_bytes(), text_item(id), end_item());
}

proof fn lemma_record_timestamp_monotonic(id: Seq<u8>, monotonic: u64, opname: Seq<u8>, seq: u64, unit: Seq<u8>, s: FsLatencyStats, prefix: Seq<u8>)
    ensures
        has_entry(stats_record(id, monotonic, opname, seq, unit, s, prefix), "timestamp_monotonic".spec_bytes(), uint_item(monotonic)),
{
    lemma_has_entry_alone("timestamp_monotonic", uint_item(monotonic));
    lemma_has_entry_left(entry("timestamp_monotonic", uint_item(monotonic)), "timestamp_monotonic".spec_bytes(), uint_item(monotonic), begin_map_item() + entry("id", text_item(id)));
    lemma_has_entry_right(begin_map_item() + entry("id", text_item(id)) + entry("timestamp_monotonic", uint_item(monotonic)), "timestamp_monotonic".spec_bytes(), uint_item(monotonic), entry("opname", text_item(opname)));
    lemma_has_entry_right(begin_map_item() + entry("id", text_item(id)) + entry("timestamp_monotonic", uint_item(monotonic)) + entry("opname", text_item(opname)), "timestamp_monotonic".spec_bytes(), uint_item(monotonic), entry("sequence", uint_item(seq)));
    lemma_has_entry_right(begin_map_item() + entry("id", text_item(id)) + entry("timestamp_monotonic", uint_item(monotonic)) + entry("opname", text_item(opname)) + entry("sequence", uint_item(seq)), "timestamp_monotonic".spec_bytes(), uint_item(monotonic), entry("unit", text_item(unit)));
    lemma_has_entry_right(begin_map_item() + entry("id", text_item(id)) + entry("timestamp_monotonic", uint_item(monotonic)) + entry("opname", text_item(opname)) + entry("sequence", uint_item(seq)) + entry("unit", text_item(unit)), "timestamp_monotonic".spec_bytes(), uint_item(monotonic), entry("metrics", metrics_map(s)));
    lemma_has_entry_right(begin_map_item() + entry("id", text_item(id)) + entry("timestamp_monotonic", uint_item(monotonic)) + entry("opname", text_item(opname)) + entry("sequence", uint_item(seq)) + entry("unit", text_item(unit)) + entry("metrics", metrics_map(s)), "timestamp_monotonic".spec_bytes(), uint_item(monotonic), entry("path_prefix", text_item(prefix)));
    lemma_has_entry_right(begin_map_item() + entry("id", text_item(id)) + entry("timestamp_monotonic", uint_item(monotonic)) + entry("opname", text_item(opname)) + entry("sequence", uint_item(seq)) + entry("unit", text_item(unit)) + entry("metrics", metrics_map(s)) + entry("path_prefix", text_item(prefix)), "timestamp_monotonic".spec_bytes(), uint_item(monotonic), end_item());
}

proof fn lemma_record_opname(id: Seq<u8>, monotonic: u64, opname: Seq<u8>, seq: u64, unit: Seq<u8>, s: FsLatencyStats, prefix: Seq<u8>)
    ensures
        has_entry(stats_record(id, monotonic, opname, seq, unit, s, prefix), "opname".spec_bytes(), text_item(opname)),
{
    lemma_has_entry_alone("opname", text_item(opname));
    lemma_has_entry_left(entry("opname", text_item(opname)), "opname".spec_bytes(), text_item(opname), begin_map_item() + entry("id", text_item(id)) + entry("timestamp_monotonic", uint_item(monotonic)));
    lemma_has_entry_right(begin_map_item() + entry("id", text_item(id)) + entry("timestamp_monotonic", uint_item(monotonic)) + entry("opname", text_item(opname)), "opname".spec_bytes(), text_item(opname), entry("sequence", uint_item(seq)));
    lemma_has_entry_right(begin_map_item() + entry("id", text_item(id)) + entry("timestamp_monotonic", uint_item(monotonic)) + entry("opname", text_item(opname)) + entry("sequence", uint_item(seq)), "opname".spec_bytes(), text_item(opname), entry("unit", text_item(unit)));
    lemma_has_entry_right(begin_map_item() + entry("id", text_item(id)) + entry("timestamp_monotonic", uint_item(monotonic)) + entry("opname", text_item(opname)) + entry("sequence", uint_item(seq)) + entry("unit", text_item(unit)), "opname".spec_bytes(), text_item(opname), entry("metrics", metrics_map(s)));
    lemma_has_entry_right(begin_map_item() + entry("id", text_item(id)) + entry("timestamp_monotonic", uint_item(monotonic)) + entry("opname", text_item(opname)) + entry("sequence", uint_item(seq)) + entry("unit", text_item(unit)) + entry("metrics", metrics_map(s)), "opname".spec_bytes(), text_item(opname), entry("path_prefix", text_item(prefix)));
    lemma_has_entry_right(begin_map_item() + entry("id", text_item(id)) + entry("timestamp_monotonic", uint_item(monotonic)) + entry("opname", text_item(opname)) + entry("sequence", uint_item(seq)) + entry("unit", text_item(unit)) + entry("metrics", metrics_map(s)) + entry("path_prefix", text_item(prefix)), "opname".spec_bytes(), text_item(opname), end_item());
}

proof fn lemma_record_sequence(id: Seq<u8>, monotonic: u64, opname: Seq<u8>, seq: u64, unit: Seq<u8>, s: FsLatencyStats, prefix: Seq<u8>)
    ensures
        has_entry(stats_record(id, monotonic, opname, seq, unit, s, prefix), "sequence".spec_bytes(), uint_item(seq)),
{
    lemma_has_entry_alone("sequence", uint_item(seq));
    lemma_has_entry_left(entry("sequence", uint_item(seq)), "sequence".spec_bytes(), uint_item(seq), begin_map_item() + entry("id", text_item(id)) + entry("timestamp_monotonic", uint_item(monotonic)) + entry("opname", text_item(opname)));
    lemma_has_entry_right(begin_map_item() + entry("id", text_item(id)) + entry("timestamp_monotonic", uint_item(monotonic)) + entry("opname", text_item(opname)) + entry("sequence", uint_item(seq)), "sequence".spec_bytes(), uint_item(seq), entry("unit", text_item(unit)));
    lemma_has_entry_right(begin_map_item() + entry("id", text_item(id)) + entry("timestamp_monotonic", uint_item(monotonic)) + entry("opname", text_item(opname)) + entry("sequence", uint_item(seq)) + entry("unit", text_item(unit)), "sequence".spec_bytes(), uint_item(seq), entry("metrics", metrics_map(s)));
    lemma_has_entry_right(begin_map_item() + entry("id", text_item(id)) + entry("timestamp_monotonic", uint_item(monotonic)) + entry("opname", text_item(opname)) + entry("sequence", uint_item(seq)) + entry("unit", text_item(unit)) + entry("metrics", metrics_map(s)), "sequence".spec_bytes(), uint_item(seq), entry("path_prefix", text_item(prefix)));
    lemma_has_entry_right(begin_map_item() + entry("id", text_item(id)) + entry("timestamp_monotonic", uint_item(monotonic)) + entry("opname", text_item(opname)) + entry("sequence", uint_item(seq)) + entry("unit", text_item(unit)) + entry("metrics", metrics_map(s)) + entry("path_prefix", text_item(prefix)), "sequence".spec_bytes(), uint_item(seq), end_item());
}

proof fn lemma_record_unit(id: Seq<u8>, monotonic: u64, opname: Seq<u8>, seq: u64, unit: Seq<u8>, s: FsLatencyStats, prefix: Seq<u8>)
    ensures
        has_entry(stats_record(id, monotonic, opname, seq, unit, s, prefix), "unit".spec_bytes(), text_item(unit)),
{
    lemma_has_entry_alone("unit", text_item(unit));
    lemma_has_entry_left(entry("unit", text_item(unit)), "unit".spec_bytes(), text_item(unit), begin_map_item() + entry("id", text_item(id)) + entry("timestamp_monotonic", uint_item(monotonic)) + entry("opname", text_item(opname)) + entry("sequence", uint_item(seq)));
    lemma_has_entry_right(begin_map_item() + entry("id", text_item(id)) + entry("timestamp_monotonic", uint_item(monotonic)) + entry("opname", text_item(opname)) + entry("sequence", uint_item(seq)) + entry("unit", text_item(unit)), "unit".spec_bytes(), text_item(unit), entry("metrics", metrics_map(s)));
    lemma_has_entry_right(begin_map_item() + entry("id", text_item(id)) + entry("timestamp_monotonic", uint_item(monotonic)) + entry("opname", text_item(opname)) + entry("sequence", uint_item(seq)) + entry("unit", text_item(unit)) + entry("metrics", metrics_map(s)), "unit".spec_bytes(), text_item(unit), entry("path_prefix", text_item(prefix)));
    lemma_has_entry_right(begin_map_item() + entry("id", text_item(id)) + entry("timestamp_monotonic", uint_item(monotonic)) + entry("opname", text_item(opname)) + entry("sequence", uint_item(seq)) + entry("unit", text_item(unit)) + entry("metrics", metrics_map(s)) + entry("path_prefix", text_item(prefix)), "unit".spec_bytes(), text_item(unit), end_item());
}

proof fn lemma_record_metrics(id: Seq<u8>, monotonic: u64, opname: Seq<u8>, seq: u64, unit: Seq<u8>, s: FsLatencyStats, prefix: Seq<u8>)
    ensures
        has_entry(stats_record(id, monotonic, opname, seq, unit, s, prefix), "metrics".spec_bytes(), metrics_map(s)),
{
    lemma_has_entry_alone("metrics", metrics_map(s));
    lemma_has_entry_left(entry("metrics", metrics_map(s)), "metrics".spec_bytes(), metrics_map(s), begin_map_item() + entry("id", text_item(id)) + entry("timestamp_monotonic", uint_item(monotonic)) + entry("opname", text_item(opname)) + entry("sequence", uint_item(seq)) + entry("unit", text_item(unit)));
    lemma_has_entry_right(begin_map_item() + entry("id", text_item(id)) + entry("timestamp_monotonic", uint_item(monotonic)) + entry("opname", text_item(opname)) + entry("sequence", uint_item(seq)) + entry("unit", text_item(unit)) + entry("metrics", metrics_map(s)), "metrics".spec_bytes(), metrics_map(s), entry("path_prefix", text_item(prefix)));
    lemma_has_entry_right(begin_map_item() + entry("id", text_item(id)) + entry("timestamp_monotonic", uint_item(monotonic)) + entry("opname", text_item(opname)) + entry("sequence", uint_item(seq)) + entry("unit", text_item(unit)) + entry("metrics", metrics_map(s)) + entry("path_prefix", text_item(prefix)), "metrics".spec_bytes(), metrics_map(s), end_item());
}

proof fn lemma_record_path_prefix(id: Seq<u8>, monotonic: u64, opname: Seq<u8>, seq: u64, unit: Seq<u8>, s: FsLatencyStats, prefix: Seq<u8>)
    ensures
        has_entry(stats_record(id, monotonic, opname, seq, unit, s, prefix), "path_prefix".spec_bytes(), text_item(prefix)),
{
    lemma_has_entry_alone("path_prefix", text_item(prefix));
    lemma_has_entry_left(entry("path_prefix", text_item(prefix)), "path_prefix".spec_bytes(), text_item(prefix), begin_map_item() + entry("id", text_item(id)) + entry("timestamp_monotonic", uint_item(monotonic)) + entry("opname", text_item(opname)) + entry("sequence", uint_item(seq)) + entry("unit", text_item(unit)) + entry("metrics", metrics_map(s)));
    lemma_has_entry_right(begin_map_item() + entry("id", text_item(id)) + entry("timestamp_monotonic", uint_item(monotonic)) + entry("opname", text_item(opname)) + entry("sequence", uint_item(seq)) + entry("unit", text_item(unit)) + entry("metrics", metrics_map(s)) + entry("path_prefix", text_item(prefix)), "path_prefix".spec_bytes(), text_item(prefix), end_item());
}

proof fn lemma_record_min_latency(id: Seq<u8>, monotonic: u64, opname: Seq<u8>, seq: u64, unit: Seq<u8>, s: FsLatencyStats, prefix: Seq<u8>)
    ensures
        has_entry(stats_record(id, monotonic, opname, seq, unit, s, prefix), "min_latency".spec_bytes(), uint_item(s.min)),
{
    lemma_metrics_min_latency(s);
    lemma_has_entry_left(metrics_map(s), "min_latency".spec_bytes(), uint_item(s.min), text_item("metrics".spec_bytes()));
    assert(text_item("metrics".spec_bytes()) + metrics_map(s) == entry("metrics", metrics_map(s)));
    lemma_has_entry_left(entry("metrics", metrics_map(s)), "min_latency".spec_bytes(), uint_item(s.min), begin_map_item() + entry("id", text_item(id)) + entry("timestamp_monotonic", uint_item(monotonic)) + entry("opname", text_item(opname)) + entry("sequence", uint_item(seq)) + entry("unit", text_item(unit)));
    lemma_has_entry_right(begin_map_item() + entry("id", text_item(id)) + entry("timestamp_monotonic", uint_item(monotonic)) + entry("opname", text_item(opname)) + entry("sequence", uint_item(seq)) + entry("unit", text_item(unit)) + entry("metrics", metrics_map(s)), "min_latency".spec_bytes(), uint_item(s.min), entry("path_prefix", text_item(prefix)));
    lemma_has_entry_right(begin_map_item() + entry("id", text_item(id)) + entry("timestamp_monotonic", uint_item(monotonic)) + entry("opname", text_item(opname)) + entry("sequence", uint_item(seq)) + entry("unit", text_item(unit)) + entry("metrics", metrics_map(s)) + entry("path_prefix", text_item(prefix)), "min_latency".spec_bytes(), uint_item(s.min), end_item());
}

proof fn lemma_record_max_latency(id: Seq<u8>, monotonic: u64, opname: Seq<u8>, seq: u64, unit: Seq<u8>, s: FsLatencyStats, prefix: Seq<u8>)
    ensures
        has_entry(stats_record(id, monotonic, opname, seq, unit, s, prefix), "max_latency".spec_bytes(), uint_item(s.max)),
{
    lemma_metrics_max_latency(s);
    lemma_has_entry_left(metrics_map(s), "max_latency".spec_bytes(), uint_item(s.max), text_item("metrics".spec_bytes()));
    assert(text_item("metrics".spec_bytes()) + metrics_map(s) == entry("metrics", metrics_map(s)));
    lemma_has_entry_left(entry("metrics", metrics_map(s)), "max_latency".spec_bytes(), uint_item(s.max), begin_map_item() + entry("id", text_item(id)) + entry("timestamp_monotonic", uint_item(monotonic)) + entry("opname", text_item(opname)) + entry("sequence", uint_item(seq)) + entry("unit", text_item(unit)));
    lemma_has_entry_right(begin_map_item() + entry("id", text_item(id)) + entry("timestamp_monotonic", uint_item(monotonic)) + entry("opname", text_item(opname)) + entry("sequence", uint_item(seq)) + entry("unit", text_item(unit)) + entry("metrics", metrics_map(s)), "max_latency".spec_bytes(), uint_item(s.max), entry("path_prefix", text_item(prefix)));
    lemma_has_entry_right(begin_map_item() + entry("id", text_item(id)) + entry("timestamp_monotonic", uint_item(monotonic)) + entry("opname", text_item(opname)) + entry("sequence", uint_item(seq)) + entry("unit", text_item(unit)) + entry("metrics", metrics_map(s)) + entry("path_prefix", text_item(prefix)), "max_latency".spec_bytes(), uint_item(s.max), end_item());
}

proof fn lemma_record_total_latency(id: Seq<u8>, monotonic: u64, opname: Seq<u8>, seq: u64, unit: Seq<u8>, s: FsLatencyStats, prefix: Seq<u8>)
    ensures
        has_entry(stats_record(id, monotonic, opname, seq, unit, s, prefix), "total_latency".spec_bytes(), uint_item(s.total_lat)),
{
    lemma_metrics_total_latency(s);
    lemma_has_entry_left(metrics_map(s), "total_latency".spec_bytes(), uint_item(s.total_lat), text_item("metrics".spec_bytes()));
    assert(text_item("metrics".spec_bytes()) + metrics_map(s) == entry("metrics", metrics_map(s)));
    lemma_has_entry_left(entry("metrics", metrics_map(s)), "total_latency".spec_bytes(), uint_item(s.total_lat), begin_map_item() + entry("id", text_item(id)) + entry("timestamp_monotonic", uint_item(monotonic)) + entry("opname", text_item(opname)) + entry("sequence", uint_item(seq)) + entry("unit", text_item(unit)));
    lemma_has_entry_right(begin_map_item() + entry("id", text_item(id)) + entry("timestamp_monotonic", uint_item(monotonic)) + entry("opname", text_item(opname)) + entry("sequence", uint_item(seq)) + entry("unit", text_item(unit)) + entry("metrics", metrics_map(s)), "total_latency".spec_bytes(), uint_item(s.total_lat), entry("path_prefix", text_item(prefix)));
    lemma_has_entry_right(begin_map_item() + entry("id", text_item(id)) + entry("timestamp_monotonic", uint_item(monotonic)) + entry("opname", text_item(opname)) + entry("sequence", uint_item(seq)) + entry("unit", text_item(unit)) + entry("metrics", metrics_map(s)) + entry("path_prefix", text_item(prefix)), "total_latency".spec_bytes(), uint_item(s.total_lat), end_item());
}

proof fn lemma_record_total_bytes(id: Seq<u8>, monotonic: u64, opname: Seq<u8>, seq: u64, unit: Seq<u8>, s: FsLatencyStats, prefix: Seq<u8>)
    ensures
        has_entry(stats_record(id, monotonic, opname, seq, unit, s, prefix), "total_bytes".spec_bytes(), uint_item(s.total_bytes)),
{
    lemma_metrics_total_bytes(s);
    lemma_has_entry_left(metrics_map(s), "total_bytes".spec_bytes(), uint_item(s.total_bytes), text_item("metrics".spec_bytes()));
    assert(text_item("metrics".spec_bytes()) + metrics_map(s) == entry("metrics", metrics_map(s)));
    lemma_has_entry_left(entry("metrics", metrics_map(s)), "total_bytes".spec_bytes(), uint_item(s.total_bytes), begin_map_item() + entry("id", text_item(id)) + entry("timestamp_monotonic", uint_item(monotonic)) + entry("opname", text_item(opname)) + entry("sequence", uint_item(seq)) + entry("unit", text_item(unit)));
    lemma_has_entry_right(begin_map_item() + entry("id", text_item(id)) + entry("timestamp_monotonic", uint_item(monotonic)) + entry("opname", text_item(opname)) + entry("sequence", uint_item(seq)) + entry("unit", text_item(unit)) + entry("metrics", metrics_map(s)), "total_bytes".spec_bytes(), uint_item(s.total_bytes), entry("path_prefix", text_item(prefix)));
    lemma_has_entry_right(begin_map_item() + entry("id", text_item(id)) + entry("timestamp_monotonic", uint_item(monotonic)) + entry("opname", text_item(opname)) + entry("sequence", uint_item(seq)) + entry("unit", text_item(unit)) + entry("metrics", metrics_map(s)) + entry("path_prefix", text_item(prefix)), "total_bytes".spec_bytes(), uint_item(s.total_bytes), end_item());
}

proof fn lemma_record_count_samples(id: Seq<u8>, monotonic: u64, opname: Seq<u8>, seq: u64, unit: Seq<u8>, s: FsLatencyStats, prefix: Seq<u8>)
    ensures
        has_entry(stats_record(id, monotonic, opname, seq, unit, s, prefix), "count_samples".spec_bytes(), uint_item(s.count)),
{
    lemma_metrics_count_samples(s);
    lemma_has_entry_left(metrics_map(s), "count_samples".spec_bytes(), uint_item(s.count), text_item("metrics".spec_bytes()));
    assert(text_item("metrics".spec_bytes()) + metrics_map(s) == entry("metrics", metrics_map(s)));
    lemma_has_entry_left(entry("metrics", metrics_map(s)), "count_samples".spec_bytes(), uint_item(s.count), begin_map_item() + entry("id", text_item(id)) + entry("timestamp_monotonic", uint_item(monotonic)) + entry("opname", text_item(opname)) + entry("sequence", uint_item(seq)) + entry("unit", text_item(unit)));
    lemma_has_entry_right(begin_map_item() + entry("id", text_item(id)) + entry("timestamp_monotonic", uint_item(monotonic)) + entry("opname", text_item(opname)) + entry("sequence", uint_item(seq)) + entry("unit", text_item(unit)) + entry("metrics", metrics_map(s)), "count_samples".spec_bytes(), uint_item(s.count), entry("path_prefix", text_item(prefix)));
    lemma_has_entry_right(begin_map_item() + entry("id", text_item(id)) + entry("timestamp_monotonic", uint_item(monotonic)) + entry("opname", text_item(opname)) + entry("sequence", uint_item(seq)) + entry("unit", text_item(unit)) + entry("metrics", metrics_map(s)) + entry("path_prefix", text_item(prefix)), "count_samples".spec_bytes(), uint_item(s.count), end_item());
}

proof fn lemma_record_active_time(id: Seq<u8>, monotonic: u64, opname: Seq<u8>, seq: u64, unit: Seq<u8>, s: FsLatencyStats, prefix: Seq<u8>)
    ensures
        has_entry(stats_record(id, monotonic, opname, seq, unit, s, prefix), "active_time".spec_bytes(), uint_item(s.active_time)),
{
    lemma_metrics_active_time(s);
    lemma_has_entry_left(metrics_map(s), "active_time".spec_bytes(), uint_item(s.active_time), text_item("metrics".spec_bytes()));
    assert(text_item("metrics".spec_bytes()) + metrics_map(s) == entry("metrics", metrics_map(s)));
    lemma_has_entry_left(entry("metrics", metrics_map(s)), "active_time".spec_bytes(), uint_item(s.active_time), begin_map_item() + entry("id", text_item(id)) + entry("timestamp_monotonic", uint_item(monotonic)) + entry("opname", text_item(opname)) + entry("sequence", uint_item(seq)) + entry("unit", text_item(unit)));
    lemma_has_entry_right(begin_map_item() + entry("id", text_item(id)) + entry("timestamp_monotonic", uint_item(monotonic)) + entry("opname", text_item(opname)) + entry("sequence", uint_item(seq)) + entry("unit", text_item(unit)) + entry("metrics", metrics_map(s)), "active_time".spec_bytes(), uint_item(s.active_time), entry("path_prefix", text_item(prefix)));
    lemma_has_entry_right(begin_map_item() + entry("id", text_item(id)) + entry("timestamp_monotonic", uint_item(monotonic)) + entry("opname", text_item(opname)) + entry("sequence", uint_item(seq)) + entry("unit", text_item(unit)) + entry("metrics", metrics_map(s)) + entry("path_prefix", text_item(prefix)), "active_time".spec_bytes(), uint_item(s.active_time), end_item());
}

/// A statistics record maps each of its keys to the value it names: `id`,
/// `timestamp_monotonic`, `opname`, `sequence`, `unit` and `path_prefix` to
/// the record's arguments, `metrics` to the metrics map, and each metrics
/// key to the statistics field it names (`min_latency` to `s.min`,
/// `max_latency` to `s.max`, and so on).
pub proof fn lemma_stats_record_entries(id: Seq<u8>, monotonic: u64, opname: Seq<u8>, seq: u64, unit: Seq<u8>, s: FsLatencyStats, prefix: Seq<u8>)
    ensures
        has_entry(stats_record(id, monotonic, opname, seq, unit, s, prefix), "id".spec_bytes(), text_item(id)),
        has_entry(stats_record(id, monotonic, opname, seq, unit, s, prefix), "timestamp_monotonic".spec_bytes(), uint_item(monotonic)),
        has_entry(stats_record(id, monotonic, opname, seq, unit, s, prefix), "opname".spec_bytes(), text_item(opname)),
        has_entry(stats_record(id, monotonic, opname, seq, unit, s, prefix), "sequence".spec_bytes(), uint_item(seq)),
        has_entry(stats_record(id, monotonic, opname, seq, unit, s, prefix), "unit".spec_bytes(), text_item(unit)),
        has_entry(stats_record(id, monotonic, opname, seq, unit, s, prefix), "metrics".spec_bytes(), metrics_map(s)),
        has_entry(stats_record(id, monotonic, opname, seq, unit, s, prefix), "path_prefix".spec_bytes(), text_item(prefix)),
        has_entry(stats_record(id, monotonic, opname, seq, unit, s, prefix), "min_latency".spec_bytes(), uint_item(s.min)),
        has_entry(stats_record(id, monotonic, opname, seq, unit, s, prefix), "max_latency".spec_bytes(), uint_item(s.max)),
        has_entry(stats_record(id, monotonic, opname, seq, unit, s, prefix), "total_latency".spec_bytes(), uint_item(s.total_lat)),
        has_entry(stats_record(id, monotonic, opname, seq, unit, s, prefix), "total_bytes".spec_bytes(), uint_item(s.total_bytes)),
        has_entry(stats_record(id, monotonic, opname, seq, unit, s, prefix), "count_samples".spec_bytes(), uint_item(s.count)),
        has_entry(stats_record(id, monotonic, opname, seq, unit, s, prefix), "active_time".spec_bytes(), uint_item(s.active_time)),
{
    lemma_record_id(id, monotonic, opname, seq, unit, s, prefix);
    lemma_record_timestamp_monotonic(id, monotonic, opname, seq, unit, s, prefix);
    lemma_record_opname(id, monotonic, opname, seq, unit, s, prefix);
    lemma_record_sequence(id, monotonic, opname, seq, unit, s, prefix);
    lemma_record_unit(id, monotonic, opname, seq, unit, s, prefix);
    lemma_record_metrics(id, monotonic, opname, seq, unit, s, prefix);
    lemma_record_path_prefix(id, monotonic, opname, seq, unit, s, prefix);
    lemma_record_min_latency(id, monotonic, opname, seq, unit, s, prefix);
    lemma_record_max_latency(id, monotonic, opname, seq, unit, s, prefix);
    lemma_record_total_latency(id, monotonic, opname, seq, unit, s, prefix);
    lemma_record_total_bytes(id, monotonic, opname, seq, unit, s, prefix);
    lemma_record_count_samples(id, monotonic, opname, seq, unit, s, prefix);
    lemma_record_active_time(id, monotonic, opname, seq, unit, s, prefix);
}

/// Appends an unsigned integer item for `x`.
///
/// Calls `minicbor::Encoder::u64` with an encoder writing into `buf`, which
/// writes `x`'s head in the shortest form and cannot fail on a `Vec`.
#[verifier::external_body]
fn put_u64(buf: &mut Vec<u8>, x: u64)
    ensures
        final(buf)@ == old(buf)@ + uint_item(x),
{
    let _ = minicbor::Encoder::new(buf).u64(x);
}

/// Appends a text string item for `s`.
///
/// Calls `minicbor::Encoder::str`, which writes the head for the byte length
/// of `s` followed by the UTF-8 bytes of `s`.
#[verifier::external_body]
fn put_str(buf: &mut Vec<u8>, s: &str)
    ensures
        final(buf)@ == old(buf)@ + text_item(s.spec_bytes()),
{
    let _ = minicbor::Encoder::new(buf).str(s);
}

/// Appends the head of a text string of `len` bytes.
///
/// Calls `minicbor::Encoder::str_len`, which writes only the item head.
#[verifier::external_body]
fn put_str_len(buf: &mut Vec<u8>, len: u64)
    ensures
        final(buf)@ == old(buf)@ + cbor_head(major_text(), len),
{
    let _ = minicbor::Encoder::new(buf).str_len(len);
}

/// Appends the start of a map of indefinite length.
///
/// Calls `minicbor::Encoder::begin_map`, which writes the byte `0xbf`.
#[verifier::external_body]
fn put_begin_map(buf: &mut Vec<u8>)
    ensures
        final(buf)@ == old(buf)@ + begin_map_item(),
{
    let _ = minicbor::Encoder::new(buf).begin_map();
}

/// Appends the end of an item of indefinite length.
///
/// Calls `minicbor::Encoder::end`, which writes the byte `0xff`.
#[verifier::external_body]
fn put_end(buf: &mut Vec<u8>)
    ensures
        final(buf)@ == old(buf)@ + end_item(),
{
    let _ = minicbor::Encoder::new(buf).end();
}

/// Appends a text string item holding the first `len` bytes of `bytes`,
/// whatever they are.
fn put_text_bytes(buf: &mut Vec<u8>, bytes: &[u8], len: usize)
    requires
        len <= bytes@.len(),
    ensures
        final(buf)@ == old(buf)@ + text_item(bytes@.take(len as int)),
{
    put_str_len(buf, len as u64);
    let ghost head = buf@;
    for i in 0..len
        invariant
            len <= bytes@.len(),
            buf@ == head + bytes@.take(i as int),
    {
        buf.push(bytes[i]);
        assert(bytes@.take(i + 1) =~= bytes@.take(i as int).push(bytes@[i as int]));
    }
}

/// Appends a map entry from the key `k` to the unsigned integer `v`.
fn put_uint_entry(buf: &mut Vec<u8>, k: &str, v: u64)
    ensures
        final(buf)@ == old(buf)@ + entry(k, uint_item(v)),
{
    put_str(buf, k);
    put_u64(buf, v);
}

/// Appends a map entry from the key `k` to the text `v`.
fn put_text_entry(buf: &mut Vec<u8>, k: &str, v: &str)
    ensures
        final(buf)@ == old(buf)@ + entry(k, text_item(v.spec_bytes())),
{
    put_str(buf, k);
    put_str(buf, v);
}

/// Appends the `metrics` map of `s`.
fn put_metrics(buf: &mut Vec<u8>, s: &FsLatencyStats)
    ensures
        final(buf)@ == old(buf)@ + metrics_map(*s),
{
    let ghost start = buf@;
    put_begin_map(buf);
    put_uint_entry(buf, "min_latency", s.min);
    put_uint_entry(buf, "max_latency", s.max);
    put_uint_entry(buf, "total_latency", s.total_lat);
    put_uint_entry(buf, "total_bytes", s.total_bytes);
    put_uint_entry(buf, "count_samples", s.count);
    put_uint_entry(buf, "active_time", s.active_time);
    put_end(buf);
    assert(buf@ =~= start + metrics_map(*s));
}

/// Encodes a statistics record for the prefix statistics `fsstat`.
///
/// The path prefix is the first `fsstat.pathlen` bytes of
/// `eventf.path_prefix`; `None` when that length is not between 1 and
/// `PATHFRAGLEN`.
pub fn encode_stats_record(eventf: &EventFields, fsstat: &FsLatencyStats, filpop: &str, unit: &str) -> (r: Option<Vec<u8>>)
    ensures
        r is Some <==> 1 <= fsstat.pathlen <= PATHFRAGLEN,
        r matches Some(bytes) ==> bytes@ == stats_record(
            eventf.id.spec_bytes(),
            eventf.monotonic,
            filpop.spec_bytes(),
            eventf.seq,
            unit.spec_bytes(),
            *fsstat,
            eventf.path_prefix@.take(fsstat.pathlen as int),
        ),
{
    let pathlen = fsstat.pathlen as usize;
    if pathlen < 1 || pathlen > PATHFRAGLEN {
        return None;
    }
    let mut buf: Vec<u8> = Vec::new();
    put_begin_map(&mut buf);
    put_text_entry(&mut buf, "id", eventf.id);
    put_uint_entry(&mut buf, "timestamp_monotonic", eventf.monotonic);
    put_text_entry(&mut buf, "opname", filpop);
    put_uint_entry(&mut buf, "sequence", eventf.seq);
    put_text_entry(&mut buf, "unit", unit);
    put_str(&mut buf, "metrics");
    put_metrics(&mut buf, fsstat);
    put_str(&mut buf, "path_prefix");
    put_text_bytes(&mut buf, eventf.path_prefix, pathlen);
    put_end(&mut buf);
    assert(buf@ =~= stats_record(
        eventf.id.spec_bytes(),
        eventf.monotonic,
        filpop.spec_bytes(),
        eventf.seq,
        unit.spec_bytes(),
        *fsstat,
        eventf.path_prefix@.take(fsstat.pathlen as int),
    ));
    Some(buf)
}

} // verus!
