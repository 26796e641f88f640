use ebpf_ldms::{
    assemble_path, clear_stats, encode_stats_record, ringbuf_put, starts_with, try_fslat_exit,
    update_stats, path_walk_step, EntryRec, EventFields, FsLatencyStats, Interval, PathComponent, PathWalkCtx, RecordRing, MAX_PARENT,
    NUM_PATH_PREFIX, PATHCOMPLEN, PATHFRAGLEN,
};

fn path(s: &str) -> [u8; PATHFRAGLEN] {
    let mut p = [0u8; PATHFRAGLEN];
    p[..s.len()].copy_from_slice(s.as_bytes());
    p
}

fn stats(prefix: &str) -> FsLatencyStats {
    FsLatencyStats {
        pathlen: prefix.len() as u32,
        path_prefix: path(prefix),
        min: 0,
        max: 0,
        total_lat: 0,
        total_bytes: 0,
        count: 0,
        lastpublish: 0,
        is_frozen: false,
        active_time: 0,
        intervals: [Interval { start: 0, end: 0 }; 16],
        interval_head: 0,
    }
}

fn component(name: &str) -> PathComponent {
    let mut c = [0u8; PATHCOMPLEN];
    c[..name.len()].copy_from_slice(name.as_bytes());
    PathComponent { len: name.len(), pathcomp: c }
}

#[test]
fn starts_with_compares_the_prefix_length() {
    let hay = path("/global/cfs/cdirs");
    assert!(starts_with(&path("/global/cfs"), &hay, 11));
    assert!(!starts_with(&path("/global/u1"), &hay, 10));
    // Only the first `len` bytes of the needle count.
    assert!(starts_with(&path("/globalXXXX"), &hay, 7));
    // An empty prefix, or one longer than the path buffer, matches nothing.
    assert!(!starts_with(&path("/global"), &hay, 0));
    assert!(!starts_with(&path("/global"), &hay, PATHFRAGLEN + 1));
}

#[test]
fn update_stats_tracks_extremes_totals_and_coverage() {
    let mut s = stats("/pscratch");
    assert_eq!(update_stats(&mut s, 100, 150, 10), 0);
    assert_eq!((s.min, s.max, s.count, s.total_lat, s.total_bytes), (50, 50, 1, 50, 10));
    assert_eq!(s.active_time, 50);
    assert_eq!(s.interval_head, 1);
    assert_eq!(s.intervals[0], Interval { start: 100, end: 150 });
    // Overlapping the first call by 20 ns: only 30 ns of new coverage.
    update_stats(&mut s, 130, 180, 5);
    assert_eq!((s.min, s.max, s.count, s.total_lat, s.total_bytes), (50, 50, 2, 100, 15));
    assert_eq!(s.active_time, 80);
    // A call inside both earlier ones adds no coverage.
    update_stats(&mut s, 135, 140, 0);
    assert_eq!((s.min, s.max, s.count), (5, 50, 3));
    assert_eq!(s.active_time, 80);
    // A long disjoint call.
    update_stats(&mut s, 1000, 1200, 0);
    assert_eq!((s.min, s.max, s.count, s.total_lat), (5, 200, 4, 305));
    assert_eq!(s.active_time, 280);
}

#[test]
fn update_stats_wraps_the_interval_ring() {
    let mut s = stats("/global");
    for i in 0..17u64 {
        update_stats(&mut s, 10 * i + 1, 10 * i + 2, 0);
    }
    assert_eq!(s.interval_head, 1);
    assert_eq!(s.intervals[0], Interval { start: 161, end: 162 });
    assert_eq!(s.count, 17);
    assert_eq!(s.active_time, 17);
}

#[test]
fn clear_stats_starts_a_new_window() {
    let mut s = stats("/global");
    update_stats(&mut s, 1, 11, 3);
    assert_eq!(clear_stats(&mut s, 77), Ok(0));
    assert_eq!((s.lastpublish, s.count, s.total_lat, s.total_bytes), (77, 0, 0, 0));
    assert_eq!((s.min, s.max, s.active_time, s.interval_head), (u64::MAX, 0, 0, 0));
    // The remembered intervals survive the clearing.
    assert_eq!(s.intervals[0], Interval { start: 1, end: 11 });
    // The first sample of the new window sets both extremes.
    update_stats(&mut s, 100, 107, 1);
    assert_eq!((s.min, s.max, s.count), (7, 7, 1));
}

fn decode(bytes: &[u8]) -> ciborium::Value {
    ciborium::de::from_reader(bytes).expect("valid CBOR")
}

fn field<'a>(v: &'a ciborium::Value, key: &str) -> &'a ciborium::Value {
    v.as_map()
        .unwrap()
        .iter()
        .find(|(k, _)| k.as_text() == Some(key))
        .map(|(_, v)| v)
        .unwrap()
}

#[test]
fn encoded_record_decodes_to_its_fields() {
    let mut s = stats("/global/cfs");
    update_stats(&mut s, 1000, 301_000, 4096);
    let prefix = s.path_prefix;
    let eventf = EventFields { id: "fslat/v2", monotonic: 5_000_000_000, seq: 20, path_prefix: &prefix };
    let bytes = encode_stats_record(&eventf, &s, "vfs_read", "ns").unwrap();
    assert_eq!(bytes[0], 0xbf);
    assert_eq!(*bytes.last().unwrap(), 0xff);
    let v = decode(&bytes);
    assert_eq!(field(&v, "id").as_text(), Some("fslat/v2"));
    assert_eq!(field(&v, "opname").as_text(), Some("vfs_read"));
    assert_eq!(field(&v, "unit").as_text(), Some("ns"));
    assert_eq!(field(&v, "path_prefix").as_text(), Some("/global/cfs"));
    assert_eq!(field(&v, "sequence").as_integer(), Some(20.into()));
    assert_eq!(field(&v, "timestamp_monotonic").as_integer(), Some(5_000_000_000u64.into()));
    let m = field(&v, "metrics");
    assert_eq!(field(m, "min_latency").as_integer(), Some(300_000.into()));
    assert_eq!(field(m, "max_latency").as_integer(), Some(300_000.into()));
    assert_eq!(field(m, "total_latency").as_integer(), Some(300_000.into()));
    assert_eq!(field(m, "total_bytes").as_integer(), Some(4096.into()));
    assert_eq!(field(m, "count_samples").as_integer(), Some(1.into()));
    assert_eq!(field(m, "active_time").as_integer(), Some(300_000.into()));
}

#[test]
fn encoded_record_exact_head_bytes() {
    let s = stats("/a");
    let prefix = s.path_prefix;
    let eventf = EventFields { id: "x", monotonic: 24, seq: 0, path_prefix: &prefix };
    let bytes = encode_stats_record(&eventf, &s, "op", "ns").unwrap();
    // map start, "id" (text of 2), "x" (text of 1), "timestamp_monotonic"
    // (text of 19), 24 (one-byte argument).
    assert_eq!(&bytes[..8], &[0xbf, 0x62, b'i', b'd', 0x61, b'x', 0x73, b't']);
    assert_eq!(&bytes[26..28], &[0x18, 24]);
}

#[test]
fn encode_refuses_bad_prefix_length() {
    let mut s = stats("/a");
    s.pathlen = 0;
    let prefix = s.path_prefix;
    let eventf = EventFields { id: "x", monotonic: 0, seq: 0, path_prefix: &prefix };
    assert!(encode_stats_record(&eventf, &s, "op", "ns").is_none());
    s.pathlen = PATHFRAGLEN as u32 + 1;
    assert!(encode_stats_record(&eventf, &s, "op", "ns").is_none());
}

#[test]
fn ringbuf_put_fails_when_full() {
    let s = stats("/a");
    let prefix = s.path_prefix;
    let eventf = EventFields { id: "x", monotonic: 0, seq: 0, path_prefix: &prefix };
    let mut ring = RecordRing::new(1);
    assert_eq!(ringbuf_put(&eventf, &s, "op", "ns", &mut ring), Ok(0));
    assert_eq!(ringbuf_put(&eventf, &s, "op", "ns", &mut ring), Err(1));
    assert_eq!(ring.len(), 1);
    let out = ring.drain();
    assert_eq!(out.len(), 1);
    assert_eq!(ring.len(), 0);
}

fn prefix_table() -> Vec<FsLatencyStats> {
    let mut v = vec![stats("/global/cfs"), stats("/pscratch"), stats("/global")];
    while v.len() < NUM_PATH_PREFIX as usize {
        let mut empty = stats("");
        empty.pathlen = 0;
        v.push(empty);
    }
    v
}

#[test]
fn exit_accounts_matching_prefixes_and_publishes_due_windows() {
    let mut table = prefix_table();
    // /global was published recently; /global/cfs long ago.
    table[2].lastpublish = 1_500_000_000;
    let entry = EntryRec { timestamp: 1_999_000_000, path: path("/global/cfs/cdirs/x") };
    let mut counter = 7u64;
    let mut ring = RecordRing::new(8);
    let r = try_fslat_exit(&mut table, &entry, "vfs_write", 2_000_000_000, 2_000_000_001, 512, &mut counter, &mut ring);
    assert_eq!(r, Ok(0));
    // /global/cfs: published (sequence 7) and cleared.
    assert_eq!(table[0].lastpublish, 2_000_000_000);
    assert_eq!(table[0].count, 0);
    // /pscratch: not matched.
    assert_eq!(table[1].count, 0);
    assert_eq!(table[1].lastpublish, 0);
    // /global: matched, window not over, accumulated.
    assert_eq!(table[2].count, 1);
    assert_eq!(table[2].total_lat, 1_000_000);
    assert_eq!(table[2].total_bytes, 512);
    assert_eq!(counter, 8);
    let out = ring.drain();
    assert_eq!(out.len(), 1);
    let v = decode(&out[0]);
    assert_eq!(field(&v, "sequence").as_integer(), Some(7.into()));
    assert_eq!(field(&v, "path_prefix").as_text(), Some("/global/cfs"));
    assert_eq!(field(&v, "timestamp_monotonic").as_integer(), Some(2_000_000_001u64.into()));
    assert_eq!(field(field(&v, "metrics"), "count_samples").as_integer(), Some(1.into()));
    assert_eq!(field(field(&v, "metrics"), "total_bytes").as_integer(), Some(512.into()));
}

#[test]
fn exit_fails_when_the_ring_is_full() {
    let mut table = prefix_table();
    let entry = EntryRec { timestamp: 1_999_000_000, path: path("/global/cfs/cdirs/x") };
    let mut counter = 0u64;
    let mut ring = RecordRing::new(0);
    let r = try_fslat_exit(&mut table, &entry, "vfs_write", 2_000_000_000, 2_000_000_000, 0, &mut counter, &mut ring);
    assert_eq!(r, Err(1));
    // The first prefix got the sample but was not cleared; later ones were
    // not reached.
    assert_eq!(table[0].count, 1);
    assert_eq!(table[0].lastpublish, 0);
    assert_eq!(table[2].count, 0);
    assert_eq!(counter, 0);
}

fn fragment(buf: &[u8], len: i32) -> String {
    String::from_utf8(buf[..len as usize].to_vec()).unwrap()
}

#[test]
fn assemble_path_from_the_root() {
    // The walk filled slots 0..3 from the file towards the root:
    // "x", "cdirs", "cfs", "global"; the next slot would be 0 again.
    let comps = vec![component("x"), component("cdirs"), component("cfs"), component("global")];
    let mut buf = vec![0u8; PATHFRAGLEN];
    let len = assemble_path(&comps, 0, 4, true, &mut buf);
    assert_eq!(fragment(&buf, len), "/global/cfs/cdirs/x");
}

#[test]
fn assemble_path_keeps_the_components_nearest_the_root() {
    // Six components walked; the ring kept the last four written, the one
    // nearest the root in slot 1.
    let comps = vec![component("cfs"), component("global"), component("f"), component("d")];
    let mut buf = vec![0u8; PATHFRAGLEN];
    let len = assemble_path(&comps, 2, 6, true, &mut buf);
    assert_eq!(fragment(&buf, len), "/global/cfs/d/f");
}

#[test]
fn assemble_path_relative_and_truncated() {
    let comps = vec![
        component("aaaaaaaaaaaaaaaaaaaa"),
        component("bbbbbbbbbbbbbbbbbbbb"),
        component("x"),
        component("y"),
    ];
    let mut buf = vec![b'.'; PATHFRAGLEN];
    // Two components, not absolute: slot 1 then slot 0.
    let len = assemble_path(&comps, 2, 2, false, &mut buf);
    assert_eq!(len as usize, PATHFRAGLEN);
    assert_eq!(fragment(&buf, len), "bbbbbbbbbbbbbbbbbbbb/aaaaaaaaaaa");
}

fn view(parent: u64, vfsmount: u64, mnt_root: u64, mnt_parent: u64, mnt_mountpoint: u64, name: &str) -> ebpf_ldms::DentryView {
    ebpf_ldms::DentryView { parent, vfsmount, mnt_root, mnt_parent, mnt_mountpoint, name: component(name) }
}

#[test]
fn path_walk_records_names_crosses_mounts_and_stops_at_root() {
    // /global/cfs/x: "x" (10) in "cfs" (11), the root of a mount (mount 200,
    // vfsmount 201) mounted on "cfs" (12) in "global" (13) in "/" (1) of
    // the root mount (100, vfsmount 101).
    let mut ctx = PathWalkCtx {
        dentry: 10,
        mnt: 200,
        loop_ctr: 0,
        mod_ctr: 0,
        root_dentry: 1,
        root_vfsmount: 101,
        is_absolute: false,
    };
    let mut comps = vec![component(""); 4];
    assert_eq!(path_walk_step(&mut ctx, &view(11, 201, 11, 100, 12, "x"), &mut comps), 0);
    assert_eq!((ctx.dentry, ctx.loop_ctr, ctx.mod_ctr), (11, 1, 1));
    // At the mount's root: cross to the mount point, record nothing.
    assert_eq!(path_walk_step(&mut ctx, &view(11, 201, 11, 100, 12, "/"), &mut comps), 0);
    assert_eq!((ctx.dentry, ctx.mnt, ctx.loop_ctr), (12, 100, 1));
    assert_eq!(path_walk_step(&mut ctx, &view(13, 101, 1, 100, 1, "cfs"), &mut comps), 0);
    assert_eq!(path_walk_step(&mut ctx, &view(1, 101, 1, 100, 1, "global"), &mut comps), 0);
    // The process root: the path is absolute.
    assert_eq!(path_walk_step(&mut ctx, &view(1, 101, 1, 100, 1, "/"), &mut comps), 1);
    assert!(ctx.is_absolute);
    assert_eq!((ctx.loop_ctr, ctx.mod_ctr), (3, 3));
    let mut buf = vec![0u8; PATHFRAGLEN];
    let len = assemble_path(&comps, ctx.mod_ctr, ctx.loop_ctr, ctx.is_absolute, &mut buf);
    assert_eq!(fragment(&buf, len), "/global/cfs/x");
}

#[test]
fn path_walk_stops_after_max_parent_names() {
    let mut ctx = PathWalkCtx {
        dentry: 1000,
        mnt: 7,
        loop_ctr: MAX_PARENT,
        mod_ctr: 2,
        root_dentry: 1,
        root_vfsmount: 8,
        is_absolute: false,
    };
    let mut comps = vec![component(""); 4];
    assert_eq!(path_walk_step(&mut ctx, &view(999, 8, 5, 7, 5, "d"), &mut comps), 1);
    assert_eq!((ctx.loop_ctr, ctx.mod_ctr, ctx.dentry), (MAX_PARENT + 1, 3, 999));
    assert!(!ctx.is_absolute);
    assert_eq!(comps[2].len, 1);
}

#[test]
fn assemble_pathfrag_one_step() {
    let comps = vec![component("a"), component("bc"), component("d"), component("e")];
    let mut buf = vec![0u8; PATHFRAGLEN];
    let mut ctx = ebpf_ldms::AssembleCtx { start: 1, copied: 3, num_components: 2, is_absolute: false };
    // Index 0 takes slot 1 ("bc") and, not being the last, a separator.
    assert_eq!(ebpf_ldms::assemble_pathfrag(0, &mut ctx, &comps, &mut buf), 0);
    assert_eq!(ctx.copied, 6);
    assert_eq!(&buf[3..6], b"bc/");
    // Index 1 takes slot 0 ("a"), the last one.
    assert_eq!(ebpf_ldms::assemble_pathfrag(1, &mut ctx, &comps, &mut buf), 0);
    assert_eq!(ctx.copied, 7);
    assert_eq!(buf[6], b'a');
    // Past the end of the buffer the assembly stops.
    ctx.copied = PATHFRAGLEN as u32 + 1;
    assert_eq!(ebpf_ldms::assemble_pathfrag(0, &mut ctx, &comps, &mut buf), 1);
}

#[test]
fn record_ring_keeps_order_and_bound() {
    let mut ring = RecordRing::new(2);
    assert!(ring.has_room());
    assert!(ring.push(vec![1]));
    assert!(ring.push(vec![2, 3]));
    assert!(!ring.push(vec![4]));
    assert_eq!(ring.drain(), vec![vec![1], vec![2, 3]]);
    assert!(ring.push(vec![5]));
    assert_eq!(ring.len(), 1);
}

#[test]
fn window_extremes_after_clearing() {
    let mut s = stats("/global");
    update_stats(&mut s, 1, 1001, 0);
    clear_stats(&mut s, 5000);
    for (start, end) in [(6000u64, 6005u64), (6100, 6102), (6200, 6209), (6300, 6304)] {
        update_stats(&mut s, start, end, 0);
        assert!(s.active_time <= s.total_lat);
    }
    assert_eq!((s.min, s.max, s.count, s.total_lat), (2, 9, 4, 20));
}

#[test]
fn active_time_stays_within_total_latency() {
    let mut s = stats("/global");
    for (start, end) in [(10u64, 50u64), (20, 60), (30, 40), (55, 58), (100, 100)] {
        update_stats(&mut s, start, end, 0);
        assert!(s.active_time <= s.total_lat);
    }
    assert_eq!((s.active_time, s.total_lat), (50, 93));
}

#[test]
fn exit_records_of_consecutive_calls_are_numbered_consecutively() {
    let mut table = prefix_table();
    let mut counter = 41u64;
    let mut ring = RecordRing::new(8);
    let entry = EntryRec { timestamp: 1_999_000_000, path: path("/global/cfs/x") };
    // Both /global/cfs and /global are due: two records.
    assert_eq!(try_fslat_exit(&mut table, &entry, "vfs_read", 2_000_000_000, 2_000_000_000, 1, &mut counter, &mut ring), Ok(0));
    let first = ring.drain();
    // Two seconds later the windows are due again.
    let entry = EntryRec { timestamp: 3_999_000_000, path: path("/global/cfs/y") };
    assert_eq!(try_fslat_exit(&mut table, &entry, "vfs_read", 4_000_000_000, 4_000_000_000, 1, &mut counter, &mut ring), Ok(0));
    let second = ring.drain();
    let seqs: Vec<_> = first
        .iter()
        .chain(second.iter())
        .map(|r| field(&decode(r), "sequence").as_integer().unwrap())
        .collect();
    assert_eq!(seqs, vec![41.into(), 42.into(), 43.into(), 44.into()]);
    assert_eq!(counter, 45);
}

/// The kernel's view of the entries of /global/cfs/x, where "cfs" is the
/// root of a mount (see the walk test above).
fn kernel_view(dentry: u64, mnt: u64) -> ebpf_ldms::DentryView {
    match (dentry, mnt) {
        (10, 200) => view(11, 201, 11, 100, 12, "x"),
        (11, 200) => view(11, 201, 11, 100, 12, "/"),
        (12, 100) => view(13, 101, 1, 100, 1, "cfs"),
        (13, 100) => view(1, 101, 1, 100, 1, "global"),
        _ => view(1, 101, 1, 100, 1, "/"),
    }
}

fn walk_start() -> PathWalkCtx {
    PathWalkCtx { dentry: 10, mnt: 200, loop_ctr: 0, mod_ctr: 0, root_dentry: 1, root_vfsmount: 101, is_absolute: false }
}

#[test]
fn partial_d_path_walks_then_assembles() {
    let mut comps = vec![component(""); 4];
    let mut buf = vec![0u8; PATHFRAGLEN];
    let len = ebpf_ldms::partial_d_path(walk_start(), 64, &kernel_view, &mut comps, &mut buf);
    assert_eq!(fragment(&buf, len), "/global/cfs/x");
}

#[test]
fn partial_d_path_stops_after_max_steps() {
    let mut comps = vec![component(""); 4];
    let mut buf = vec![0u8; PATHFRAGLEN];
    // Two steps: "x" is recorded and the mount crossed; the root is not
    // reached, so the fragment is relative.
    let len = ebpf_ldms::partial_d_path(walk_start(), 2, &kernel_view, &mut comps, &mut buf);
    assert_eq!(fragment(&buf, len), "x");
}

#[test]
fn window_minimum_keeps_a_zero_latency() {
    let mut s = stats("/global");
    clear_stats(&mut s, 10);
    update_stats(&mut s, 20, 20, 0);
    update_stats(&mut s, 30, 35, 0);
    assert_eq!((s.min, s.max, s.count), (0, 5, 2));
}

#[test]
fn try_fslat_entry_records_the_path_fragment() {
    let mut comps = vec![component(""); 4];
    let mut pathbuf = vec![0u8; PATHFRAGLEN];
    let rec = ebpf_ldms::try_fslat_entry(123, walk_start(), 64, &kernel_view, &mut comps, &mut pathbuf).unwrap();
    assert_eq!(rec.timestamp, 123);
    assert_eq!(&rec.path[..13], b"/global/cfs/x");
    assert_eq!(rec.path.to_vec(), pathbuf);
}

#[test]
fn try_fslat_entry_needs_a_scratch_buffer() {
    let mut comps = vec![component(""); 4];
    let mut pathbuf = Vec::new();
    assert!(ebpf_ldms::try_fslat_entry(1, walk_start(), 64, &kernel_view, &mut comps, &mut pathbuf).is_err());
    assert!(pathbuf.is_empty());
}
