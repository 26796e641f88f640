//! Assembling the leading fragment of a file's path from its components.
//!
//! Walking from a file towards the root stores each component's name into a
//! ring of `NUM_COMP` slots, so the last slot written holds the component
//! closest to the root.  The fragment is assembled from that slot backwards,
//! into a buffer of `PATHFRAGLEN` bytes, components separated by `/` and
//! preceded by `/` when the walk reached the root.

use vstd::prelude::*;

use crate::fslat::{EntryRec, PathComponent, NUM_COMP, PATHFRAGLEN};

verus! {

/// Where the assembly stands: the buffer, how many bytes of it hold the
/// fragment, and whether it stopped early.
pub struct AssembleState {
    pub buf: Seq<u8>,
    pub copied: int,
    pub stopped: bool,
}

/// Progress of one assembly, as the loop callback sees it.
pub struct AssembleCtx {
    /// Ring slot of the component closest to the root.
    pub start: u32,
    /// Bytes of the fragment written so far.
    pub copied: u32,
    /// Number of components to assemble.
    pub num_components: u32,
    /// Whether the walk reached the root, so that the fragment starts with `/`.
    pub is_absolute: bool,
}

/// Largest number of components the walk towards the root steps over.
pub const MAX_PARENT: u32 = 64;

/// Where a walk from a file towards the root stands.  Kernel objects are
/// named by their addresses.
#[derive(Clone, Copy, PartialEq, Eq, Debug)]
pub struct PathWalkCtx {
    /// The directory entry reached.
    pub dentry: u64,
    /// The mount that the entry belongs to.
    pub mnt: u64,
    /// Components recorded so far.
    pub loop_ctr: u32,
    /// Ring slot that the next component goes to.
    pub mod_ctr: u32,
    /// The process's root directory entry.
    pub root_dentry: u64,
    /// The process's root mount.
    pub root_vfsmount: u64,
    /// Whether the walk reached the root.
    pub is_absolute: bool,
}

/// What the kernel holds about the walk's current entry and mount.
#[derive(Clone, Copy)]
pub struct DentryView {
    /// The entry's parent.
    pub parent: u64,
    /// The mount's embedded `vfsmount`.
    pub vfsmount: u64,
    /// The root entry of the mount.
    pub mnt_root: u64,
    /// The mount's parent mount.
    pub mnt_parent: u64,
    /// The entry the mount is mounted on.
    pub mnt_mountpoint: u64,
    /// The entry's name.
    pub name: PathComponent,
}

/// What one step of the walk does.
pub enum WalkMove {
    /// The walk is over.
    Stop,
    /// Cross from the root of a mount to the entry it is mounted on.
    CrossMount,
    /// Record the entry's name and go to its parent.
    Record,
}

/// The move the walk makes from `ctx`, seeing `view`.
pub open spec fn walk_move(ctx: PathWalkCtx, view: DentryView) -> WalkMove {
    if ctx.dentry == ctx.root_dentry && view.vfsmount == ctx.root_vfsmount {
        WalkMove::Stop
    } else if ctx.dentry == view.mnt_root && ctx.mnt != view.mnt_parent {
        WalkMove::CrossMount
    } else if ctx.dentry == view.parent {
        WalkMove::Stop
    } else {
        WalkMove::Record
    }
}

/// Take one step of the walk towards the root, seeing `view` of the current
/// entry, and record names into the ring `comps`.
///
/// The walk stops at the process's root directory and at an entry that is its
/// own parent, both of which make the path absolute; it crosses from the root
/// of a mount to the entry the mount is mounted on; otherwise it records the
/// entry's name in the next ring slot and goes to the parent, stopping once
/// more than `MAX_PARENT` names were recorded.  Returns 1 when the walk stops.
pub fn path_walk_step(ctx: &mut PathWalkCtx, view: &DentryView, comps: &mut Vec<PathComponent>) -> (r: u64)
    requires
        old(comps)@.len() == NUM_COMP,
        old(ctx).mod_ctr < NUM_COMP,
        old(ctx).loop_ctr <= MAX_PARENT,
    ensures
        final(comps)@.len() == NUM_COMP,
        final(ctx).root_dentry == old(ctx).root_dentry,
        final(ctx).root_vfsmount == old(ctx).root_vfsmount,
        final(ctx).mod_ctr < NUM_COMP,
        final(ctx).loop_ctr <= MAX_PARENT + 1,
        match walk_move(*old(ctx), *view) {
            WalkMove::Stop => {
                &&& r == 1
                &&& *final(ctx) == PathWalkCtx { is_absolute: true, ..*old(ctx) }
                &&& final(comps)@ == old(comps)@
            },
            WalkMove::CrossMount => {
                &&& r == 0
                &&& *final(ctx) == PathWalkCtx { dentry: view.mnt_mountpoint, mnt: view.mnt_parent, ..*old(ctx) }
                &&& final(comps)@ == old(comps)@
            },
            WalkMove::Record => {
                &&& final(comps)@ == old(comps)@.update(old(ctx).mod_ctr as int, view.name)
                &&& *final(ctx) == PathWalkCtx {
                    dentry: view.parent,
                    loop_ctr: (old(ctx).loop_ctr + 1) as u32,
                    mod_ctr: ((old(ctx).mod_ctr + 1) % (NUM_COMP as int)) as u32,
                    ..*old(ctx)
                }
                &&& r == (if old(ctx).loop_ctr + 1 > MAX_PARENT { 1u64 } else { 0u64 })
            },
        },
{
    if ctx.dentry == ctx.root_dentry && view.vfsmount == ctx.root_vfsmount {
        // The process root directory is reached.
        ctx.is_absolute = true;
        return 1;
    }
    if ctx.dentry == view.mnt_root && ctx.mnt != view.mnt_parent {
        // Cross to the mount point of this mount.
        ctx.dentry = view.mnt_mountpoint;
        ctx.mnt = view.mnt_parent;
        return 0;
    }
    if ctx.dentry == view.parent {
        ctx.is_absolute = true;
        return 1;
    }
    comps.set(ctx.mod_ctr as usize, view.name);
    ctx.dentry = view.parent;
    ctx.loop_ctr = ctx.loop_ctr + 1;
    ctx.mod_ctr = (ctx.mod_ctr + 1) % NUM_COMP;
    if ctx.loop_ctr > MAX_PARENT {
        return 1;
    }
    0
}

/// Where a walk stands after some steps: its context, the ring of names, and
/// whether the last step ended the walk.
pub struct WalkState {
    pub ctx: PathWalkCtx,
    pub comps: Seq<PathComponent>,
    pub stopped: bool,
}

/// One step of the walk from `ctx` with the ring `comps`, seeing `view`, as
/// [`path_walk_step`] takes it.
pub open spec fn walk_step(ctx: PathWalkCtx, comps: Seq<PathComponent>, view: DentryView) -> WalkState {
    match walk_move(ctx, view) {
        WalkMove::Stop => WalkState { ctx: PathWalkCtx { is_absolute: true, ..ctx }, comps, stopped: true },
        WalkMove::CrossMount => WalkState {
            ctx: PathWalkCtx { dentry: view.mnt_mountpoint, mnt: view.mnt_parent, ..ctx },
            comps,
            stopped: false,
        },
        WalkMove::Record => WalkState {
            ctx: PathWalkCtx {
                dentry: view.parent,
                loop_ctr: (ctx.loop_ctr + 1) as u32,
                mod_ctr: ((ctx.mod_ctr + 1) % (NUM_COMP as int)) as u32,
                ..ctx
            },
            comps: comps.update(ctx.mod_ctr as int, view.name),
            stopped: ctx.loop_ctr + 1 > MAX_PARENT,
        },
    }
}

/// The walk from `ctx` with the ring `comps` after seeing `views` in turn.
pub open spec fn walk_seen(ctx: PathWalkCtx, comps: Seq<PathComponent>, views: Seq<DentryView>) -> WalkState
    decreases views.len(),
{
    if views.len() == 0 {
        WalkState { ctx, comps, stopped: false }
    } else {
        let prev = walk_seen(ctx, comps, views.drop_last());
        walk_step(prev.ctx, prev.comps, views.last())
    }
}

/// `views` is what a walk from `ctx` with the ring `comps` saw, reading each
/// entry with `read_view`: every view is a possible reading of the entry and
/// mount reached before it, and no step but the last ended the walk.
pub open spec fn walk_reads<F: Fn(u64, u64) -> DentryView>(
    read_view: F,
    ctx: PathWalkCtx,
    comps: Seq<PathComponent>,
    views: Seq<DentryView>,
) -> bool {
    forall|j: int|
        0 <= j < views.len() ==> {
            let p = #[trigger] walk_seen(ctx, comps, views.take(j));
            &&& !p.stopped
            &&& call_ensures(read_view, (p.ctx.dentry, p.ctx.mnt), views[j])
        }
}

/// A walk from `ctx` with the ring `comps0`, taking at most `max_steps` steps
/// and reading each entry with `read_view`, left the ring `comps1`, and the
/// assembly of its fragment turned the buffer `buf0` into `buf1`, `len`
/// bytes long.
pub open spec fn d_path_outcome<F: Fn(u64, u64) -> DentryView>(
    read_view: F,
    ctx: PathWalkCtx,
    max_steps: u32,
    comps0: Seq<PathComponent>,
    comps1: Seq<PathComponent>,
    buf0: Seq<u8>,
    buf1: Seq<u8>,
    len: int,
) -> bool {
    exists|views: Seq<DentryView>|
        {
            let w = #[trigger] walk_seen(ctx, comps0, views);
            let st = assembled(buf0, w.comps, w.ctx.mod_ctr, w.ctx.loop_ctr, w.ctx.is_absolute);
            &&& views.len() <= max_steps
            &&& walk_reads(read_view, ctx, comps0, views)
            &&& views.len() < max_steps ==> w.stopped
            &&& comps1 == w.comps
            &&& buf1 == st.buf
            &&& len == st.copied
        }
}

/// Walk from the entry and mount of `ctx` towards the root, taking at most
/// `max_steps` steps and reading what the kernel holds about each entry with
/// `read_view`, then assemble the leading fragment of the path into `buf`.
///
/// The names met are recorded in the ring `comps`.  Returns the fragment's
/// length in bytes.
pub fn partial_d_path<F: Fn(u64, u64) -> DentryView>(
    ctx: PathWalkCtx,
    max_steps: u32,
    read_view: &F,
    comps: &mut Vec<PathComponent>,
    buf: &mut Vec<u8>,
) -> (r: i32)
    requires
        old(comps)@.len() == NUM_COMP,
        old(buf)@.len() == PATHFRAGLEN,
        ctx.mod_ctr < NUM_COMP,
        ctx.loop_ctr <= MAX_PARENT,
        forall|d: u64, m: u64| call_requires(*read_view, (d, m)),
    ensures
        d_path_outcome(*read_view, ctx, max_steps, old(comps)@, final(comps)@, old(buf)@, final(buf)@, r as int),
        final(comps)@.len() == NUM_COMP,
        final(buf)@.len() == PATHFRAGLEN,
{
    let ghost init_comps = comps@;
    let ghost mut views: Seq<DentryView> = Seq::empty();
    let mut walk = ctx;
    let mut done = false;
    let mut steps: u32 = 0;
    while steps < max_steps && !done
        invariant
            steps <= max_steps,
            views.len() == steps,
            comps@.len() == NUM_COMP,
            forall|d: u64, m: u64| call_requires(*read_view, (d, m)),
            walk_seen(ctx, init_comps, views).ctx == walk,
            walk_seen(ctx, init_comps, views).comps == comps@,
            walk_seen(ctx, init_comps, views).stopped == done,
            walk_reads(*read_view, ctx, init_comps, views),
            walk.mod_ctr < NUM_COMP,
            !done ==> walk.loop_ctr <= MAX_PARENT,
        decreases max_steps - steps,
    {
        let view = read_view(walk.dentry, walk.mnt);
        let ghost before = walk_seen(ctx, init_comps, views);
        let stop = path_walk_step(&mut walk, &view, comps);
        proof {
            let next = views.push(view);
            assert(next.drop_last() =~= views);
            assert(next.take(views.len() as int) =~= views);
            assert forall|j: int| 0 <= j < next.len() implies {
                let p = #[trigger] walk_seen(ctx, init_comps, next.take(j));
                &&& !p.stopped
                &&& call_ensures(*read_view, (p.ctx.dentry, p.ctx.mnt), next[j])
            } by {
                if j < views.len() {
                    assert(next.take(j) =~= views.take(j));
                    assert(walk_seen(ctx, init_comps, views.take(j)) == walk_seen(ctx, init_comps, next.take(j)));
                }
            }
            views = next;
        }
        done = stop == 1;
        steps = steps + 1;
    }
    let r = assemble_path(comps.as_slice(), walk.mod_ctr, walk.loop_ctr, walk.is_absolute, buf);
    assert(walk_seen(ctx, init_comps, views).comps == comps@);
    r
}

/// Start tracing a call at `now` on the file reached from `ctx`: walk its path
/// and assemble the leading fragment into the scratch buffer `pathbuf`, as
/// [`partial_d_path`] does, and give the record to keep for the calling
/// thread until the call returns.
///
/// Returns `Err(1)`, touching nothing, when `pathbuf` is not a scratch buffer
/// of `PATHFRAGLEN` bytes.
pub fn try_fslat_entry<F: Fn(u64, u64) -> DentryView>(
    now: u64,
    ctx: PathWalkCtx,
    max_steps: u32,
    read_view: &F,
    comps: &mut Vec<PathComponent>,
    pathbuf: &mut Vec<u8>,
) -> (r: Result<EntryRec, u32>)
    requires
        old(comps)@.len() == NUM_COMP,
        ctx.mod_ctr < NUM_COMP,
        ctx.loop_ctr <= MAX_PARENT,
        forall|d: u64, m: u64| call_requires(*read_view, (d, m)),
    ensures
        r is Err <==> old(pathbuf)@.len() != PATHFRAGLEN,
        r is Err ==> r == Err::<EntryRec, u32>(1) && final(pathbuf)@ == old(pathbuf)@ && final(comps)@ == old(comps)@,
        r matches Ok(rec) ==> {
            &&& rec.timestamp == now
            &&& rec.path@ == final(pathbuf)@
            &&& exists|len: int| d_path_outcome(*read_view, ctx, max_steps, old(comps)@, final(comps)@, old(pathbuf)@, final(pathbuf)@, len)
        },
{
    if pathbuf.len() != PATHFRAGLEN {
        return Err(1);
    }
    let len = partial_d_path(ctx, max_steps, read_view, comps, pathbuf);
    let mut path = [0u8; PATHFRAGLEN];
    for i in 0..PATHFRAGLEN
        invariant
            pathbuf@.len() == PATHFRAGLEN,
            forall|j: int| 0 <= j < i ==> path@[j] == pathbuf@[j],
    {
        path[i] = pathbuf[i];
    }
    assert(path@ =~= pathbuf@);
    Ok(EntryRec { timestamp: now, path })
}

/// The ring slot of the next name always follows the number of names
/// recorded: a walk started at slot 0 keeps `mod_ctr == loop_ctr % NUM_COMP`.
pub proof fn lemma_walk_slot_follows_count(ctx: PathWalkCtx, view: DentryView)
    requires
        ctx.mod_ctr == ctx.loop_ctr % NUM_COMP,
    ensures
        ({
            let next = match walk_move(ctx, view) {
                WalkMove::Record => PathWalkCtx {
                    dentry: view.parent,
                    loop_ctr: (ctx.loop_ctr + 1) as u32,
                    mod_ctr: ((ctx.mod_ctr + 1) % (NUM_COMP as int)) as u32,
                    ..ctx
                },
                _ => ctx,
            };
            ctx.loop_ctr < u32::MAX ==> next.mod_ctr == next.loop_ctr % NUM_COMP
        }),
{
}

/// Ring slot of the `index`-th component to assemble, counting back from `start`.
pub open spec fn comp_slot(start: u32, index: int) -> int {
    (start - index) % (NUM_COMP as int)
}

/// `buf` with `src` written at offset `at`.
pub open spec fn write_at(buf: Seq<u8>, at: int, src: Seq<u8>) -> Seq<u8> {
    Seq::new(buf.len(), |i: int| if at <= i < at + src.len() { src[i - at] } else { buf[i] })
}

/// Length of a component once clamped to the fragment length.
pub open spec fn clamped_len(c: PathComponent) -> int {
    if c.len > PATHFRAGLEN { PATHFRAGLEN as int } else { c.len as int }
}

/// The state after appending the `index`-th component.
///
/// A component is copied as far as the fragment has room; every component but
/// the last is followed by `/`, written right after the component's full
/// (clamped) length when that still lies within the buffer, while the count
/// of copied bytes grows by one in any case.  Once the count exceeds the
/// buffer the assembly stops.
pub open spec fn assemble_step(st: AssembleState, comps: Seq<PathComponent>, start: u32, index: int, num_components: u32) -> AssembleState {
    if st.copied > PATHFRAGLEN {
        AssembleState { stopped: true, ..st }
    } else {
        let c = comps[comp_slot(start, index)];
        let len = clamped_len(c);
        let room = PATHFRAGLEN - st.copied;
        let n = if room < len { room } else { len };
        let buf1 = write_at(st.buf, st.copied, c.pathcomp@.take(n));
        if index < num_components - 1 {
            let buf2 = if st.copied + len + 1 <= PATHFRAGLEN {
                buf1.update(st.copied + len, 0x2fu8)
            } else {
                buf1
            };
            AssembleState { buf: buf2, copied: st.copied + n + 1, stopped: false }
        } else {
            AssembleState { buf: buf1, copied: st.copied + n, stopped: false }
        }
    }
}

/// The state after the first `k` steps, starting from `init`.
pub open spec fn assemble_steps(init: AssembleState, comps: Seq<PathComponent>, start: u32, num_components: u32, k: int) -> AssembleState
    decreases k,
{
    if k <= 0 {
        init
    } else {
        let prev = assemble_steps(init, comps, start, num_components, k - 1);
        if prev.stopped {
            prev
        } else {
            assemble_step(prev, comps, start, k - 1, num_components)
        }
    }
}

/// The state before the first component: a leading `/` for an absolute path.
pub open spec fn assemble_init(buf: Seq<u8>, is_absolute: bool) -> AssembleState {
    if is_absolute {
        AssembleState { buf: buf.update(0, 0x2fu8), copied: 1, stopped: false }
    } else {
        AssembleState { buf, copied: 0, stopped: false }
    }
}

/// Slot of the component closest to the root, given the next slot that the
/// walk would have filled.
pub open spec fn last_slot(next_slot: u32) -> u32 {
    ((next_slot + NUM_COMP - 1) % (NUM_COMP as int)) as u32
}

/// Number of components assembled after a walk over `walked` components.
pub open spec fn components_kept(walked: u32) -> u32 {
    if walked < NUM_COMP { walked } else { NUM_COMP }
}

/// The whole assembly: its buffer and its length in bytes.
pub open spec fn assembled(buf: Seq<u8>, comps: Seq<PathComponent>, next_slot: u32, walked: u32, is_absolute: bool) -> AssembleState {
    let num = components_kept(walked);
    assemble_steps(assemble_init(buf, is_absolute), comps, last_slot(next_slot), num, num as int)
}

/// Append the `index`-th component to the fragment in `buf`.
///
/// Returns 1 when the assembly has to stop, 0 otherwise.
pub fn assemble_pathfrag(index: u32, ctx: &mut AssembleCtx, comps: &[PathComponent], buf: &mut Vec<u8>) -> (r: u64)
    requires
        comps@.len() == NUM_COMP,
        old(buf)@.len() == PATHFRAGLEN,
        old(ctx).start < NUM_COMP,
        old(ctx).num_components >= 1,
    ensures
        ({
            let st = assemble_step(
                AssembleState { buf: old(buf)@, copied: old(ctx).copied as int, stopped: false },
                comps@,
                old(ctx).start,
                index as int,
                old(ctx).num_components,
            );
            &&& r == (if st.stopped { 1u64 } else { 0u64 })
            &&& final(buf)@ == st.buf
            &&& final(ctx).copied == st.copied
            &&& final(ctx).start == old(ctx).start
            &&& final(ctx).num_components == old(ctx).num_components
            &&& final(ctx).is_absolute == old(ctx).is_absolute
        }),
        final(buf)@.len() == PATHFRAGLEN,
{
    let copied = ctx.copied;
    if copied > PATHFRAGLEN as u32 {
        return 1;
    }
    let idx = ((ctx.start as u64 + NUM_COMP as u64 - (index % NUM_COMP) as u64) % NUM_COMP as u64) as usize;
    proof {
        lemma_ring_back(ctx.start as int, index as int);
    }
    let comp = &comps[idx];
    let len: u32 = if comp.len > PATHFRAGLEN { PATHFRAGLEN as u32 } else { comp.len as u32 };
    let remaining: u32 = PATHFRAGLEN as u32 - copied;
    let n: u32 = if remaining < len { remaining } else { len };

    let ghost before = buf@;
    let ghost src = comp.pathcomp@.take(n as int);
    for j in 0..n as usize
        invariant
            copied + n <= PATHFRAGLEN,
            n <= 32,
            buf@.len() == PATHFRAGLEN,
            src == comp.pathcomp@.take(n as int),
            forall|i: int| 0 <= i < PATHFRAGLEN ==> #[trigger] buf@[i] == (
                if copied <= i < copied + j { src[i - copied] } else { before[i] }
            ),
    {
        buf.set(copied as usize + j, comp.pathcomp[j]);
    }
    assert(buf@ =~= write_at(before, copied as int, src));

    if index < ctx.num_components - 1 {
        if copied + len + 1 <= PATHFRAGLEN as u32 {
            buf.set((copied + len) as usize, 0x2f);
        }
        ctx.copied = copied + n + 1;
    } else {
        ctx.copied = copied + n;
    }
    0
}

/// Assemble the leading fragment of a path into `buf` once the walk towards
/// the root is done.
///
/// `comps` is the ring of component names, `next_slot` the slot that the walk
/// would have filled next, `walked` the number of components it stepped over
/// and `is_absolute` whether it reached the root.  Returns the fragment's
/// length in bytes.
pub fn assemble_path(comps: &[PathComponent], next_slot: u32, walked: u32, is_absolute: bool, buf: &mut Vec<u8>) -> (r: i32)
    requires
        comps@.len() == NUM_COMP,
        old(buf)@.len() == PATHFRAGLEN,
        next_slot < NUM_COMP,
    ensures
        ({
            let st = assembled(old(buf)@, comps@, next_slot, walked, is_absolute);
            &&& final(buf)@ == st.buf
            &&& r == st.copied
        }),
        0 <= r <= PATHFRAGLEN + 1,
        final(buf)@.len() == PATHFRAGLEN,
{
    let num_components = if walked < NUM_COMP { walked } else { NUM_COMP };
    let mut ctx = AssembleCtx {
        start: (next_slot + NUM_COMP - 1) % NUM_COMP,
        copied: 0,
        num_components,
        is_absolute,
    };
    if ctx.is_absolute {
        buf.set(0, 0x2f);
        ctx.copied = 1;
    }
    let ghost init = assemble_init(old(buf)@, is_absolute);
    assert(buf@ =~= init.buf);
    let mut index: u32 = 0;
    while index < num_components
        invariant
            comps@.len() == NUM_COMP,
            buf@.len() == PATHFRAGLEN,
            ctx.start == last_slot(next_slot),
            ctx.start < NUM_COMP,
            ctx.num_components == num_components,
            num_components == components_kept(walked),
            index <= num_components,
            ({
                let st = assemble_steps(init, comps@, ctx.start, num_components, index as int);
                &&& !st.stopped
                &&& buf@ == st.buf
                &&& ctx.copied == st.copied
                &&& 0 <= st.copied <= PATHFRAGLEN + 1
            }),
        ensures
            ({
                let st = assemble_steps(init, comps@, ctx.start, num_components, num_components as int);
                &&& buf@ == st.buf
                &&& ctx.copied == st.copied
                &&& 0 <= st.copied <= PATHFRAGLEN + 1
            }),
        decreases num_components - index,
    {
        let stop = assemble_pathfrag(index, &mut ctx, comps, buf);
        if stop == 1 {
            proof {
                lemma_steps_stay_stopped(init, comps@, ctx.start, num_components, index as int + 1, num_components as int);
            }
            break;
        }
        index = index + 1;
    }
    ctx.copied as i32
}

/// Counting `b` slots back from `a` on a ring of `NUM_COMP` slots.
proof fn lemma_ring_back(a: int, b: int)
    requires
        0 <= a < NUM_COMP,
        b >= 0,
    ensures
        (a + NUM_COMP - b % (NUM_COMP as int)) % (NUM_COMP as int) == (a - b) % (NUM_COMP as int),
{
    let n = NUM_COMP as int;
    let q = b / n;
    let r = b % n;
    assert(b == n * q + r) by (nonlinear_arith)
        requires
            n == 4,
            q == b / n,
            r == b % n;
    vstd::arithmetic::div_mod::lemma_mod_multiples_vanish(-(q + 1), a + n - r, n);
    assert(a - b == n * (-(q + 1)) + (a + n - r)) by (nonlinear_arith)
        requires
            b == n * q + r;
}

/// Steps never touch the bytes before the fragment's current length, keep the
/// buffer's length and never shrink the fragment.
proof fn lemma_steps_keep_prefix(init: AssembleState, comps: Seq<PathComponent>, start: u32, num: u32, k: int)
    requires
        comps.len() == NUM_COMP,
        start < NUM_COMP,
        init.buf.len() == PATHFRAGLEN,
        init.copied >= 0,
    ensures
        ({
            let st = assemble_steps(init, comps, start, num, k);
            &&& st.buf.len() == PATHFRAGLEN
            &&& st.copied >= init.copied
            &&& forall|i: int| 0 <= i < init.copied && i < PATHFRAGLEN ==> st.buf[i] == init.buf[i]
        }),
    decreases k,
{
    if k > 0 {
        lemma_steps_keep_prefix(init, comps, start, num, k - 1);
    }
}

/// A fragment assembled after the walk reached the root starts with `/`.
pub proof fn lemma_absolute_fragment_starts_with_slash(buf: Seq<u8>, comps: Seq<PathComponent>, next_slot: u32, walked: u32)
    requires
        comps.len() == NUM_COMP,
        next_slot < NUM_COMP,
        buf.len() == PATHFRAGLEN,
    ensures
        ({
            let st = assembled(buf, comps, next_slot, walked, true);
            &&& st.copied >= 1
            &&& st.buf[0] == 0x2fu8
        }),
{
    let init = assemble_init(buf, true);
    lemma_steps_keep_prefix(init, comps, last_slot(next_slot), components_kept(walked), components_kept(walked) as int);
}

/// Once the assembly has stopped, further steps change nothing.
pub proof fn lemma_steps_stay_stopped(init: AssembleState, comps: Seq<PathComponent>, start: u32, num: u32, k: int, m: int)
    requires
        k <= m,
        assemble_steps(init, comps, start, num, k).stopped,
    ensures
        assemble_steps(init, comps, start, num, m) == assemble_steps(init, comps, start, num, k),
    decreases m - k,
{
    if k < m {
        lemma_steps_stay_stopped(init, comps, start, num, k, m - 1);
    }
}

} // verus!
