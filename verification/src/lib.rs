//! Rate limiters, latency statistics and message framing for an eBPF to
//! LDMS metrics pipeline.
//!
//! The rate limiters ([`FixedWindow`], [`SlidingWindowLog`],
//! [`SlidingWindowCounter`], [`TokenBucket`]) read time from a closure that
//! returns a [`core::time::Duration`] since some fixed epoch.  Every decision
//! they take is also available as a function of an explicit clock reading,
//! given in nanoseconds, so that its contract can be exact.

pub mod cbor;
pub mod cli;
pub mod clock;
pub mod exit;
pub mod fixed_window;
pub mod fslat;
pub mod log_run;
pub mod pathfrag;
pub mod record;
pub mod seq_sum;
pub mod sliding_window;
pub mod streamer;
pub mod token_bucket;

pub use cli::{EbpfLdms, EbpfStreamer, ValidateClap};
pub use clock::unix_time_now;
pub use exit::{ringbuf_put, try_fslat_exit, RecordRing};
pub use fixed_window::{elapsed_ms_between, fixed_window, FixedWindow};
pub use fslat::{
    clear_stats, starts_with, update_stats, EntryRec, EventFields, FsLatencyStats, Interval,
    PathCompSlice, PathComponent, PathSlice, PidTgid, StatsSnapshot, AGG_INTERVAL, BUFSIZE,
    NUM_COMP, NUM_INTERVAL, NUM_PATH_PREFIX, PATHCOMPLEN, PATHFRAGLEN,
};
pub use cbor::encode_stats_record;
pub use pathfrag::{
    assemble_path, assemble_pathfrag, partial_d_path, path_walk_step, try_fslat_entry, AssembleCtx, DentryView, PathWalkCtx,
    WalkMove, MAX_PARENT,
};
pub use sliding_window::{
    sliding_window_counter, sliding_window_log, SlidingWindowCounter, SlidingWindowLog,
};
pub use record::{allow_record, record_header, screen_record, CborValue, RecordField};
pub use streamer::{validate_transport, ProducerTable, TransportError};
pub use token_bucket::{token_bucket, TokenBucket};

use vstd::prelude::*;

verus! {

/// Error type indicating that the requested amount of tokens cannot be
/// consumed from the limiter.
///
/// I.e. the limiter *limits*.
#[derive(Debug, Clone, Copy, PartialEq, Eq)]
pub struct CantConsume;

impl CantConsume {
    /// The message that the error displays.
    pub fn message(&self) -> (s: String)
        ensures
            s@ == "Can't consume from limiter"@,
    {
        "Can't consume from limiter".to_owned()
    }
}

/// Limiter consume action result type.
///
/// The error only signals that the requested amount of tokens cannot be
/// consumed.
pub type LimiterResult = Result<(), CantConsume>;

/// A limiter result is told apart by whether it is `Ok` alone.
pub proof fn lemma_result_unique(a: LimiterResult, b: LimiterResult)
    requires
        a is Ok <==> b is Ok,
    ensures
        a == b,
{
    match (a, b) {
        (Ok(x), Ok(y)) => {
            assert(x == y);
        },
        (Err(x), Err(y)) => {
            assert(x == y);
        },
        _ => {},
    }
}

/// Common trait for all rate limiter implementations.
///
/// The limiters of this library state what a consume does through `ready`
/// and `consumes`.  An implementation that keeps their default bodies states
/// nothing: it is always taken as ready, and any outcome is allowed.
pub trait Limiter: Sized {
    /// Holds of a limiter on which a consume can be attempted without a
    /// runtime fault (for example a division by a zero window width).
    open spec fn ready(&self) -> bool {
        true
    }

    /// `next` and `res` are a possible outcome of consuming `tokens` from
    /// `self`, for some reading of the limiter's clock.
    open spec fn consumes(&self, tokens: u64, next: Self, res: LimiterResult) -> bool {
        true
    }

    /// Try to consume `tokens` tokens.
    ///
    /// Returns `Ok(())` when the tokens were consumed and `Err(CantConsume)`
    /// when not enough tokens are left for this time window.
    fn try_consume(&mut self, tokens: u64) -> (res: LimiterResult)
        requires
            old(self).ready(),
        ensures
            old(self).consumes(tokens, *final(self), res),
    ;

    /// Try to consume a single token.
    fn try_consume_one(&mut self) -> (res: LimiterResult)
        requires
            old(self).ready(),
        ensures
            old(self).consumes(1, *final(self), res),
    {
        self.try_consume(1)
    }
}

} // verus!
