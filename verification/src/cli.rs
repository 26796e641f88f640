//! Command line settings of the streaming daemons.

use vstd::prelude::*;

verus! {

/// Settings of the daemon that forwards ring buffer records to LDMS.
#[derive(Debug)]
pub struct EbpfLdms {
    /// Name of LDMS stream to which messages are published
    pub stream: String,
    /// Average message rate limit for an individual producer in messages/interval
    pub msglimit: u64,
    /// Length of time interval over which message limits are calculated, in seconds
    pub interval: u64,
    /// Hostname or IP address of LDMS daemon
    pub host: String,
    /// TCP port of LDMS daemon
    pub port: String,
    /// Authentication method when connecting to LDMS daemon (`none` or `munge`)
    pub authentication: String,
    /// Value of the "hostname" field in published messages
    pub hostname: String,
    /// File to which logs are written in addition to the console
    pub logfile: String,
}

/// Settings of the streamer of slow-call counts to LDMS.
#[derive(Debug)]
pub struct EbpfStreamer {
    /// Name of LDMS stream to which messages are published
    pub stream: String,
    /// Average message rate limit for an individual producer in messages/interval
    pub msglimit: u32,
    /// Length of time interval over which message limits are calculated, in seconds
    pub interval: u32,
    /// Hostname or IP address of LDMS daemon
    pub host: String,
    /// TCP port of LDMS daemon
    pub port: String,
    /// Authentication method when connecting to LDMS daemon (`none` or `munge`)
    pub authentication: String,
    /// Value of the "hostname" field in published messages
    pub hostname: String,
}

/// The rate limit that a parsed `(msglimit, interval)` pair stands for: a zero
/// message limit becomes one message, a zero interval becomes one second.
pub open spec fn corrected_rate_limit(msglimit: u64, interval: u64) -> (u64, u64) {
    (if msglimit == 0 { 1 } else { msglimit }, if interval == 0 { 1 } else { interval })
}

/// Validation of parsed command line settings.
pub trait ValidateClap {
    /// Replace a rate limit that cannot be used by the nearest one that can.
    fn parse_ratelimit(&mut self);
}

impl ValidateClap for EbpfLdms {
    fn parse_ratelimit(&mut self)
        ensures
            (final(self).msglimit, final(self).interval) == corrected_rate_limit(
                old(self).msglimit,
                old(self).interval,
            ),
            final(self).stream == old(self).stream,
            final(self).host == old(self).host,
            final(self).port == old(self).port,
            final(self).authentication == old(self).authentication,
            final(self).hostname == old(self).hostname,
            final(self).logfile == old(self).logfile,
    {
        let (msglimit, interval) = match (self.msglimit, self.interval) {
            (0, 0) => (1, 1),
            (0, j) => (1, j),
            (i, 0) => (i, 1),
            (i, j) => (i, j),
        };
        self.msglimit = msglimit;
        self.interval = interval;
    }
}

/// A corrected rate limit is usable, and correcting it again changes nothing.
pub proof fn lemma_rate_limit_correction(msglimit: u64, interval: u64)
    ensures
        corrected_rate_limit(msglimit, interval).0 >= 1,
        corrected_rate_limit(msglimit, interval).1 >= 1,
        corrected_rate_limit(
            corrected_rate_limit(msglimit, interval).0,
            corrected_rate_limit(msglimit, interval).1,
        ) == corrected_rate_limit(msglimit, interval),
        msglimit >= 1 && interval >= 1 ==> corrected_rate_limit(msglimit, interval) == (msglimit, interval),
{
}

} // verus!
