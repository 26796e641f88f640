# ebpf_ldms

Library side of an eBPF to LDMS metrics pipeline: rate limiters for message
producers, per-path-prefix file system latency statistics, the CBOR records
that publish them, the screening of records before they are forwarded, and
the daemon's transport and producer bookkeeping.  The kernel probe programs
themselves are not part of it: `app/` loads a built probe object.

Layout:

- `src/` – the library, with its contracts and proofs.
  - `fixed_window.rs`, `sliding_window.rs`, `token_bucket.rs` – rate limiters
    and the `Limiter` trait (in `lib.rs`); every decision is a function of an
    explicit clock reading; `log_run.rs` relates the sliding window log's
    window to the tokens granted in its last `W` milliseconds over a run.
  - `fslat.rs`, `pathfrag.rs`, `exit.rs`, `cbor.rs` – latency statistics,
    path fragments, accounting of returning calls and record encoding.
  - `record.rs` – reading the producer id and timestamp of a record and
    deciding, per producer, whether it is forwarded.
  - `cli.rs`, `streamer.rs` – daemon settings and decisions.
- `tests/` – tests of the library.
- `app/` – the daemons: command line parsing, the LDMS C library, the ring
  buffer reader, probe loading, and the floating-point steps of the token
  bucket and sliding window counter.
