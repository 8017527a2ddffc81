# direct_chunked

The direct, trace-first chunked proving path of a Jolt/Nova zkVM: a trace
arrives as blocks, is audited and re-chunked to a fixed circuit capacity with
bounded residency, and is turned into per-block lookup, register and RAM
witnesses whose sequences must join into one contiguous execution. The
library is written in Verus; every function in `src/` carries a contract
that Verus proves.

Layout:

- `src/direct.rs`: preprocessing identity, configuration, the streaming
  audit (a step-per-block auditor holding counters, two boundary states and
  an incremental SHA3-256 state), statements and the fail-closed production
  entry point.
- `src/streaming.rs`, `src/spool.rs`: the two-pass capture state machine
  (one source block and its re-chunked output resident at a time, the trace
  digest absorbed incrementally, first-touch RAM values kept per address),
  hard re-chunking, residency metrics, and spool records.
- `src/lookup.rs`, `src/register.rs`: lookup and register witnesses, register
  replay, and the checks that join block sequences.
- `src/ram.rs`, `src/merkle.rs`: canonical RAM addresses, the first-touch
  initial RAM table, memory consistency of reads and writes, and the Merkle
  tree behind authenticated RAM.
- `src/pcs.rs`: execution inputs, initial memory words, advice commitment,
  the statement and PCS dimension checks, and the binding of public outputs
  to RAM writes.
- `src/size.rs`: proof size accounting of the parts the library holds.
- `src/evaluation.rs`, `src/json.rs`: the D8 comparison artifact, its
  canonical JSON digest and its Markdown report.
- `app/`: file spooling, memory observations and JSON output around the
  library.
- `tests/`: tests of the library on concrete traces.
