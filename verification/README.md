# paper_trading_core

The deterministic core of an offline paper-trading stack, written in Verus:
every owner below is a state machine whose transitions are stated as
`requires`/`ensures` contracts over mathematical views and proved.

## Layout

- `src/risk/` — portfolio risk: frame validation, exposure preparation,
  fill-outcome and shock scenario enumeration, worst-case wealth, the
  idempotent risk engine and its journaled owner and replay.
- `src/execution.rs`, `src/execution_engine/` — paper order lifecycle, fills
  and reconciliation hand-offs; the paper execution engine, its journaled owner
  and replay.
- `src/paired_policy/`, `src/paired_execution.rs`, `src/paired_runtime.rs`,
  `src/paired_settlement.rs` — placement policy for two-leg pairs, the paired
  leg executor, combined risk evaluation of a detected pair, and settlement
  checks (hand-off registration, posting, complete-pair locks, finalization).
- `src/pipeline.rs` — provenance rules at the accounting boundary of the
  single-order pipeline.
- `src/governance/`, `src/readiness/` — promotion governance and
  production-change readiness owners, their sealed records, record files,
  journaled owners and replay.
- `src/campaign.rs`, `src/dataset.rs` — campaign record envelopes and the
  frozen learning dataset.
- `src/checkpoint.rs`, `src/record_file.rs`, `src/digest.rs` — checksummed
  frames, canonical encodings and digests. BLAKE3 is the one outside function
  the library calls; its contract is in `src/digest.rs`.
- `app/` — file, JSON and journal plumbing around the library (not verified).
- `tests/` — executable tests of the library.

Every `law_*` proof function states a property that holds across calls or
states, proved from the same specifications the executable functions meet.

## Encoding

The digests of the library's own values (decision, outcome, record, command
content, state and dataset digests) and the size bounds on commands are taken
over the canonical binary encoding of `src/digest.rs` (`Canonical`):
little-endian fixed-width integers, one tag byte per enum variant or option,
and length-prefixed sequences and strings. They are not byte-compatible with
digests taken over a JSON rendering. Campaign records are bounded and sealed
over their JSON text instead: `app/` serializes the record and hands the text
to `RecordEnvelope::new`, `check_sealed` and `validate`. Otherwise JSON appears only in
`app/`, as a file format around the library's values.
