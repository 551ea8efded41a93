# gb10_inference

Planning, bookkeeping and data-layout rules of a batched inference engine for one accelerator, or for two that
share a model. Everything in `src/` is verified with Verus.

- `src/gpu/` — what is launched: device programs for decoding, prefill, verification of drafts (chains, trees and
  packed lanes) and the draft head; the pool that their buffers come from; speculative decoding on the host; the
  loader that decides which tensors make up a weight; the division of weights between two ranks.
- `src/checkpoint.rs`, `src/recipe.rs`, `src/mma.rs`, `src/shard.rs`, `src/tensors.rs`, `src/vocab.rs`,
  `src/bits.rs` — checkpoints, quantization recipes and weight layouts.
- `src/ple.rs`, `src/ple_table.rs` — the n-gram embedding: hashing, and the table on disk.
- `src/otel/` — telemetry: the ring of records, sessions, encoding and the sender's decisions.
- `src/model.rs`, `src/memory.rs`, `src/kv_cache.rs`, `src/kernels.rs` — the dense half-precision model.
- `src/net.rs`, `src/memwatch.rs`, `src/knobs.rs` — the link between ranks, the memory watchdog, settings.

A device program is a list of operations (`gpu::program::Op`). The library decides which operations run, on which
buffers and with which launch geometry; `app/` carries them out. Functions that plan a pass ask for sizes that the
device can count; `gpu::fitting` decides beforehand whether they hold.

`app/` holds what the library cannot: the device, files, sockets, threads, the environment and floating point.
`cudarc` is built with its `ci-check` feature, which compiles without the CUDA toolkit; linking a program takes the
toolkit and the crate without that feature.

`tests/` runs the library on concrete values.
