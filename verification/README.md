# Strata

The decisions of an epoch-aware blob store, written in Verus and proved.

Strata keeps blobs in append-only segment files and their metadata in sorted tables. Lifetimes end
at epochs: when an epoch begins, the blobs that end there disappear without a delete, and garbage
collection later reclaims their bytes. This crate holds what such a store computes and decides. Files,
tables, threads and clocks belong to the program around it.

## Layout

- `src/blob_lsm`: the rows of the blob tables. Mutations and states have byte formats, and a merge
  that says which version of a blob survives and which bytes become garbage.
- `src/gc`: collection. The rate limiter, the tuner that admits workers, claims on source segments,
  the revalidation of copies, what one publication writes and which segments may be deleted.
- `src/maintenance`: which tables are compacted, how far transitions apply, and the frontiers that
  move with it.
- `src/recovery.rs`, `src/read.rs`, `src/batch.rs`, `src/halt.rs`, `src/config.rs`: opening after a
  crash, finding a record, routing a batch, halting, and settings.
- `src/double.rs`, `src/decimal.rs`, `src/numeral.rs`: binary fractions of 53 bits, rounded half to
  even, the one nearest a decimal, and decimals as they are written. Durations, jitter and quantiles
  are computed in them, and shares are checked.
- `src/metrics.rs`, `src/figures.rs`, `src/figure_names.rs`: what a store counts, what of it is shown,
  and under which names.
- `src/bench`, `src/stress.rs`: the workload of the lifecycle benchmark, with its reference model of
  keys, its controller and its scorecard, and the recovery stress worker.
- `tests`: the same on concrete values.
- `app`: ordinary Rust around the library. It runs the store's threads, its read path and its
  recovery over the storage layers, which are handed in through the traits of `app/storage.rs`. It
  also walks directories, shows metrics through Prometheus, and puts a store or RocksDB under load.

## Reading the proofs

Contracts are stated over mathematical models: a blob's state is a map from shard generations to
versions, a batch of bytes is a sequence. Functions whose names begin with `law_` state what holds of
several functions together; their comments say it in words. Times and spans are nanoseconds.
