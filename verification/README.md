# pubsub_core

The decision logic of a Cloud Pub/Sub publisher, written in Verus and proved
against its contracts.

- `src/token_bucket.rs`: the fixed-point token bucket that rations hedged
  requests, with laws on refills and acquires.
- `src/options.rs`, `src/message.rs`: batching options and the message model
  (attributes with unique keys, size estimate in UTF-8 bytes).
- `src/batch.rs`: batches with their size estimate, draining, and the
  resolution of each message's ticket from the service's reply.
- `src/worker.rs`: the batching worker as a state machine, with a law that no
  message is lost, duplicated or reordered.
- `src/hedging.rs`: the hedging scheduler (deadline queue, first completion
  wins, token-rationed hedges with growing attempt counts) and the per-batch
  hedged send step.
- `src/attempt.rs`: the request options of each attempt (retry policy, hedge
  marker header, telemetry attempt count).
- `src/strategy.rs`, `src/traits.rs`, `src/client.rs`: marker types and traits of
  the typed publisher API.
- `src/subscriber.rs`, `src/bench/`: subscriber channel count and the accounting
  of the benchmark tools.
- `src/duration.rs`: the contracts of the `std::time::Duration` calls used.

`app/` holds the runtime around the library: tokio tasks that drive the worker
and the hedging scheduler, command-line parsing, clocks, and everything that
works with floating point (the hedging refill ratio, rates, latency rolls).
