# sansio

Sans-IO pipelines for network protocols: a chain of handlers turns what a
transport reads into application messages and turns what the application
writes back into what the transport sends, while the library itself does no
I/O.

The library in `src/` is written in Verus and verified:

- `handler` — the `Handler` trait, the `Context` through which a handler
  reaches the rest of its chain, and the last handler that queues outbound
  messages.  The contracts state, for each event and poll, which handler
  method is called on which handler and context (`call_ensures`) and what
  that call leaves; a ghost record of what was handed to which position
  lets them say that events only move towards the end of the chain.
- `pipeline_internal` — the chain shared by the three pipeline variants:
  adding, removing and linking handlers, and the errors of removal.
- `pipeline`, `rc_pipeline`, `arc_pipeline` — `Pipeline`, `RcPipeline` and
  `ArcPipeline`.
- `protocol` — the simpler `Protocol` trait.
- `bootstrap` — what the I/O loop of a TCP or UDP transport does with each
  wake-up: which pipeline event it becomes and whether the loop goes on.
- `laws` — properties that relate several operations, proved over the
  operations' contracts.
- `notify` — the write callback, the one part of the library whose contents
  Verus does not see.

`app/` holds the parts that are plain Rust: the TCP and UDP bootstraps on
tokio, and the local executor on smol.  `tests/` exercises both.
