# replay

A fire-and-forget HTTP traffic mirror. Requests handed to it are filtered
(only `GET` and `HEAD`, only a sampled fraction, only when every target fits
into the concurrency budget), sent to each of their targets, and counted as
mirrored, failed or dropped.

- `src/` is the verified library: the per-request decision (`dispatch`), the
  counters and their accounting laws (`counters`), the configuration rules
  (`config`), the error type (`error`) and the address a request is mirrored
  to (`target`, which parses it with the `http` crate).
- `app/` runs it: the configuration with its floating-point sampling rate, the
  counters shared between tasks, and the tokio worker that receives requests,
  asks the library what to do, and sends them with a hyper client.
