# pakv

A small log-structured key-value store, its compaction, and the framed
client-server protocol around it, written in Verus.

- `src/` is the verified library: the in-memory stores and indexes, log
  replay and recovery planning, compaction bookkeeping, the meta record, the
  wire framing (`msg_parse`, `msg_gen`, `codec`), command matching, and the
  request routing of the asynchronous server (`server_app`). Contracts are
  stated over `Map`, `Seq` and `Set` views; the laws that span calls are
  public proof functions beside the code they are about.
- `app/` is ordinary Rust around the library: files, sockets, threads, tokio
  tasks, serde_json and clap. It hands the library plain values and carries
  out the actions the library decides.
- `tests/` exercise the library on concrete values.
