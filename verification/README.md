# io_mock

An I/O object for tests that follows a script: which bytes a reader is given, which bytes a
writer is to write, when either has to wait, and what goes wrong. Departures from the script
are panics, or go into a report.

* `src/` is the verified library. `script.rs` says what a script means and `scenario.rs` what a
  scenario written as text means; `inner.rs`, `mock.rs`, `builder.rs`, `handle.rs` and
  `text_scenario.rs` do it; `laws/` holds what follows for every script and every scenario.
* `app/` puts the traits of `tokio` around it.
* `tests/` runs it.

The library never panics and never blocks: whoever polls a `Mock` performs the `Step` that it
answers with.

```text
let mut mock = Builder::new().read(b"ping").eof().write(b"pong").build();
```
