# cube-envd

The data plane that runs inside a sandbox: it starts commands, reads and writes files, and watches
directories for a client on the network. The rules of its endpoints are a library written in Verus and
proved; the server around it is ordinary Rust.

- `src/` is the library. An endpoint that needs the machine is a state machine that asks one question at a
  time (`access`, `filesystem`, `files`, `upload`, `process`, `watch`; the questions are in `host`) or takes
  one event at a time (`running`, `watcher`). Each step is proved equal to a transition function, and the laws
  of the library, public proof functions whose names start with `law_`, are stated over these functions.
- `src/outside.rs` holds the calls into other crates. What is said of them is believed, not proved.
- `tests/` runs the library: against a host that lives in memory, with scripted events, and on plain values.
- `app/` is the server. It carries the questions out and turns JSON into values and back.

```text
--port <PORT>       Listen port; default: 49983
--isnotfc           Enable non-FC container mode
--version           Print the version
--commit            Print the short commit
```
