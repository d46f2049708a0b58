# runsys

A small OCI-compatible container runtime, written in Verus.

`src/` is the library. It decides what a container runtime has to do and
performs no input or output: a `Session` hands out one call on the host at
a time (`HostCall`) and takes the host's `Reply` back. What each reply leads to
is stated in the contracts and proved; what holds of the runtime as a whole is
in `src/runtime/laws.rs` and in the proof functions named `law_...` beside the
types they speak of.

- `cli`: the commands.
- `runtime::state`, `runtime::action`: the life cycle of a container.
- `runtime::container`: containers, and the steps that create, start, isolate
  and supervise them.
- `runtime::record`: the record of a container, kept in
  `/run/runsys/<id>/state.json`.
- `runtime::config`: what is read of a bundle's `config.json`.
- `runtime::cgroup`: resource limits through control groups, version 2.
- `runtime::host`, `runtime::script`, `runtime::session`: calls, replies, and
  the course of a command.
- `runtime::path`, `runtime::text`: Unix paths, and integers in decimal.

`app/` is the program `runsys`: the command line, and the host that performs
the calls. `tests/` runs the library on concrete values.
