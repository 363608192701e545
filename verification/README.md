# Agent pool

A daemon that hands tasks to long-lived workers, and the tools around it, verified with
Verus.

- `src/` is the verified library. It holds the rules: the state machines of the daemon
  (`daemon::machine` for workers that ask for one task at a time, `v2` for agents that
  register and stay, `daemon::polling` for agents with a directory each), the layer that
  turns effects into files and frames (`daemon::io`, `daemon::wiring`), how paths are told
  apart (`daemon::path_category`), how files are watched for (`watcher`, `executor`), how
  tasks are submitted and answered (`submit`, `worker`, `response`, `framing`), locks,
  pool names, and what the command-line tools print and decide (`cli`, `gsd`, `invoker`).
- `app/` is the `agent_pool` command: files, sockets, threads and arguments. It does what
  the library says and hands back what came of it.
- `tests/` runs the library on concrete values.

The library takes what the outside world shows as plain values, and returns what is to be
done as plain values. `daemon::whole` joins the state machine to the daemon's tables and
proves that, whatever happens and in whatever order, the machine never names a worker or a
submission that the tables do not know.

JSON, JSON5 and UUIDs come from `serde_json`, `json5` and `uuid`; what is believed of them
stands in `json`, `ids`, `framing` and `text`, above the functions that call them.
