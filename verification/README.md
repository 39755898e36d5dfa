# server_seeker

The verified core of a Minecraft server scanner and its job manager.

- `src/mc_protocol`: the VarInt number, packet framing with and without
  zlib compression (`connection`), and the dialog with a server
  (`dialog`): per-packet steps of the login, configuration and play
  states, the cookie storage, and `ConnectFlow`, which decides the next
  state from how the last one ended.
- `src/data_core`: the API types, the messages exchanged with workers and
  their conversions, and the database rows.
- `src/manager`: configuration values, the parsing of worker results into
  rows, the splitting of jobs between workers, worker loads, the job
  table, executor checks, the schedule registry and the task that runs a
  schedule, API checks, and the player tracking answers and messages.
- `src/net.rs`, `src/ids.rs`, `src/time.rs`: addresses and networks as
  numbers, UUIDs, timestamps.
- `app/`: the program around the library: configuration file, database
  writes, player tracking, the HTTP API, job and schedule tasks, the
  dialog's sockets and timers, and DNS lookups. The client of the workers'
  gRPC service and the packet decoders of the login, configuration and play
  states are generated or separate code that this crate does not hold.

Every function in `src/` carries a contract checked by Verus; the laws of
the library (round trips of VarInts, frames and addresses, what the dialog
flow keeps and bounds) are public proof functions. Run the tests with the
crate's test harness; `app/` is plain Rust.
