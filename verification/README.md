# agent_browser_daemon

The decisions of a daemon that drives a browser for command-line clients,
written in Verus: the functions of `src/` have contracts, and Verus proves that
the code keeps them.

- `src/protocol.rs`, `src/connection.rs`, `src/sharing.rs`: what a line of input
  is, how it is answered, when a connection ends the daemon, and how connections
  take turns at its state.
- `src/server.rs`, `src/idle.rs`, `src/state.rs`: the daemon's loop, which looks
  after the browser and gives up waiting for work.
- `src/lifecycle.rs`, `src/address.rs`: the files that a daemon leaves and takes
  away, and where its clients find it.
- `src/json.rs`, `src/text.rs`, `src/scan.rs`: documents and texts. Documents are
  read and written by `serde_json`.
- `src/e2e/`: what end-to-end runs are made of: pages and the servers behind
  them, commands, and scenarios with all that has to hold on the way.

The loops that wait for sockets, timers and signals are in `app/`. They hand
events to the machines of the library and do what those ask for.
