# Kepler

Kepler tunnels the traffic of chosen Windows processes, directly or through a SOCKS5 proxy. It takes
outbound packets from the WinDivert driver, turns those of tunneled processes to a proxy on the same
machine, and restores the answers so that they seem to come from where the packets were going.

- `src/` is the library, verified with Verus: packet rewriting and the NAT table, the judging of
  outbound packets, the search for the owner of a port, the SOCKS5 client, the routing of connections
  and datagrams, the auto-tunnel rules, and the state behind the commands and the monitor.
- `app/` is the program around it: the window and the tray, the driver, the sockets, the list of
  processes, and the settings file. It runs on Windows, and needs besides the crates in `Cargo.toml`
  `tauri`, `tauri-plugin-shell`, the program's icons and its `tauri.conf.json`.
- `tests/` runs the library.

Where the program has to do something before a decision can go on, the library says what, and takes the
result in a later call. Times are nanoseconds of a monotonic clock, handed in by the caller. A value is
shared by putting it behind a lock; the library itself takes `&mut`.
