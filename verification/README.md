# nic-autoswitch

A daemon that keeps Linux policy routing in step with the network: each
configured interface gets its own routing table, and route rules (by CIDR,
IP, domain or domain pattern, globally or per WiFi SSID) are applied to and
removed from those tables as interfaces come up, go down or change WiFi
network.

## Layout

- `src/` — the verified library (Verus). Configuration schema and
  validation, the network state model and link-change detection, rule
  matching, the route manager's decisions, the rule executor, the event
  dispatcher with its queue of routing actions, the DNS cache, the daemon
  service state machine, the control protocol and the client's rendering.
  `src/laws.rs` states properties that span several functions.
- `app/` — the program around it: command line, logging, reading the
  configuration file, rtnetlink (links, routes, policy rules), signals,
  systemd notifications, the control socket and the command line client.
  It performs the I/O and hands plain values to the library.
- `tests/` — tests of the library's public interface.

Calls into the `ipnetwork` crate and a few std functions go through the
trusted wrappers at the ends of `src/net.rs`, `src/daemon.rs` and
`src/cli.rs`.
