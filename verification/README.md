# swivel

The verified core of a peer-to-peer push-to-talk intercom: press a number,
speak, and the other person hears you.

`src/` is the library, written in Verus. Its functions carry contracts that
Verus proves, except the small trusted wrappers around outside crates and std
(hex and base32 coding, postcard, Ed25519, randomness, the clock, case
mapping), whose contracts are taken from those crates' sources and
documentation:

- `net/` — the audio datagram format, control message framing and the
  reaction to each control message, and the per-contact connection rules
  (duplicate tie-break, reconnect backoff, path and round-trip bookkeeping).
- `audio/` — the jitter buffer, the fixed table of peer slots and what each
  publishes to the output callback, outgoing frame numbering, device and
  format choice, and the audio thread's state machine.
- `session/` — who is in the live conversation, within the mesh limit.
- `store/` — slot numbers, contact and knock lookup, admission of inbound
  connections, schema migration, and `wt1` tickets.
- `ui/`, `cli/` — the menu bar icon and menus, roster key handling and search,
  the interface's response to shortcuts and menu choices, the terminal
  tables and headless roster, the update decisions, and the release signing
  key and signature texts.

`tests/` exercises the library from outside. `app/` is the command line
program around it: argument handling, the SQLite database, the serde wire
copies, downloads and file writes for updates and releases, the audio
thread's loop over the machine's devices, and the floating-point jitter
estimate.
