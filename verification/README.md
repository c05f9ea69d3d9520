# dpist

Rewrites packet captures: packets read from a pcap file pass through a
pipeline of modifiers (fixed, jittered, paced, rate-limited and burst
delays; dropping every n-th packet; HTTP and TLS ClientHello fragmentation;
per-flow reordering), and the result is sorted by time and written out. A
terminal editor maintains the TOML configuration.

- `src/` is the library, verified: flow keys and the per-flow
  table, every modifier with a contract stating what it emits for each
  packet and how its state changes, the pipeline, decimal text, and the
  editor's state machine and screen contents.
- `app/` is the program around it: pcap and TOML I/O, the terminal, and the
  floating-point transmission time of the rate limit. `dpist` runs the
  pipeline configured in `config.toml`; `dpist tui` opens the editor.
- `tests/` exercises the library on concrete packets and key sequences.

Timestamps and delays are held as nanoseconds (`u128`); a modifier that
would push a time past the largest `std::time::Duration` returns an error
instead of panicking. A modifier configured so that it cannot take a packet
(empty jitter range, burst cycle under a millisecond, zero fragment size,
rate of zero) says so through `refuses` before it is fed the packet; the
pipeline stops with that refusal.
