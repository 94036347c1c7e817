# udp_bench

A UDP benchmark: a server echoes datagrams back to their sender and reports
traffic rates; a client sends rate-limited probe records (sequence number,
send time, 1024 zero bytes) and measures round-trip time and loss.

- `src/` is the verified library (Verus):
  - `common`: the clock, the probe record and its wire format
    (`Data::encode`, `parse_header`, `bytes_to_u32`);
  - `config`: the command lines of server (`get_config`) and client
    (`ClientConfig::new`), and `parse_u16`;
  - `stream_statics`: traffic counters and rate windows;
  - `probe`: the client's sending schedule, echo tracking and loss count;
  - `echo`: the echo server's decisions.
- `app/` is the program around it: sockets, the async loops, console and
  JSON output, and the floating-point rates and averages.
  Run it as `udp_bench server -l <ip> -p <port>` or
  `udp_bench client -s <ip> -p <port> -c <ip> -r <port> -k <kbps>`.
- `tests/` exercises the library.
