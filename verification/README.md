# gsc_fq

A TCP/UDP forwarding proxy with reverse tunnels authenticated by token and
TOTP. The decisions of the proxy are written in Verus and proved against
their contracts; the program around them handles sockets, files and the
terminal.

- `src/` — the verified library: the configuration file and its check
  (`config`, `config_properties`, `loader`), IP address syntax (`ip`), text
  helpers (`text`), the tunnel protocol and handshake (`protocol`, `tunnel`),
  TOTP codes (`totp`), AES-256-GCM sealing (`crypto`, `stream_cipher`),
  connection pools and selection (`pool`, `selector`), reconnection and
  sessions (`resilient`), traffic shaping (`stealth`, `transfer`), status
  reporting (`status`), and the decisions of a relay with idle and write
  timeouts (`relay`).
- `app/` — the executable: command line, configuration search, async
  networking with tokio and yamux, signals and daemon mode.
- `tests/` — tests of the library on concrete values.
