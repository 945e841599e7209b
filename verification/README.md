# devptp

A peer-to-peer development networking utility: a Linux machine serves
selected local TCP ports to a remote workstation over an iroh connection,
and a local daemon is driven over a newline-delimited JSON IPC socket.

The verified library (`src/`) holds the project's logic with Verus
contracts:

- `text`: whitespace, trimming, splitting, lines, and unsigned number
  syntax in radix 10 and 16, each against a specification of the std
  behaviour it stands for.
- `tunnel_request`, `tunnel_response`, `protocol_error`: the line protocol
  of tunnel and command streams (`OPEN <port>`, `OK`, `ERR <message>`,
  `PORT <port>`), with read-back laws.
- `proc_net_tcp`: reading the kernel's socket tables.
- `port_changes`, `port_manager`, `config`: open-port tracking, the notices
  sent to peers, and where the configuration comes from.
- `protocol`, `peer`, `framing`: peer messages, forwarded-port bookkeeping,
  message handling decisions, stream framing.
- `daemon`, `ipc`: the daemon's role state machine, its status, the IPC
  method table, what each request does and the result it answers with, and
  the reply envelope.
- `tunnel`, `commands`, `helpers`: the echo and port-gated tunnel handlers,
  the command stream, and local port selection.

`app/` is the program around it: the iroh endpoint and router, the peer
loops, the IPC server and client, file reading, and serde wire types.
