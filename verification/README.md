# muta_network

The network layer of a blockchain node and its test tools, written in Verus.
The functions in `src/` carry contracts that Verus proves, except a few small
wrappers around outside crates (Keccak-256, hex, UTF-8 decoding, the operating
system's random source), whose contracts are trusted and say so in their doc
comments.

- `src/` — the verified library.
  - `peer_store`, `network`: what the node knows of its peers, and whom to dial.
  - `event`, `eventv2`, `p2p`: transport errors and notifications turned into
    network events; send modes; the protocol table.
  - `endpoint`, `rpc`, `protocol_id`: endpoint names, rpc response framing,
    endpoint registration and protocol ids.
  - `transmitter`: reassembly of chunked messages.
  - `syscall`: the environment syscalls of the RISC-V contract interpreter.
  - `payload`, `message`, `statistics`, `measure`, `packet`: the latency
    measurement tool.
  - `node`, `block`, `client`: configuration, transactions, served blocks,
    failure handling and the main loop of the byzantine test client.
  - `digest`, `text`, `random`: Keccak-256, hex text, byte and string
    comparisons, random bytes.
- `app/` — the runtime around it: configuration files, clocks and sleeps, the
  RISC-V machine adapter and the serde forms of the library's types.
- `tests/` — tests of the library on concrete values.
