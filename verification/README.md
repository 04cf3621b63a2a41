# ckb_fuzz_harness

The logic of the CKB node fuzz harnesses and of the node launcher, verified
with Verus.

- `src/byte_stream.rs`: reading a fuzz input as a zero-padded byte stream
  (`get_buf`) and little-endian numbers from it.
- `src/peer_store_input.rs`: decoding the peer-store fuzz input into peer
  addresses and records.
- `src/fuzz_export.rs`: the address-manager count and the peer-registry run.
- `src/peer_id.rs`: peer ids through `tentacle-secio`, and their base-58 text.
- `src/multiaddr_text.rs`: peer addresses as text, parsed into binary form
  through `tentacle-multiaddr`.
- `src/protocols.rs`: protocol ids, the protocol a fuzz input selects, and
  the protocols and service flags a node starts with.
- `src/launcher.rs`: the start-up decisions (block assembler, chain spec
  hash, RPC modules, assume-valid target).
- `app/`: the drivers that hold the node's services and storage and call
  the library.
