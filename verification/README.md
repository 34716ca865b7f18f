# testnet4_miner

A CPU miner for Bitcoin's testnet4 that mines at minimum difficulty under the
network's twenty-minute rule. The library (`src/`) is verified with Verus; the
command (`app/`) wraps it with RPC, threads and logging.

- `src/script_num.rs`: the BIP34 height push and its read-back law.
- `src/hexcode.rs`: hexadecimal text, and the calls that read and write it.
- `src/text.rs`: character-level string helpers.
- `src/block_builder.rs`: coinbase construction, block assembly, serialization.
- `src/miner.rs`: the nonce-space split and the proof-of-work search.
- `src/schedule.rs`: subsidy, the twenty-minute rule and the reactions to the node.
- `src/rpc.rs`: node data types, reply handling and the authorization header.
- `app/`: the `testnet4-miner` command.
