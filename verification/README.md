# yrust_chain

A small blockchain toolkit written in Verus: every function of the library
carries a `requires`/`ensures` contract that Verus proves.

- `src/` — the verified library:
  - `chain`, `tutorial` — blocks, proof-of-work, UTXO and account ledgers,
    Merkle trees, Base58 addresses;
  - `contracts` — token, NFT, DEX, AMM, swap router, staking, DAO, game and
    NFT market contracts;
  - `wallet`, `web_wallet`, `crypto` — key wallets, mnemonic wallets,
    signing (secp256k1, SHA-256, RIPEMD-160 and bs58 behind small trusted
    wrappers);
  - `ai` — risk scoring, natural-language queries, contract templates,
    operations monitoring and the voice wallet assistant;
  - `security`, `network`, `storage`, `vm`, `api`, `monitoring` — request
    guards, consensus and message framing, record layouts, contract storage,
    explorer responses and health checks.
- `tests/` — tests run against the compiled library.
- `app/` — the command-line program (`demo`, `wallet`, `miner`, `node`,
  `p2p`) doing the input and output around the library.
