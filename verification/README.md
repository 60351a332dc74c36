# qwartz

An educational cryptographic toolkit (not for production use), written in Verus.

- `src/` is the verified library: the command-line parser and hex rendering
  (`cli`), the entropy engine (`entropy`), the key-based mode ZAB-K with its
  storage format and AES-256-GCM encryption (`zab_k`), the adaptive mode ZAB-R
  (`zab_r`), and the peer bookkeeping of ZAB-Sync (`sync`). The calls into
  `sha3`, `aes-gcm`, `zeroize` and `std::time` stand behind small trusted
  wrappers (`digest`, `cipher`, `zab_r::zeroize_block`, `clock`).
- `app/main.rs` is the command-line tool: arguments, files and printing.
- `tests/` exercises the library with the real outside crates.
