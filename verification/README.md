# mosaic_cli

Command line client of the Mosaic multisig program on Solana.

- `src/` is the library, verified with Verus: the configuration (`config`), the byte
  layout of the program's instructions and accounts (`wire`, `types`, `state`), the
  addresses the program derives (`address`), hex instruction data (`hexdata`), the
  instructions each command builds (`instruction`, `commands`) and the listing of
  sessions (`sessions`).
- `app/` is the program around it: argument parsing, the configuration file, keypair
  files and the RPC calls.
- `tests/` runs the library on concrete values and compares its bytes and addresses
  with those of `borsh` and the Solana SDK.
