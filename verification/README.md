# Kindred

Kindred is the device-management engine behind Kindling, a tool for managing
books on a Kindle over USB/MTP and in a local, device-independent library.

- `src/` — the library, written and proved in Verus: the Kindle inventory
  model (books from raw MTP listings), the local library with reconciliation,
  local collections and covers, device profiles keyed by USB serial, the
  Kindle-aware error categories, the safety checks that guard every deletion,
  the inventory walk, and the desktop shell's state machine. Laws that relate
  several operations live in the `*_laws.rs` modules.
- `tests/` — tests of the library on concrete values.
- `app/` — the `kindling` command-line program: USB discovery, MTP calls,
  JSON files and printing, around the library's decisions.
