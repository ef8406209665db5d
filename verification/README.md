# PVault

A central economy for Pumpkin: one plugin owns the balances, and other plugins
ask it over plugin IPC. This crate is its ledger, written in Verus and proved
against its contracts.

## Layout

- `src/` — the verified library.
  - `proto` — the protocol messages (`Request`, `Response`, account ids, error codes).
  - `account` — account keys: reading them off the wire and out of storage, names.
  - `money` — reading typed amounts and writing amounts of minor units.
  - `config` — the server owner's settings and their bounds.
  - `order` — the order of account keys: players first, then named accounts by name.
  - `table` — the account table, kept in key order and seen as a map from keys to accounts.
  - `journal` — journal entries, snapshots, and the framing of the journal into lines.
  - `ledger` — the economy: planning a request into a response and a journal entry,
    and applying entries.
  - `guarantees` — what holds across calls: replay, recovery, transfers, solvency.
  - `service`, `commands` — the plugin's decisions around the journal and its commands.
  - `client` — what another plugin sends and how it reads the replies.
  - `lib.rs` — `recover`, which rebuilds the ledger from a snapshot and the journal.
- `app/` — the plugin around the library: protobuf and JSON encodings, files, the
  host's commands and IPC.
- `tests/` — tests of the library.
