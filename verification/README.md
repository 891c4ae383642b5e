# tipjar

A tip jar that a smart contract holds in escrow, verified with Verus.

Supporters tip creators in whitelisted tokens, with or without a note. The jar
keeps the tips until the creator withdraws them. Within a day a supporter gets a
tip back for the asking; later the creator has to agree. Sponsors can deposit a
budget that is added to other people's tips. An administrator keeps the
whitelist and can pause the jar.

* `src/` is the library. Every entry point takes an `Env`: the ledger entries at
  hand, the time, the jar's address, and the list of what the call asks of the
  host. A call either goes through or is abandoned with an `Abort`; an abandoned
  call changes no entry. `src/model.rs` says what each call means;
  `src/books.rs`, `src/history.rs`, `src/laws.rs`, `src/escrow.rs` and
  `src/footprint.rs` prove what holds of the jar as a whole.
* `app/` is the Soroban contract around it. It fetches the entries that a call
  needs (`Call::footprint`), runs the library, asks the host for what the library
  asked for, in that order, and writes the entries that changed.
* `tests/` holds whole stories (`scenarios.rs`) and single calls (`details.rs`).

The library names no outside crate, and no contract in it is taken on trust.
