# betting_contract

A peer-to-peer betting ledger with verified rules. Users bet in private,
invite-only rooms on scheduled games, with collateral in USD (20%) or TRUST
(10%). Bettors submit and vote on a room's result; a disputed result goes to
a supreme court (an external member, the admin, and the two users with the
most honesty points), whose confirmed result is distributed in every room
still waiting. Winners share the losers' stakes and the fines of dishonest
voters; the protocol takes 5% and, after a dispute, the court 3%.

## Layout

- `src/` — the library, verified with Verus.
  - `types.rs`, `outcome.rs`, `ledger.rs`, `table.rs`: the records, the
    failures, transfers and events a call hands back, and the storage with
    its model as maps and sequences (`Ledger` and its view `LedgerView`).
  - `storage.rs`: the storage accessors, each with its exact effect.
  - `rules.rs`, `court.rs`: every entry point's rule as a spec function from
    the state before a call to the state after it, the value returned, the
    transfers asked for and the events published (or the failure).
  - `contract.rs`, `claims.rs`, `court.rs`: the entry points, each proved to
    follow its rule; a failed call leaves the storage unchanged.
  - `distribution.rs`, `arith.rs`, `board.rs`: pool arithmetic, trapping
    integer operations, and the honesty leaderboard.
  - `laws.rs`, `history.rs` (and `board.rs`): properties across calls,
    proved: each bettor is paid once, bets once per room and assesses a
    room's result once (the submitter by one confirming approval); a refund
    gives back exactly what the bet took, whatever calls come in between;
    a distribution splits the gain exactly, and the honest bettors' shares
    stay within the pool; the court's members vote once; and more.
  - `signature.rs`: the one trusted item, the ed25519 check of the admin's
    signature over a game (by `ed25519-dalek`, as the Soroban host does it).
- `tests/` — scenarios and per-rule tests run against the compiled library.
- `app/` — the Soroban contract around the library: authorisation, contract
  storage, ledger time, token transfers and events.
