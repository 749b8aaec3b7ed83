# tikka

Verified core of a raffle platform on Soroban: a factory that deploys and
indexes raffle contracts, and the draw logic of the raffles themselves.

## Layout

- `src/` — the library, verified with Verus.
  - `factory.rs` — the factory's state (`RaffleFactory`), its mathematical
    model (`FactoryModel`), initialization and the timelocked administrative
    operations.
  - `creation.rs` — raffle creation in two steps (check and say what to
    deploy; register the deployed instance), rate limiting, checkpoints,
    partner statistics, recurring raffles.
  - `admin.rs` — pausing, the two-step admin transfer, the partner whitelist,
    emergency pause, upgrades, token rescue, raffle cleanup, verified badges.
  - `queries.rs` — reads, paginated listings, volume, unique participants,
    leaderboards, creator profiles.
  - `laws.rs` — properties that span several operations.
  - `selection.rs`, `lcg.rs`, `orbit.rs` — winner selection by rejection
    sampling over a 64-bit linear congruential generator, with the proof that
    the generator's orbit visits every state (so every draw terminates) and
    that accepted samples favour no ticket.
  - `commit.rs` — one-time ticket commitments of commit-reveal raffles.
  - `hashing.rs` — byte encodings of quorum seeds and checkpoints, and their
    SHA-256 digests through the host.
  - `leaderboard.rs`, `strmap.rs`, `address.rs`, `types.rs`, `sdk.rs` —
    supporting types.
- `tests/` — tests of the library.
- `app/` — host glue: authorization, ledger time, deployment, cross-contract
  calls and token transfers around the library's operations.

Operations take the address that authorized the call and the ledger time as
arguments and append the events they publish to a vector; the host glue
supplies both and performs what the library asks of the host.
