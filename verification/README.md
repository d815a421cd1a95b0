# GigGuard

Milestone escrow for freelance jobs on Soroban, verified with Verus. Clients lock tokens upfront,
freelancers deliver per milestone, and funds are released after 72 hours if the client does not
respond.

- `src/contract.rs`: the contract. Each call is decided on the contract's entries in the ledger and
  returns the payments to make and the entries to store.
- `src/model.rs`: what each call does, as functions on models; the contracts of `contract.rs` are
  stated over it.
- `src/fees.rs`, `src/types.rs`, `src/error.rs`: the split of an amount, the data, the reasons of a
  refusal.
- `src/host.rs`: reading the host's vectors and strings. These are the only trusted items.
- `src/laws.rs`, `src/funds.rs`, `src/entries.rs`: what holds over every call and every sequence of
  calls: the lifecycle of a milestone, its release, the funds in escrow, and the entries that calls
  read and write.
- `app/`: the Soroban contract around the library (authorization, storage, payments, clock).
- `tests/`: the rules on plain values, and the escrow against the Soroban host and a token contract.
