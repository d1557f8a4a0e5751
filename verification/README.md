# tikka_raffle_instance

The rules of a raffle contract on Soroban, verified with Verus.

`src/` is the library. Every call of the contract is a function on a frame (the ledger,
the contract's memory and the actions that the host is asked to carry out), and its
contract says exactly what it returns and what it does to the frame. `src/laws.rs` and
`src/promises.rs` prove what follows for the contract as a whole: that its books always
agree, that a refused call changes nothing, that the tiers share the whole prize, that
nothing is claimed twice, that a draw can be checked by anybody and its record stays.
`src/sampling.rs` and `src/lcg.rs` prove that a draw always ends, that its winners are
distinct, and that the seeds fall on the tickets evenly.

`app/` is the contract itself: it reads and writes the ledger, carries actions out and
converts values. `tests/` runs the library against the host.
