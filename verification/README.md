# ft_staking_contract

A staking contract for fungible tokens on NEAR: accounts stake tokens under a
reward plan, claim rewards by the minute, unstake once the lock period is
over, register for storage with a token contract and receive airdrops.

- `src/` is the verified library. `table.rs` holds the keyed tables and
  ordered account sets the state is made of; `registry.rs` the storage
  registrations, whose per-token sets share one store; `types.rs` the records (plans,
  tokens, stakes, claims); `actions.rs` the refusals and the cross-contract
  calls a call may ask for; `model.rs` the state and every call as
  mathematics; `contract.rs` the executable contract, each call proved to do
  what `model.rs` says; `laws.rs` what holds across calls.
- `app/` is the contract as deployed with `near-sdk`: it reads the caller,
  the block time, the attached deposit and the results of awaited transfers,
  lets the library decide, stores the state and makes the transfers.
- `tests/` runs the library on concrete calls.
