# Creator earnings

A contract that tracks what creators have earned and lets them claim it. A platform fee, in
basis points, is deducted on each credit.

The rules are a verified library. A call is a function of the storage slots it reads: it
leads to a result, to a new state, and to a list of effects that the host carries out in
order (authorisations to ask for, slots to write, tokens to transfer, events to publish).

| path | what it holds |
|------|---------------|
| `src/fee.rs` | the split of an amount between creator and platform |
| `src/model.rs` | the state and what each operation does to it, as mathematics |
| `src/contract.rs` | the operations, proved against the model |
| `src/ledger.rs`, `src/table.rs` | the state that operations work on |
| `src/keys.rs`, `src/address.rs`, `src/error.rs` | storage keys, addresses, errors |
| `src/laws.rs` | what holds of the contract as a whole |
| `app/` | the contract on the Soroban host: it reads the slots, and carries the effects out |

Two of the laws carry the rules over to the host's storage: an operation depends on no slot
beyond those that `reads` names, and the writes that it asks for account for every slot that
it changes.
