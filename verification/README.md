# niftysubs

A verified model of a MultiversX subscription smart contract. Accounts
create paid services (a token, a price per period, a period counted in
seconds or epochs); others subscribe by prepaying, fund or withdraw from
their balance, and leave once their subscription is revoked; a service
owner claims what has fallen due. The contract owner sets the contract's
cut and can pause the contract.

## Layout

- `src/` — the library, verified with Verus.
  - `amount.rs`: token amounts of any size, with verified arithmetic.
  - `types.rs`: accounts, tokens, services, subscriptions, discounts,
    payments, transfers and the errors with their messages.
  - `billing.rs`: passed periods, the amount owed and the status of a
    subscription, as spec functions and as checked computations.
  - `collections.rs`: the address-keyed map and the insertion-ordered sets
    with swap-removal that the storage is built from.
  - `state.rs`: the contract storage (`NiftySubsState`), its mathematical
    view (`ContractView`), its invariant, and its plain record form for
    persisting it between calls.
  - `service_spec.rs`: what every service endpoint does, as a function from
    storage to storage (and transfer), checks in order.
  - `service.rs`, `discount.rs`, `niftysubs_main.rs`, `events.rs`,
    `common_util_functions.rs`: the endpoints, each proved to follow its
    specification and to keep the storage invariant.
  - `laws.rs`: properties of the contract as a whole.
- `tests/` — scenarios run against the compiled library.
- `app/` — the smart contract on top of the library: storage codec,
  endpoint arguments, transfers and event logs.

Endpoints take the caller, the block timestamp and the call's payment as
arguments, and return the transfers and events the contract performs.
Token amounts have no upper bound (`amount.rs`: natural numbers held as
base-2^32 digits). Times, periods and ids are 64-bit, as in the contract; a
period computation that would leave 64 bits is refused with
`ArithmeticOverflow`.
