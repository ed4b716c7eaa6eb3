# evie_market

A marketplace for NFT sales on NEAR, with its rules proved in Verus.

- `src/` is the verified library. `Contract` holds the market's state:
  sales keyed by `contract + "." + token`, the two sale indexes, storage
  deposits, administrators, shopping carts and education forms. Every
  method takes the caller's environment (predecessor, signer, attached
  deposit, this contract's account) as plain values, returns the
  transfers and cross-contract calls to make, and on refusal returns a
  `ContractError` and leaves the state untouched.
  - `string_set.rs`, `keyed_map.rs`: insertion-ordered collections whose
    removal moves the last element into the freed place, the order that
    near-sdk's `UnorderedSet` and `UnorderedMap` keep. The library holds
    its state in these rather than in near-sdk's collections: those keep
    their contents in the chain's storage through the runtime's host
    functions, store only values with borsh impls (derives of an outside
    crate, which the library's types cannot carry), and nested sets share
    storage prefixes, so no value-level contract could describe them.
    Outside the NEAR runtime they do not even link: a test that only
    inserts into `near_sdk::store::LookupMap<String, u128>` fails with
    undefined `storage_read`, `storage_write` and `register_len` symbols,
    since only near-sdk's `unit-testing` feature (and the NEAR VM it pulls
    in) supplies them.
    `Contract::restore` rebuilds a checked state from the lists that the
    contract keeps in storage.
  - `marketplace_calls.rs` also holds the two callbacks that read another
    marketplace's answer; the JSON parse of that answer stands behind
    wrappers around `near_sdk::serde_json::from_slice`.
  - `invariants.rs`: the market's invariant (every sale filed under its
    owner and its contract; every account's deposit covers its listed
    sales) and the laws that listing, removal, pricing and deposits keep it.
  - `contract.rs`: the state, its well-formedness, storage deposits.
  - `internal.rs`, `nft_callbacks.rs`, `sale.rs`, `sale_views.rs`:
    listing, removing, pricing, buying and settling sales, and views.
  - `admin_functions.rs`, `cart_functions.rs`, `edu_form_functions.rs`,
    `buy_from_other_marketplaces.rs`, `marketplace_calls.rs`.
- `tests/` runs the library on concrete values.
- `app/` is the NEAR contract around it (built with `near-sdk`): it reads
  the environment, parses JSON, stores the state, and performs promises.
