# nft

The logic of an NFT card game contract, written in Verus and proved against its
contracts: cards and their owners, users and levels, the card catalog, stakes,
leveraged fights priced by an oracle, a lending pool with interest and lazy
liquidation haircuts, four-card decks, and the HAW AI pot that is split by deck
power when a round opens.

The state of the contract is one value, `ledger::Ledger`, whose abstract view
`LedgerV` the contracts speak of. Every request either fails with an `NFTError`
and leaves the ledger as it was, or succeeds and leaves exactly the ledger that a
spec function names (`*_post`), the first failure being named by a matching
`*_err` spec function. Token movements are returned as `TokenCall` values and
events are recorded in the ledger, so the library itself does no I/O.

Layout of `src/`:

- `types`, `error`, `event`: the data, the errors and the published events.
- `math`: APY, interest, effective power and checked arithmetic.
- `vec_map`, `paged`, `book`, `deck_book`, `rounds`: keyed records with a paged
  index and an older global list, and their migration.
- `ledger`: the storage, users, levels, cards and catalog.
- `stake`, `fight`, `lending`, `deck`, `burn`: the card actions.
- `pot`, `opening`, `rewards`: contributions to the pot, opening a round,
  claims and reward views.
- `contract`, `requests`: the contract's requests.
- `oracle`: what is asked of the price oracle and what is made of its answer.
- `laws`: properties that span several requests.

`app/` holds the Soroban glue (addresses, authorization, token transfers, the
oracle call, event publication, instance TTL). `tests/` exercises the library.
