# btc_iter2_backend

Invoices for a stablecoin minted against ckBTC on the Internet Computer.

A caller asks for an invoice (`create_invoice`): an amount, an operation
(`Mint` or `Redeem`), an identifier of its own, and a deposit account that
the canister holds for that invoice alone (its subaccount is the
identifier). After paying into that account the caller claims the invoice by its
identifier (`get_stable` to mint, `redeem` to redeem): the canister checks the
invoice, asks one ledger for the balance of the deposit account, asks the
other ledger to transfer the invoice's amount, and marks the invoice used.

Layout:

- `src/` — the verified library: amounts of any size (`amount`), accounts
  and subaccounts (`account`,
  `utils`, `minter`), invoice identifiers (`digest`), the invoice book
  (`minter`, `keyed`), the decisions of a settlement (`settle`), invoices kept
  per caller (`caller_book`), the pieces of the BTC/USD price lookup
  (`exchange`, `decimal`) and a fixed price (`price`).
- `app/` — the canister endpoints: caller, time, inter-canister calls, the
  HTTP outcall and the decoding of the exchange's JSON numbers.
- `tests/` — tests of the library on concrete values.
