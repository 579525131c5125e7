# vault_suite

Verified building blocks for tokenized vaults with asynchronous deposits and
redemptions:

- `src/fee.rs`, `src/error.rs`: fixed and percentage fees (rounded up), their
  validation against 100% (10,000 bps), and the arithmetic errors.
- `src/tlv.rs`: lookup of type-length-value extension entries in raw account
  data, with read-back laws.
- `src/subscription_queue.rs`: the subscription queue extension state of a
  vault and the subscription id of a request.
- `src/settlement.rs`: transfer fees, assets per share, redemption fees.
- `src/token_state.rs`: token balances and mint supplies, read through the
  token programs' own unpacking.
- `src/error_code.rs`: recognizing a program error in a printed failure.

`app/` holds the copies of these types that carry serialization derives, and
the assertion helper that prints a failed transaction.
