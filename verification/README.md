# zktls

A verified core for a zkVM program that proves exchange balances from zkTLS
attestations (Binance unified margin, spot and futures accounts; Aster spot and
futures accounts).

- `src/` — the library, verified with Verus:
  - `errors` — error codes, their numbers and texts;
  - `text`, `numeric`, `order` — trimming, ASCII case, searching, integer
    reading and writing, string order, sorting, joining, repeats;
  - `json` — the JSON lookups made through `serde_json` (trusted wrappers);
  - `attestation` — endpoints, trusted attestors, stable coins, the
    attestation header, the verification configuration, request timestamps;
  - `scan` — the walk over an attestation's requests and responses;
  - `plan` — which accounts an input document carries;
  - `binance`, `phala` — exchange record models and their helpers;
  - `laws` — properties proved across functions.
- `tests/` — tests of the library.
- `app/` — the program itself: input and output of the zkVM, signature
  verification of attestations, reading JSON values from responses, and the
  floating-point balance sums.
