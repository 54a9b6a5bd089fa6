# rs_platform_explorer

The logic of a terminal explorer for Dash Platform, written in Verus and proved
against its contracts: wallet coin selection and the plans of the transactions
that spend the wallet's outputs, the bookkeeping of strategies, identities,
their keys and known contracts, the registration of identities and DPNS
names, the decisions of strategy runs and load tests,
the reports and texts that the explorer shows, and the reading of the block
explorer's answers.

Layout:

- `src/` — the verified library, one module per subject (`wallet`, `split`,
  `strategy`, `identity`, `contracts`, `runs`, `load`, `platform`, ...);
  `codec` holds the few calls into the `hex`, `bs58` and `sha2` crates, with the
  contracts they are trusted to meet; `laws` states properties that span
  several functions.
- `tests/` — tests of the library on concrete values.
- `app/` — a small command-line front: input and output, the floating-point
  amounts that the explorer prints, and the error type with its `Display`.
