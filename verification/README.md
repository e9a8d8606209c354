# aptosdb

The verified logic of an authenticated ledger database.

- `src/crypto`: hash values, and hash functions with domain separation.
- `src/ledger.rs`: what is read of ledger infos, transaction infos and state values.
- `src/proofs`: accumulators, sparse Merkle trees, and the proofs that authenticate parts of the
  ledger. `merkle.rs` and `sparse_tree.rs` hold the mathematical models. `membership.rs`,
  `consistency.rs`, `sparse_tree.rs` and `authentication.rs` state what proofs show: proofs that are
  made from a tree verify, and proofs that verify show what is in the tree, unless they make a
  collision of the hash function known.
- `src/storage`: which requests the database refuses, which parts of the ledger it reads and writes
  for the others, in which order, and how the answers are put together.
- `tests`: tests of the library.
- `app`: the database over a physical storage, with serialization, metrics and error messages.

The siblings of a range proof of an accumulator start near the root, so that the left ones are the
frozen subtree roots before the range, from left to right. The siblings of all other proofs start at
the bottom.

The hash of a transaction info is computed from an encoding of all its fields, and the hash of a
state value from its bytes.

SHA3-256 is taken from `tiny-keccak`. It is the only thing that is trusted and not proved.
