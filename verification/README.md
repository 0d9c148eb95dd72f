# lib

A Verus library for four pieces of a zero-knowledge virtual machine:

- `instruction`: the `sub.w` instruction (wrapping subtraction of two integers
  of one type), its output type and its circuit cost, over registers of values;
- `record`: decryption of records with randomizers, a record view key or a view
  key;
- `state_path`: the check that a transition is under the global or the local
  state root;
- `transaction`: the byte encoding of transactions, and reading it back.

`field` holds the field elements (a 253-bit prime field) and `bytes` the
little-endian encodings of integers. The hashes, Merkle path checks, scalar
multiplication, the lengths of the parts of a transaction and transaction ids
are the environment's: the `Aleo` and
`Network` traits name them, and the contracts speak of those names.

The tests run the library on concrete values, with simple environments.
