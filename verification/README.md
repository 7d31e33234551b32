# ton_block

Block structures of the TON / Everscale blockchain, written in Verus: every function of the
library carries a `requires` / `ensures` contract, and the laws that hold between functions are
stated as proof functions (`law_*`) and proved.

## Layout

- `src/` — the verified library.
  - `shard.rs` — shard identifiers and account prefixes: split, merge, siblings, ancestry,
    intersection, hypercube routing, text forms.
  - `blocks.rs` — block identifiers (with their text form), block references, block headers
    (`BlockInfo`) and their storage in a cell, value flow, top block descriptions.
  - `master.rs` — masterchain structures: block-creation counters and statistics, key block
    bookkeeping, fees, shard descriptions and records.
  - `accounts.rs` — storage statistics and account status.
  - `envelope_message.rs`, `outbound_messages.rs` — intermediate addresses, message envelopes
    and their routing, outbound queue keys.
  - `inbound_messages.rs` — inbound message descriptions and the fees and value they import.
  - `messages.rs` also holds messages as stored parts (header, state init, body) with the
    decision of which part goes into a child cell, and message addresses with their text form.
  - `merkle_proof.rs` — the checks that a proof of a block shows a transaction or a message,
    over what the walk of the proof found.
  - `out_actions.rs` — output actions of smart contracts and their storage in a cell (the cells
    they refer to known by their hashes).
  - `config_params.rs` — configuration parameters: capabilities, gas prices and limits, block
    limits, workchain descriptions, voting setups, and the parameters by number.
  - `copyleft.rs` — copyleft rewards by account, kept in account order, and their merges.
  - `messages.rs`, `types.rs` — amounts (`Grams`, variable-length integers), currency collections,
    256-bit values.
  - `signature.rs`, `signed_block.rs` — signatures, public keys, block signatures, Merkle hashes
    (SHA-256 through the `sha2` crate, hexadecimal through `hex`).
  - `text.rs`, `slice_text.rs`, `bytes.rs`, `assoc.rs` — the parsing, formatting, byte and
    association-list helpers the rest is built on.
- `tests/` — tests on concrete values.
- `app/` — what stays outside the verified library: the error type with its messages
  (`thiserror`), and the floating-point decay of the block-creation counters.

Structures are stored as bytes (`write_to` / `read_from`): fixed-size fields big-endian,
variable-length integers as a length byte and that many bytes, references to other cells as
separate child values. Most stored forms come with a law that reading them back gives the
value.

## What the library does not do

Cells, cell builders and slices, cell dictionaries (`HashmapE`, `HashmapAugE`, `BinTreeAug`),
Merkle proofs and Merkle updates are the work of a cell library, which is not part of this one.
So:

- collections that are cell dictionaries elsewhere are vectors here (sorted by key, or in the
  order of insertion), with the invariant that a key occurs once;
- a child cell is known by its hash, or holds a value of the library's own type;
- the Merkle checks take what the walk of a proof found (the block header, hashes of cells, or
  their absence) and decide; walking the proof, traversing Merkle updates and inserting into
  augmented dictionaries are not here, nor are the sums that such dictionaries keep at their
  root (the total import fees, exported value and balances of a block);
- the storage statistics of a tree of cells take the cells met by a walk of the tree;
- accounts and the outbound message queue, which are built on cell dictionaries, are not here;
- a send-message action refers to its message by the hash of the message's cell, which is not
  read back as a message.

Floating-point work (the decay of the block-creation counters) is in `app/`.
