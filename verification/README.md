# jlight

Verified core data structures of the JLight virtual machine and of its
Waffle runtime, written in Verus.

- `ix`, `typed_vec`, `regs`, `item_set`, `points`, `frag_env`, `frags`,
  `universe`: the register allocator's entities — typed indices, packed
  real and virtual registers, register sets and maps, instruction points,
  live-range fragments and their sorted lists, and the real-register
  universe with its sanity check.
- `bytecode`: instructions, their register usage and renaming, and basic
  blocks with their branch targets.
- `runtime`: encoded values, execution contexts, the collector choice, the
  string interner and the trace compiler's enums.
- `ieiunium`: the incremental mark-and-sweep collection over a heap of
  equally sized object slots.
- `chunk`, `heap`, `process`, `module`, `object`: the Waffle heap's
  histograms, bytemaps and block lists, process status bits, mailboxes and
  module errors.

Register sets and maps (`ItemSet`, `ItemMap`) keep their items in a vector
ordered by key. They are generic over the item type, and the contents of a
hashed collection can only be named here for one concrete element type, so
they are not built on a hashed set.

`app/` holds the command-line driver and the process-wide state (the global
interner and the collector choice).
