# al_structures

Data structures and small runtime pieces for an application toolkit, written
in Verus: everything under `src/` is checked by the verifier, and functions
state in `ensures` what they return or change wherever that is decided by
their inputs. Where a result depends on state shared between threads (a token's
cancellation, the contents behind a shared handle), the decision taken on the
locked state is a verified step of its own, and the operation that takes the
lock states what holds whatever other threads did.

## Layout

- `src/collections/stable_vec.rs`: a vector whose indices stay valid across
  removals (generations and a free list), with its well-formedness invariant.
- `src/collections/storage/`: keyed, ordered and indexed storage traits, their
  `HashMap` and `Vec` implementations, and two shareable handles over them: one
  behind a reader-writer lock, one copy-on-write.
- `src/collections/registries/`: registries (key/value stores shared between
  threads) built on the same two strategies, and a type-erased registry box.
- `src/cancellation.rs`: cancellation tokens whose waiters are woken when the
  token is cancelled; the steps on the locked state (cancel, register a
  notifier, poll) are verified functions of `CancellationState`.
- `src/race.rs`: the decision of one poll of a race between two computations.
- `src/serde_utils/`: the fixed-size payload header (type id, format id,
  length) with its big-endian encoding, and the registries that map type
  names and formats to ids.
- `src/transport/`: a sans-IO transport model (queues, filters, maps, sinks),
  the driver that moves items between transports (it records what each
  transport was handed and how it answered), route keys, the splice handle
  and the decisions of the splice and receive loops.
- `src/ui/`: geometry (coordinates, points, rectangles), colours, styles,
  component state, the inline and block layouts of children, and what drawing a window
  draws (its render plan).
- `app/`: what stays outside the verified core: futures and thread plumbing,
  the blocking boundary queue, dynamic dispatch, and the serde formats.
- `tests/`: tests of the library through its public interface.

The laws that hold across operations (what a read gives back after a write,
that encoding a header and decoding it again is the identity, geometry facts
about intersections and unions, and so on) are public proof functions next to
the operations they speak of.
