# forskscope_core

The GUI-independent core of a file and directory comparison tool, written
in Verus: the normalized line diff and its inline refinement, two-way and
three-way merge sessions with undo/redo, the transaction log, unified patch
export, directory scan merging, index pairing, merge plans and batch
manifests, text decoding and newline/BOM policies, ignore rules, the command
registry, error envelopes, and the persisted session and settings schemas
(envelope probing, routing, legacy migration and normalization).

- `src/` is the verified library. Every public function carries a contract
  over a mathematical model (`Seq`, `Map`, spec functions); laws that relate
  several operations are public proof functions named `law_*`.
- `app/` holds what touches the outside world: reading and writing files,
  walking directories, the clock, the environment, JSON parsing, and the
  floating-point view values. It hands plain values to the library and its
  answers back.
- `tests/` exercises the library on concrete values.
