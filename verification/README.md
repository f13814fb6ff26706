# redis_json

Operations on JSON documents that are held as `ijson` values: reading them from text, following
paths into them, changing what is there, merging patches, and measuring how much memory they take.

- `src/` is the library. `json.rs` models a document as a tree; `path.rs`, `ops.rs`, `merge.rs`,
  `number.rs` and `index.rs` hold the operations; `holder.rs` and `manager.rs` are what callers
  use. `values.rs` and `text.rs` hold everything that is taken from `ijson`, `serde_json` and
  `bson` without proof. `laws/` states what holds of the operations together.
- `app/` opens the keys of a Redis server, and does the arithmetic on doubles.
- `tests/` runs the library on concrete documents.
