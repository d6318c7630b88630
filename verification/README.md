# lume

The verified core of the Lume compiler and its package manager, Arc,
written in Verus.

- `src/hir/` — the high-level intermediate representation: paths and
  types (`path`), items, statements and expressions (`node`), the order in
  which visitors see them (`walk`, `visitor`), matchers and the
  combinators they are built from (`matcher`), how paths and signatures
  are written in messages (`display`), and where items were written
  (`location`).
- `src/map.rs` — the HIR map of a package, kept in an `indexmap::IndexMap`.
- `src/lang.rs` — language items.
- `src/lower.rs` — building blocks of lowering into the HIR: identifiers,
  node allocation, operators, array literals, attributes and literals.
- `src/infer/` — argument pairing and name suggestions of type inference,
  the ancestry of HIR nodes (`scope`) and the queries on the HIR which
  inference makes (`hir`).
- `src/codegen.rs` — the layout of metadata blocks and of the stack map
  table.
- `src/driver.rs` — which packages are taken from the cache and which are
  compiled again.
- `src/arc/` — versions, version sets, the folders of fetched packages and
  the resolver's choices (`version`, `resolve`), Arcfile
  checks (`parser`), and Git revisions and clones (`git`).
- `app/` — a small command-line front end which runs `git`, touches the
  file system and prints what the library decides.

`tests/` exercise the library with the outside crates linked.
