# deno_doc_printer

Plain-text rendering of TypeScript documentation nodes, verified with Verus.

- `src/node.rs` — the documentation model (`DocNode`, its kinds, JSDoc tags and
  definitions) and when a node can be printed.
- `src/text.rs` — indentation, the lines of a text, joining with a separator, and
  the order of names.
- `src/layout.rs` — the text of every part of a node, as spec functions; the
  order of a listing.
- `src/doc_node_printer.rs` — the printer (`print_doc_node`) and the listing of a
  list of nodes (`print_doc_nodes_assoc`), each proved to produce exactly the text
  that `layout.rs` describes.
- `src/laws.rs` — properties across calls: what the `private` and overload flags
  change, that the listing order is fixed by kinds and names, and that being
  overloaded does not depend on the order of a list.
- `app/lib.rs` — conversion from the parser's (`deno_ast`) enums, a `Display`
  printer, and the listing over a borrowed slice.
