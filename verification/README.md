# lightmount_style

Style invalidation for a document that keeps its computed styles: which
stylesheet sources a mutation concerns, which retained queries have to run
against them, which roots serve as fallback where a query cannot be exact, and
what the results of those queries mean. The library also holds CSS declaration
blocks with the operations of the CSS object model, and the device state behind
units relative to the root font.

`src/` is written in Verus. Every function states in its contract what it
returns, over mathematical views of its arguments, and the modules whose names
end in `_laws` state what holds across functions:

- `lightmount_invalidation/coverage_laws.rs`: a summary covers the invalidation
  map that it was made from, so that a source is skipped only where nothing in
  it depends on the request;
- `lightmount_invalidation/summary_laws.rs`: what summaries keep and read back;
- `lightmount_invalidation/planner_laws.rs`: what every plan keeps.

Insertion-ordered sets and maps come from `indexmap`; what the library relies on
is written down in `lightmount_invalidation/indexed.rs`. Comparisons of text that
come from the standard library are in `lightmount_invalidation/text.rs`.

`app/` connects the library to a style engine: a device shared between threads,
declaration blocks by name and text, and the walks over the engine's document.
