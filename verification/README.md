# rifimporter

A library that reads RIF formulas (atoms, frames, subclass, membership and equality
formulas) out of RDF graphs under several entailment regimes, keeps stores of formulas,
and sends formulas back as RDF triples through a C triple handler.

- `src/` holds the library, verified with Verus: the readings of a graph (`interpreter/`),
  RIF-in-RDF term and list reading (`rdfhelper`), the formula store (`rififormulas`), the
  graph builder with named blank nodes (`rifigraph`, `genterms`), and the exact sequence
  of triples that a formula is sent as (`formula_call_rdf_hook`). Laws are in `laws.rs`.
- `app/` holds the C interface: pointers, C strings and the calls of the triple handler.
- `tests/` runs the library on concrete graphs and formulas.

Terms read from a graph are handed to C as NUL-terminated strings, so a query is only
answered where the terms it may read hold no NUL character: each reading states this as
`answerable`, which `is_answerable` tests, and which answering keeps; the C interface
fails where it does not hold.
