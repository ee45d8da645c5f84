# graph_engine

The decision logic of a semantic graph engine: facts with embeddings, kept in a
Neo4j graph, where an incoming fact is discarded as a duplicate, merged into its
nearest neighbour, related to its neighbours, or inserted on its own.

- `src/` is the library, verified with Verus. It takes and gives plain values:
  single-precision numbers are bit patterns, and what is sent to the database is
  a `Statement` with named parameters.
- `app/` is the gRPC service around it: connections, rows, messages, and the
  arithmetic on embeddings.
- `tests/` runs the library.
