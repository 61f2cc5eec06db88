# alice_energy

Deterministic power grid simulation support, verified with Verus.

- `src/` is the verified library: node, grid, battery and device
  identifiers and kinds; the grid topology (id index and adjacency lists);
  FNV-1a and the little-endian word layout behind every result's content
  hash; the bus classification of the AC Newton-Raphson solver; the
  outage cases of N-1 contingency analysis; and the node each phase
  correction reaches. Every public function carries a contract, and the
  laws relating them (incremental hashing, symmetric adjacency, index
  lookup agreeing with a scan on distinct ids, and so on) are proof
  functions beside them.
- `app/` holds the physical models, which compute in floating point:
  power nodes and grids, batteries, economic dispatch, DC and AC load
  flow, FACTS controllers, renewable output, phase synchronisation and
  stability analysis. They call the library for the decisions above.
- `tests/` exercises the library on concrete values.
