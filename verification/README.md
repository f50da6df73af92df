# backend

Damage-stability services for ships with watertight compartments.

- `src/` is the verified library: bulkhead doors and how flooding spreads
  through the open ones (`vr_compartment`), the list of breached compartments
  of an attack (`extreme_simulator`), catalogue lookups (`ship_configs`), the
  written verdicts of ship comparisons (`design_comparator`,
  `era_comparator`), the sizing of the worker pool (`compute_pool`) and the
  request records that hold no measurement (`models`, `queries`).
- `app/` holds what computes in floating point or does I/O: the serialisable
  records, the comparators and scenarios that call the hydrostatic model
  (written against the `Hydrostatics` trait), the catalogue reader and the
  thread pool.
- `tests/` exercises the library on concrete ships.
