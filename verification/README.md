# groundwater_virtual_screening

Leakage-controlled virtual screening of groundwater wells: which wells are
likely to exceed a drinking-water threshold for Na, Cl, TDS, B, F or NO3,
predicted from cheaper measurements without letting the target (or a proxy
of it) leak into the predictors.

## Layout

- `src/` — the verified library (Verus). Fold construction (stratified,
  repeated, spatially grouped) and its validation, the leakage rules and the
  audit of each tier's candidates, the predictor tiers and column roles,
  target eligibility, the reading of raw measurement cells and CSV tables,
  the run plan, run identifiers and per-fold seeds, CSV rendering, and the
  messages of the errors. Each public function carries a contract;
  `cv_laws.rs` and the `law_*` proof functions state the properties that
  hold across calls.
- `tests/` — tests on concrete values.
- `app/` — the `gvs` command-line program: file and database I/O, YAML
  parsing, and the floating-point models, metrics, attributions and
  clustering, which call into the library for every decision above.
