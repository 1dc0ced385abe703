# graphcal_compiler

Verified dimension and type checking kernels of the Graphcal compiler's typed
intermediate representation, written in Verus.

The library (`src/`) holds the decisions of the checker as functions over plain
values, each with a contract proved by Verus:

- `rational`, `dimension`, `nat_form`: exact exponents, physical dimensions and
  linear Nat forms with checked arithmetic.
- `index`, `types`, `declared`: index identities, inferred types and declared
  annotation types, with the annotation-compatibility rule.
- `rules`, `complex`, `linear_algebra`, `builtin_call`, `domain_bounds`:
  typing rules for operators, conversions, conditionals, complex and
  linear-algebra built-ins, built-in routing and domain-constraint bounds.
- `keys`, `fields`, `signature`: key spaces, map-literal exhaustiveness and
  collection types; constructor and pattern field names; dimension
  signatures of function calls.
- `static_index`, `materialized_shape`, `bound_nat`: static `Fin` positions,
  the eager shape policy and specialization of retained Nat obligations.
- `expression_facts`, `hir`: published per-expression facts and their
  validation against an expression tree.
- `cycles`, `dag_cycles`: declaration and inline-DAG call cycle detection.
- `const_fold`, `fin_bound`, `index_access`, `scan`, `for_comp`,
  `match_arms`, `type_conversion`, `aggregation`, `unfold`: constant folding
  of integer exponents, static `Fin` bounds, index access, scans and
  unfolds, comprehensions, match patterns and coverage, `to_float`/`to_int`
  and reductions.
- `resolved`, `inline_dag`, `reconciliation`: resolved declaration types,
  inline DAG calls and override reconciliation of includes.
- `plot`, `presentation`: plot channel shapes, figure and layer references,
  plot-family properties and the per-DAG presentation facts.
- `expr_typing`: typing of whole expression trees (literals, references,
  operators, conditionals, conversions, index access, reductions, built-in
  calls by their dimension signatures, field access on records, constructor
  calls, map literals, comprehensions, scans, unfolds, matches on labels and
  union values, and inline DAG calls), the dimension check of every
  declaration of a program (so that `1.0 km + 1.0 kg` in any body is
  rejected) and the check of override values. A time-zone display node
  carries whether the machine's time-zone database holds its zone, looked
  up when the node is built (`display_timezone_node`). Datetime literals,
  key forms and calls of functions other than built-ins, which other passes
  type, are answered with `Unsupported`.
- `tir_check`: the check of a whole file (declaration cycles, then
  inline-call cycles between DAGs, then each DAG's declarations) and the
  typing of a plot's encoding channels into their shapes.
- `ctor_generics`: generic arguments of constructor calls, with defaults.
- `nat_poly`: polynomial Nat forms and their evaluation under lexical
  bindings.
- `assertions`, `template_closure`, `model_schema`: expected-failure keys,
  template closure policy and concrete model-schema applications with their
  field obligations and constructors.
- `laws`: algebraic properties of the rules, stated and proved.

`app/` gives the library's error values `std::error::Error` implementations
with the checker's messages. `tests/` exercises the library on concrete values.
