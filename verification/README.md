# angular_phases

A library of transformation phases of the Angular template compiler's
pipeline, written in Verus. Each phase takes a compilation job (a component
template's views, or a host binding) in an intermediate representation and
rewrites it; its contract states the job afterwards as a function of the job
before, over the mathematical views of the operations and expressions.

## Layout

- `src/ir.rs`: the intermediate representation (operations, expressions, views,
  compilation jobs) and the view of an expression as a mathematical term.
- `src/expr_transform.rs`: the generic rewriting of the expressions an
  operation holds, shared by the phases that rewrite expressions.
- One module per phase (`src/allocate_slots.rs`, `src/create_i18n_contexts.rs`,
  `src/const_collection.rs`, ...), each with the phase's specification, its
  implementation and the laws it keeps.
- `src/pure_function_extraction.rs`: the key under which a template
  expression is pooled as a pure-function body.
- `src/phases.rs`: the phase table and the two drivers that run its phases in
  order on a template job and on a host-binding job.
- `src/fx.rs`: the `rustc_hash` maps and sets the phases use, behind trusted
  wrappers; `src/text.rs`: character and string helpers.
- `tests/`: tests on concrete jobs, one file per group of phases.

Verify with Verus; the tests run with `cargo test`.
