# soroban-budget-assert

A verified core for Soroban cost budgeting: the constant-product AMM pool
used as the benchmark fixture, the argument grammar and assertion plans of the
budget test attributes, and the report and `--check` logic of
`cargo budget-report`.

- `src/` is verified with Verus. `pool` and `pool_laws` hold the pool's state
  transitions and their properties, `bench` the synthetic benchmark entry
  points, `budget_attr`, `budget_plan`, `exit_paths`, `config_scan` and
  `limits` the attribute logic (including when an injected check fails),
  `report`, `format`, `rpc`, `output` and `text` the report and its CSV
  form, and `workflow` the CLI's target and deploy-retry decisions.
- `app/` is the host glue: the Soroban contracts, the token conversion and
  code generation of the attributes with `syn` and `quote`, and the file
  handling and JSON output of the CLI.
- `tests/` runs the library on concrete values.
