# gearbox

The decisions behind the Gearbox framework's code generators, verified with
Verus: what `#[cog]`, `#[cog_config]`, the route attributes, `#[gearbox_app]`,
`#[derive(PgEntity)]`, `#[derive(Crud)]` and `pg_queries!` generate, the SQL
they emit, and the PostgreSQL configuration model.

- `src/` is the verified library. The generators read the annotated item as
  plain values (`syntax::StructInput`, `attrs::ArgToken`, ...) and return a
  plan (`cog::CogPlan`, `repository::PgEntityPlan`, `crud::CrudPlan`,
  `queries::QueriesPlan`, ...) or the compile error to report. Each public
  function states its result exactly; the laws (`law_*`) state what holds
  across functions, e.g. that every generated SQL statement numbers its
  placeholders up to exactly the number of values bound to it.
- `app/` reads the macro input with `syn`, asks the library for the plan and
  renders it with `quote`; it also holds the `serde` configuration types, the
  error type and the `sqlx` connection pools.
- `tests/` runs the library on the framework's own examples.
