//! Verified core of the Gearbox framework's code generators: the decisions
//! behind the `#[cog]`, `#[cog_config]`, route, `PgEntity`, `Crud` and
//! `pg_queries!` macros, the SQL they emit, and the PostgreSQL configuration
//! model.

pub mod attrs;
pub mod block;
pub mod cog;
pub mod config;
pub mod crud;
pub mod entity;
pub mod queries;
pub mod repository;
pub mod sql;
pub mod syntax;
pub mod text;
