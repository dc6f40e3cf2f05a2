//! A query-compilation core: resolves projection expressions against a schema,
//! assembles typed logical plans and translates them to and from a portable form.
pub mod types;
pub mod expr;
pub mod plan;
pub mod portable;
pub mod query;
