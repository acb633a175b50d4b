//! Turns a record type's shape and annotations into SQL texts for select-all,
//! insert, update and delete, the parameter-binding plan of each statement, a
//! field-metadata table and the backend profile that generated methods use.
//!
//! The pipeline runs forward: `config` reads the type-level annotations, `fields`
//! analyses the fields, `sql` and `bind` build the statements and their plans,
//! and `driver` resolves the backend; `generate` runs them all.

pub mod naming;
pub mod text;
pub mod fields;
pub mod sql;
pub mod bind;
pub mod config;
pub mod driver;
pub mod generate;
