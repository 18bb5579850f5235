//! A relational-database access layer: a backend-independent value and type
//! model, a query-expression compiler that emits parameterised SQL, and a
//! schema-migration engine that renders schema operations as DDL.

pub mod types;
pub mod error;
pub mod text;
pub mod adb;
pub mod query;
pub mod connmethods;
pub mod sql;
pub mod ddl;
pub mod pg;
pub mod sqlite;
pub mod db;
pub mod migrations;
