//! Derives a structured database schema from a directory of migration
//! statements and maps it to generated record types.
//!
//! The pipeline: order and parse migration files, apply them to a disposable
//! engine instance, decode the engine's catalog metadata back into structured
//! table and field schemas, classify field nullability, cache the derived
//! schema by source path, and generate a record type per table.
//!
//! Statement parsing and execution are the engine's own work; everything that
//! decides or computes on plain values is verified here. The engine's async
//! side — provisioning an instance, applying batches, issuing the metadata
//! queries — lives with the caller, which hands the responses back in as
//! plain values.

pub mod cache;
pub mod codegen;
pub mod define;
pub mod error;
pub mod loader;
pub mod parse;
pub mod schema;
pub mod text;
pub mod value;

pub use cache::SchemaCache;
pub use codegen::{generate, GeneratedField, GeneratedRecordType, TargetType};
pub use define::{AssertShape, DefineShape, FieldDef};
pub use error::Error;
pub use loader::{is_migration_source, load_migrations, MigrationFile, MigrationStatement};
pub use parse::{decode_field_definition, decode_table_definition};
pub use schema::{
    derive_schemas, is_nullable, require_all_ok, set_table_schema, tables_from_info, unwrap_single,
    FieldSchema, TableSchema,
};
pub use value::EngineVal;
