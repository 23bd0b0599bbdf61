//! Discovery of SQLite database files by their header, and rendering of
//! their schema and file metadata as text blocks.
pub mod header;
pub mod text;
pub mod sql;
pub mod schema;
pub mod meta;
pub mod output;

pub use header::has_sqlite_header;
pub use meta::{metadata_fmt, FileMeta, MetaError, Timestamp};
pub use output::{assemble_block, file_block, Options};
pub use schema::schema_fmt;
pub use sql::{sql_fmt, sql_fmt_pretty};
