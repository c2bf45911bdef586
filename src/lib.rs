//! Log-file querying: a pattern language that compiles to a regular
//! expression with typed fields, and a chunked scanner that turns the lines
//! of a file into typed columns.

pub mod app;
pub mod builder;
pub mod engine;
pub mod error;
pub mod exec;
pub mod expander;
pub mod parser;
pub mod provider;
pub mod scanner;
pub mod text;
pub mod types;

pub use app::{LfLog, QueryOptions};
pub use builder::{is_float, parse_int32, Column, FieldsBuilder};
pub use error::Error;
pub use exec::{chunk_bounds, find_next_newline, scan_chunk, scan_file, Batch, ScanPlan};
pub use expander::{expand_macros, format_to_regex, TypeHints};
pub use parser::{parse_macro_invocation, split_args, CustomMacro, MacroInvocation, Profile, Profiles};
pub use provider::{chunk_count, resolve_files, DataKind, LogTableProvider, SchemaField};
pub use scanner::{cells_at_indices, group_names_of, Scanner};
pub use types::{DateTime, FieldType};
