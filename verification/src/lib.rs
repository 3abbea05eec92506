//! An extended SQL statement parser: recognizes `CREATE EXTERNAL TABLE`,
//! `DESCRIBE`, and a catalog/schema-scoped `USE` statement on top of a
//! generic SQL grammar, together with a session-scoped name-resolution
//! layer that deduplicates files, catalogs and schemas across a chain of
//! `USE` inclusions.
pub mod ast;
pub mod compression;
pub mod cursor;
pub mod errors;
pub mod parser;
pub mod paths;
pub mod scalar;
pub mod session;
pub mod sqlbridge;
pub mod strutil;
pub mod tokens;

pub use ast::ColumnDef;
pub use ast::ColumnOptionDef;
pub use ast::CreateExternalTable;
pub use ast::DescribeTable;
pub use ast::DfStatement;
pub use ast::Ident;
pub use ast::ObjectName;
pub use ast::StatementMeta;
pub use ast::meta_for_name_parts;
pub use ast::meta_for_table_string;
pub use compression::CompressionTypeVariant;
pub use compression::parse_compression_tag;
pub use cursor::DFParser;
pub use errors::ParseError;
pub use parser::ParsedItem;
pub use parser::location_needs_local_file;
pub use parser::validate_location;
pub use parser::wrap_file_error;
pub use paths::basename;
pub use paths::extension;
pub use paths::parent;
pub use paths::qualify_name;
pub use paths::qualify_object_name;
pub use paths::strip_extension;
pub use paths::swap_extension;
pub use scalar::LowerFunction;
pub use scalar::LpadFunction;
pub use session::ResolutionSession;
pub use session::UseAction;
pub use session::get_location;
pub use session::register_location;
pub use session::resolve_use;
pub use session::schema_file_name;
pub use session::table_file_name;
pub use session::visit;
pub use strutil::split_str;
