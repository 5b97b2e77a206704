//! Reads SQLite database files: the file header, B-tree pages, cells and
//! records, and over them three queries on the schema table and on one
//! table's rows.
//!
//! The decoders take bytes and give values, each with a contract over a
//! model of the bytes. The queries come in two forms: as a walk that is fed
//! one page at a time and says which page it wants next, for a caller that
//! reads the file itself, and as a function on a file that is held in memory.

pub mod btree_page;
pub mod bytes;
pub mod cell;
pub mod database;
pub mod error;
pub mod header;
pub mod page_header;
pub mod record;
pub mod row_count;
pub mod schema;
pub mod serial_type;
pub mod table_count;
pub mod table_list;
pub mod text;
pub mod tree;
pub mod varint;
pub mod walk;
