pub mod error;
pub mod unicode;
pub mod cached_read_file;
pub mod file;
pub mod source;
pub mod token;
pub mod atom;
pub mod diagnostic;
pub mod utf8_file;
pub mod memory_file;
pub mod log;
pub mod ast;
pub mod cache_file;
pub mod stream;
