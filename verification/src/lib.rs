//! Stateless helpers: UTF-8-aware string slicing and insertion measured in
//! Unicode scalar values, random alphanumeric and hex string generation,
//! RFC-4122 UUID v4/v7 construction, and ASCII whitespace trimming.

pub mod hex;
pub mod idgen;
mod sys;
pub mod text;
pub mod trim;
pub mod uuid;

pub use idgen::create_random_hex_string;
pub use idgen::create_random_string;
pub use idgen::get_random_buffer;
pub use text::get_utf8_slice;
pub use text::insert_utf8_char;
pub use text::split_uft8;
pub use trim::trim_ascii_whitespace;
pub use uuid::create_uuidv4;
pub use uuid::create_uuidv7;
pub use uuid::UUIDv7;
