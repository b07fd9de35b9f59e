//! A framework for compressing and decompressing data structures.
//!
//! Interchangeable, stateless compression backends turn byte sequences into
//! compressed byte sequences and back.  On top of them sit two containers: a
//! mutable map whose values are kept compressed at rest and decompressed on
//! every lookup, and an immutable perfect-hash map whose compressed entries
//! are produced ahead of time by a table builder.

pub mod codegen;
pub mod com;
pub mod de;
pub mod error;
pub mod hash_map;
pub mod laws;
pub mod phf;
pub mod render;
pub mod table;

pub mod brotli;
pub mod deflate;
pub mod snappy;
pub mod stored;
pub mod xz;
pub mod xz2;
pub mod zstd;

pub use com::{ByteCount, Compress, Compressor};
pub use de::{compatible, Decompress, Decompressor};
pub use codegen::MapBuilder;
pub use error::CodecError;
pub use hash_map::CompressedHashMap;
pub use laws::{cross_backend, round_trip};
pub use phf::CompressedPhfMap;
