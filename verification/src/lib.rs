//! A binary codec for two kinds of in-memory data: fixed-size plain values
//! ("blobs"), written and read as their exact byte image, and flexible-array
//! structures: a fixed header followed by a variable number of same-typed
//! entries.
//!
//! Wire format, bit for bit:
//! - a plain value is its byte image: its fields in declaration order, each
//!   integer field little-endian, with no length prefix and no version tag;
//! - a flexible-array structure is the header's byte image, then the entry
//!   count as an 8-byte little-endian unsigned integer, then the byte images
//!   of the entries in order.
//!
//! The central rule of the flexible-array codec: the count stored inside the
//! decoded header is never trusted. A decoded wrapper derives its count from
//! the entries actually decoded, and every other header field is taken from
//! the header bytes as they came.

pub mod blob;
pub mod error;
pub mod fam;
pub mod ints;
pub mod pair;
pub mod plain;
pub mod small;
