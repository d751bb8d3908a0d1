//! Core logic of a static-content HTTP server: path resolution, byte-range
//! computation, conditional-request evaluation, directory listings with
//! sorting, compression negotiation, upload planning, and response assembly.
//!
//! Everything here is pure: filesystem reads, sockets and clocks live in the
//! surrounding application, which hands this crate plain values (file
//! metadata, directory entries, header strings) and executes the response
//! plans it gets back.

pub mod compress;
pub mod errors;
pub mod fmt;
pub mod listing;
pub mod range;
pub mod rangeparse;
pub mod resolver;
pub mod response;
pub mod sort;
pub mod strutil;
pub mod upload;
pub mod urlenc;
pub mod validators;
