//! Bookkeeping for the Not Recently Used page-replacement policy: a page
//! table of Referenced/Modified bits, an address translator that updates
//! them on every access, and a classifier that picks an eviction victim.
pub mod error;
pub mod nru;
pub mod table;
pub mod vm;
