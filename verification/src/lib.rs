//! Support library for a network-measurement pipeline built around a
//! persistent, space-bounded disk cache for large HTTP downloads.
//!
//! The heart of the crate is the cache index ([`cache::CacheInnerData`]):
//! the authoritative record of which files are cached, how much space they
//! occupy, and which of them may be evicted.  File-system and network work
//! is performed by a driver outside this crate; the index hands the driver
//! explicit instructions and consumes the outcomes, so every decision the
//! cache makes is verified here.
//!
//! Around the core sit the utilities the pipeline uses: capacity-string
//! parsing, cache-key derivation, IP address parsing and formatting, and
//! assorted small data types.

pub mod asn;
pub mod atomic_cell;
pub mod atlas;
pub mod attribute;
pub mod bench;
pub mod bytesize;
pub mod cache;
pub mod graphviz;
pub mod ip;
pub mod rate_limit;
pub mod cachekey;
pub mod token;
pub mod util;
